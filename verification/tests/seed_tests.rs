use sh_backend::models::{DeviceType, SensorUnit, SetpointType, SetpointUnit};
use sh_backend::seed::{seed_db, seed_db_at};
use sh_backend::store::EntityStore;

#[test]
fn seeding_builds_one_full_hierarchy() {
    let mut store = EntityStore::new(1000);
    seed_db(&mut store, false).unwrap();

    assert_eq!(store.sites.len(), 1);
    assert_eq!(store.rooms.len(), 1);
    assert_eq!(store.devices.len(), 1);
    assert_eq!(store.setpoints.len(), 1);
    assert_eq!(store.readings.len(), 100);

    let site = &store.sites[0];
    assert_eq!(site.name, "Main Office Site");
    assert_eq!(site.address.as_deref(), Some("123 Main St, Anytown, USA"));

    let room = &store.rooms[0];
    assert_eq!(room.site_id, site.id);
    assert_eq!(room.name, "Server Room");

    let device = &store.devices[0];
    assert_eq!(device.room_id, room.id);
    assert_eq!(device.name, "Server Room Temperature Sensor");
    assert_eq!(device.device_type, DeviceType::TemperatureSensor);
    assert!(device.unique_identifier.is_none());

    let setpoint = &store.setpoints[0];
    assert_eq!(setpoint.device_id, device.id);
    assert_eq!(setpoint.setpoint_type, SetpointType::Temperature);
    assert_eq!(setpoint.value, "22.5");
    assert_eq!(setpoint.unit, Some(SetpointUnit::Celsius));
}

#[test]
fn seeded_readings_stay_within_a_degree_of_the_baseline() {
    let mut store = EntityStore::new(1000);
    seed_db(&mut store, false).unwrap();
    let device_id = store.devices[0].id;
    for reading in &store.readings {
        assert_eq!(reading.device_id, device_id);
        assert_eq!(reading.unit, Some(SensorUnit::Celsius));
        // one decimal place exactly
        let dot = reading.value.find('.').expect("one decimal place");
        assert_eq!(reading.value.len(), dot + 2);
        let v: f64 = reading.value.parse().unwrap();
        assert!((21.5..=23.5).contains(&v), "value out of band: {}", reading.value);
    }
}

#[test]
fn seeded_rows_all_carry_the_batch_time() {
    // the per-row five-minute cadence is computed but never applied:
    // every row of one run carries the same stamp
    let mut store = EntityStore::new(1000);
    seed_db(&mut store, false).unwrap();
    let now = store.sites[0].created_at;
    assert_eq!(store.rooms[0].created_at, now);
    assert_eq!(store.devices[0].created_at, now);
    assert_eq!(store.setpoints[0].timestamp, now);
    for reading in &store.readings {
        assert_eq!(reading.timestamp, now);
        assert_eq!(reading.created_at, now);
        assert_eq!(reading.updated_at, now);
    }
}

#[test]
fn seeding_rolls_back_whole_run_on_failure() {
    // room for only sixty readings: the run fails midway and leaves nothing
    let mut store = EntityStore::new(60);
    assert!(seed_db(&mut store, false).is_err());
    assert_eq!(store.sites.len(), 0);
    assert_eq!(store.rooms.len(), 0);
    assert_eq!(store.devices.len(), 0);
    assert_eq!(store.setpoints.len(), 0);
    assert_eq!(store.readings.len(), 0);
}

#[test]
fn failed_second_run_leaves_the_first_intact() {
    let mut store = EntityStore::new(150);
    seed_db(&mut store, false).unwrap();
    assert!(seed_db(&mut store, false).is_err());
    assert_eq!(store.sites.len(), 1);
    assert_eq!(store.rooms.len(), 1);
    assert_eq!(store.devices.len(), 1);
    assert_eq!(store.setpoints.len(), 1);
    assert_eq!(store.readings.len(), 100);
}

#[test]
fn seeding_twice_duplicates_the_hierarchy() {
    let mut store = EntityStore::new(1000);
    seed_db(&mut store, false).unwrap();
    seed_db(&mut store, false).unwrap();
    assert_eq!(store.sites.len(), 2);
    assert_eq!(store.rooms.len(), 2);
    assert_eq!(store.devices.len(), 2);
    assert_eq!(store.setpoints.len(), 2);
    assert_eq!(store.readings.len(), 200);
    assert_eq!(store.sites[0].id, 1);
    assert_eq!(store.sites[1].id, 2);
    assert_eq!(store.sites[1].name, "Main Office Site");
    assert_eq!(store.rooms[1].site_id, 2);
    assert_eq!(store.devices[1].room_id, 2);
    for reading in &store.readings[100..] {
        assert_eq!(reading.device_id, store.devices[1].id);
    }
}

#[test]
fn extend_flag_is_inert() {
    // the extend mode is declared but unimplemented: asking for it
    // behaves exactly like a plain run and appends another hierarchy
    let mut store = EntityStore::new(1000);
    seed_db(&mut store, false).unwrap();
    seed_db(&mut store, true).unwrap();
    assert_eq!(store.sites.len(), 2);
    assert_eq!(store.readings.len(), 200);
}

#[test]
fn seeding_at_a_fixed_time_with_fixed_offsets() {
    let mut store = EntityStore::new(500);
    let offsets: Vec<i64> = vec![10; 100];
    seed_db_at(&mut store, false, 777_000, &offsets).unwrap();
    assert_eq!(store.readings.len(), 100);
    for reading in &store.readings {
        assert_eq!(reading.value, "23.5");
        assert_eq!(reading.timestamp, 777_000);
    }
    let mut expected_id = 1;
    for reading in &store.readings {
        assert_eq!(reading.id, expected_id);
        expected_id += 1;
    }
    assert_eq!(store.sites[0].created_at, 777_000);
}

#[test]
fn seeding_at_capacity_zero_fails_before_anything_persists() {
    let mut store = EntityStore::new(0);
    let offsets: Vec<i64> = vec![0; 100];
    assert!(seed_db_at(&mut store, false, 1, &offsets).is_err());
    assert_eq!(store.sites.len(), 0);
    assert_eq!(store.readings.len(), 0);
}
