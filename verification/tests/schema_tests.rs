use sh_backend::models::{
    ControlSetpointInput, DeviceInput, DeviceType, RoomInput, SensorReadingInput, SensorUnit,
    SetpointType, SetpointUnit, SiteInput,
};
use sh_backend::schema::{MutationError, SiteMutationRoot, SiteQueryRoot};
use sh_backend::store::EntityStore;
use sh_backend::validate::{ensure_exists, ParentKind};

fn site_input(name: &str) -> SiteInput {
    SiteInput { name: name.to_string(), address: None }
}

#[test]
fn create_site_returns_the_persisted_row() {
    let mut store = EntityStore::new(100);
    let mutation = SiteMutationRoot;
    let site = mutation
        .create_site(
            &mut store,
            SiteInput { name: "HQ".to_string(), address: Some("1 Plant Way".to_string()) },
        )
        .unwrap();
    assert_eq!(site.id, 1);
    assert_eq!(site.name, "HQ");
    assert_eq!(site.address.as_deref(), Some("1 Plant Way"));
    assert_eq!(site.created_at, site.updated_at);

    let query = SiteQueryRoot;
    let sites = query.sites(&store);
    assert_eq!(sites.len(), 1);
    assert_eq!(sites[0].id, 1);
    assert_eq!(sites[0].name, "HQ");
}

#[test]
fn create_room_with_valid_parent_links_to_it() {
    let mut store = EntityStore::new(100);
    let mutation = SiteMutationRoot;
    let site = mutation.create_site(&mut store, site_input("HQ")).unwrap();
    let room = mutation
        .create_room(&mut store, RoomInput { site_id: site.id, name: "Lab".to_string() })
        .unwrap();
    assert_eq!(room.site_id, site.id);
    assert_eq!(room.id, 1);
    assert_eq!(room.name, "Lab");
}

#[test]
fn create_device_with_valid_parent_links_to_it() {
    let mut store = EntityStore::new(100);
    let mutation = SiteMutationRoot;
    let site = mutation.create_site(&mut store, site_input("HQ")).unwrap();
    let room = mutation
        .create_room(&mut store, RoomInput { site_id: site.id, name: "Lab".to_string() })
        .unwrap();
    let device = mutation
        .create_device(
            &mut store,
            DeviceInput {
                room_id: room.id,
                name: "Probe".to_string(),
                device_type: DeviceType::ThermostatController,
                unique_identifier: Some("probe-1".to_string()),
            },
        )
        .unwrap();
    assert_eq!(device.room_id, room.id);
    assert_eq!(device.device_type, DeviceType::ThermostatController);
    assert_eq!(device.unique_identifier.as_deref(), Some("probe-1"));
}

#[test]
fn create_room_with_missing_parent_fails_and_persists_nothing() {
    let mut store = EntityStore::new(100);
    let mutation = SiteMutationRoot;
    let r = mutation.create_room(&mut store, RoomInput { site_id: 7, name: "Lab".to_string() });
    match r {
        Err(MutationError::Integrity(e)) => {
            assert_eq!(e.id, 7);
            assert_eq!(e.message(), "Site with ID 7 does not exist");
        }
        _ => panic!("expected an integrity failure"),
    }
    let query = SiteQueryRoot;
    assert!(query.room(&store, 1).is_none());
    assert_eq!(store.fetch_rooms_by_site(7).len(), 0);
}

#[test]
fn create_device_with_missing_parent_fails_and_persists_nothing() {
    let mut store = EntityStore::new(100);
    let mutation = SiteMutationRoot;
    let r = mutation.create_device(
        &mut store,
        DeviceInput {
            room_id: 42,
            name: "Probe".to_string(),
            device_type: DeviceType::TemperatureSensor,
            unique_identifier: None,
        },
    );
    match r {
        Err(MutationError::Integrity(e)) => {
            assert_eq!(e.id, 42);
            assert_eq!(e.message(), "Room with ID 42 does not exist");
        }
        _ => panic!("expected an integrity failure"),
    }
    let query = SiteQueryRoot;
    assert_eq!(query.devices_in_room(&store, 42).len(), 0);
}

#[test]
fn leaf_creation_skips_parent_validation() {
    // a reading or setpoint is accepted for a device that does not exist;
    // this pins the current behaviour of the leaf paths
    let mut store = EntityStore::new(100);
    let mutation = SiteMutationRoot;
    let reading = mutation
        .create_sensor_reading(
            &mut store,
            SensorReadingInput {
                device_id: 999,
                value: "20.1".to_string(),
                unit: Some(SensorUnit::Celsius),
            },
        )
        .unwrap();
    assert_eq!(reading.device_id, 999);
    let setpoint = mutation
        .create_control_setpoint(
            &mut store,
            ControlSetpointInput {
                device_id: 999,
                setpoint_type: SetpointType::Temperature,
                value: "19.0".to_string(),
                unit: Some(SetpointUnit::Fahrenheit),
            },
        )
        .unwrap();
    assert_eq!(setpoint.device_id, 999);
}

#[test]
fn latest_reading_takes_the_maximum_timestamp() {
    let mut store = EntityStore::new(100);
    store
        .insert_sensor_reading(5, "20.0".to_string(), Some(SensorUnit::Celsius), 100)
        .unwrap();
    store
        .insert_sensor_reading(5, "21.0".to_string(), Some(SensorUnit::Celsius), 300)
        .unwrap();
    store
        .insert_sensor_reading(5, "22.0".to_string(), Some(SensorUnit::Celsius), 200)
        .unwrap();
    store
        .insert_sensor_reading(6, "99.0".to_string(), Some(SensorUnit::Celsius), 999)
        .unwrap();
    let query = SiteQueryRoot;
    let latest = query.latest_sensor_reading(&store, 5).unwrap();
    assert_eq!(latest.timestamp, 300);
    assert_eq!(latest.value, "21.0");
}

#[test]
fn latest_reading_ties_resolve_to_the_first_row() {
    let mut store = EntityStore::new(100);
    let first = store
        .insert_sensor_reading(5, "20.0".to_string(), Some(SensorUnit::Celsius), 300)
        .unwrap();
    store
        .insert_sensor_reading(5, "21.0".to_string(), Some(SensorUnit::Celsius), 300)
        .unwrap();
    let query = SiteQueryRoot;
    let latest = query.latest_sensor_reading(&store, 5).unwrap();
    assert_eq!(latest.id, first.id);
    assert_eq!(latest.value, "20.0");
}

#[test]
fn latest_setpoint_takes_the_maximum_timestamp() {
    let mut store = EntityStore::new(100);
    store
        .insert_control_setpoint(
            5,
            SetpointType::Temperature,
            "20.0".to_string(),
            Some(SetpointUnit::Celsius),
            100,
        )
        .unwrap();
    store
        .insert_control_setpoint(
            5,
            SetpointType::Temperature,
            "23.0".to_string(),
            Some(SetpointUnit::Celsius),
            400,
        )
        .unwrap();
    let query = SiteQueryRoot;
    let latest = query.latest_control_setpoint(&store, 5).unwrap();
    assert_eq!(latest.timestamp, 400);
    assert_eq!(latest.value, "23.0");
    assert!(query.latest_control_setpoint(&store, 6).is_none());
}

#[test]
fn latest_reading_absent_for_unknown_device() {
    let store = EntityStore::new(100);
    let query = SiteQueryRoot;
    assert!(query.latest_sensor_reading(&store, 1).is_none());
}

#[test]
fn site_and_room_lookup_by_id() {
    let mut store = EntityStore::new(100);
    let mutation = SiteMutationRoot;
    let site = mutation.create_site(&mut store, site_input("HQ")).unwrap();
    let room = mutation
        .create_room(&mut store, RoomInput { site_id: site.id, name: "Lab".to_string() })
        .unwrap();
    let query = SiteQueryRoot;
    assert_eq!(query.site(&store, site.id).unwrap().name, "HQ");
    assert!(query.site(&store, site.id + 1).is_none());
    assert_eq!(query.room(&store, room.id).unwrap().name, "Lab");
    assert!(query.room(&store, room.id + 1).is_none());
}

#[test]
fn nested_resolution_stays_inside_one_branch() {
    // two sites, each with its own room, device and readings: walking one
    // site's branch never returns a row of the other
    let mut store = EntityStore::new(100);
    let mutation = SiteMutationRoot;
    let query = SiteQueryRoot;

    let site_a = mutation.create_site(&mut store, site_input("A")).unwrap();
    let site_b = mutation.create_site(&mut store, site_input("B")).unwrap();
    let room_a = mutation
        .create_room(&mut store, RoomInput { site_id: site_a.id, name: "A1".to_string() })
        .unwrap();
    let room_b = mutation
        .create_room(&mut store, RoomInput { site_id: site_b.id, name: "B1".to_string() })
        .unwrap();
    let device_a = mutation
        .create_device(
            &mut store,
            DeviceInput {
                room_id: room_a.id,
                name: "DA".to_string(),
                device_type: DeviceType::TemperatureSensor,
                unique_identifier: None,
            },
        )
        .unwrap();
    let device_b = mutation
        .create_device(
            &mut store,
            DeviceInput {
                room_id: room_b.id,
                name: "DB".to_string(),
                device_type: DeviceType::TemperatureSensor,
                unique_identifier: None,
            },
        )
        .unwrap();
    mutation
        .create_sensor_reading(
            &mut store,
            SensorReadingInput {
                device_id: device_a.id,
                value: "20.0".to_string(),
                unit: Some(SensorUnit::Celsius),
            },
        )
        .unwrap();
    mutation
        .create_sensor_reading(
            &mut store,
            SensorReadingInput {
                device_id: device_b.id,
                value: "30.0".to_string(),
                unit: Some(SensorUnit::Celsius),
            },
        )
        .unwrap();

    for site in query.sites(&store) {
        let rooms = site.rooms(&store);
        assert_eq!(rooms.len(), 1);
        for room in rooms {
            assert_eq!(room.site_id, site.id);
            let devices = room.devices(&store);
            assert_eq!(devices.len(), 1);
            for device in devices {
                assert_eq!(device.room_id, room.id);
                let readings = device.sensor_readings(&store);
                assert_eq!(readings.len(), 1);
                for reading in readings {
                    assert_eq!(reading.device_id, device.id);
                }
                assert_eq!(device.control_setpoints(&store).len(), 0);
            }
        }
    }
    let a_readings = device_a.sensor_readings(&store);
    assert_eq!(a_readings.len(), 1);
    assert_eq!(a_readings[0].value, "20.0");
}

#[test]
fn a_full_site_table_refuses_another_row() {
    let mut store = EntityStore::new(1);
    let mutation = SiteMutationRoot;
    mutation.create_site(&mut store, site_input("only")).unwrap();
    match mutation.create_site(&mut store, site_input("one too many")) {
        Err(MutationError::Storage(_)) => {}
        _ => panic!("expected a storage failure"),
    }
    assert_eq!(SiteQueryRoot.sites(&store).len(), 1);
}

#[test]
fn storage_failure_message() {
    let mut store = EntityStore::new(0);
    let mutation = SiteMutationRoot;
    let err = mutation.create_site(&mut store, site_input("none")).unwrap_err();
    assert_eq!(err.message(), "storage failure");
}

#[test]
fn setpoints_are_listed_for_their_device() {
    let mut store = EntityStore::new(100);
    store
        .insert_control_setpoint(
            3,
            SetpointType::Temperature,
            "21.0".to_string(),
            Some(SetpointUnit::Celsius),
            50,
        )
        .unwrap();
    store
        .insert_control_setpoint(
            4,
            SetpointType::Temperature,
            "25.0".to_string(),
            None,
            60,
        )
        .unwrap();
    let for_three = store.fetch_setpoints_by_device(3);
    assert_eq!(for_three.len(), 1);
    assert_eq!(for_three[0].value, "21.0");
    assert_eq!(store.fetch_setpoints_by_device(4).len(), 1);
    assert_eq!(store.fetch_setpoints_by_device(5).len(), 0);
}

#[test]
fn rollback_discards_rows_after_the_mark() {
    let mut store = EntityStore::new(100);
    let mutation = SiteMutationRoot;
    let site = mutation.create_site(&mut store, site_input("kept")).unwrap();
    let mark = store.mark();
    mutation
        .create_room(&mut store, RoomInput { site_id: site.id, name: "gone".to_string() })
        .unwrap();
    mutation.create_site(&mut store, site_input("gone too")).unwrap();
    store.rollback(mark);
    assert_eq!(store.sites.len(), 1);
    assert_eq!(store.sites[0].name, "kept");
    assert_eq!(store.rooms.len(), 0);
}

#[test]
fn validator_reports_the_missing_parent() {
    let mut store = EntityStore::new(100);
    assert!(ensure_exists(&store, ParentKind::Site, 3).is_err());
    let mutation = SiteMutationRoot;
    let site = mutation.create_site(&mut store, site_input("HQ")).unwrap();
    assert!(ensure_exists(&store, ParentKind::Site, site.id).is_ok());
    assert!(ensure_exists(&store, ParentKind::Room, site.id).is_err());
    let e = ensure_exists(&store, ParentKind::Room, -4).unwrap_err();
    assert_eq!(e.message(), "Room with ID -4 does not exist");
}
