//! The seed generator: populate one complete hierarchy — a site, a room,
//! a temperature sensor device, a temperature setpoint — and a bounded
//! synthetic sensor time series, all-or-nothing.
//!
//! The setpoint is stored as the text `"22.5"`; the baseline temperature
//! is recovered by parsing that text back, falling back to the same value
//! when the stored text is malformed, so a bad value never aborts
//! seeding. Each of the hundred readings is the baseline plus a uniformly
//! random offset of at most one degree, rendered to one decimal place.

use vstd::prelude::*;

use crate::ambient::{now_micros, random_offset_tenths};
use crate::models::{DeviceType, SensorUnit, SetpointType, SetpointUnit};
use crate::models::{ControlSetpoint, Device, Room, SensorReading, Site};
use crate::store::{EntityStore, StorageError};
use crate::text::{
    first_dot_index, lemma_first_dot_at, parse_digits, parse_tenths, parse_tenths_spec,
    tenths_text,
};

verus! {

/// The number of synthetic readings one seeding run inserts.
pub const SEED_READING_COUNT: usize = 100;

/// The baseline temperature, in tenths of a degree: what `"22.5"`
/// denotes, and also the fallback when the stored text fails to parse.
pub const SEED_BASELINE_TENTHS: i64 = 225;

/// Whether one full seeded hierarchy fits the store: room for one site,
/// one room, one device, one setpoint, and the whole run of readings.
pub open spec fn seed_fits(s: EntityStore) -> bool {
    &&& s.sites@.len() < s.cap as nat
    &&& s.rooms@.len() < s.cap as nat
    &&& s.devices@.len() < s.cap as nat
    &&& s.setpoints@.len() < s.cap as nat
    &&& s.readings@.len() + SEED_READING_COUNT <= s.cap as nat
}

/// The site a seeding run creates.
pub open spec fn seeded_site(site: Site, id: int, now: i64) -> bool {
    &&& site.id == id
    &&& site.name@ == "Main Office Site"@
    &&& (site.address matches Some(a) && a@ == "123 Main St, Anytown, USA"@)
    &&& site.created_at == now
    &&& site.updated_at == now
}

/// The room a seeding run creates under its site.
pub open spec fn seeded_room(room: Room, id: int, site_id: i64, now: i64) -> bool {
    &&& room.id == id
    &&& room.site_id == site_id
    &&& room.name@ == "Server Room"@
    &&& room.created_at == now
    &&& room.updated_at == now
}

/// The device a seeding run creates under its room.
pub open spec fn seeded_device(device: Device, id: int, room_id: i64, now: i64) -> bool {
    &&& device.id == id
    &&& device.room_id == room_id
    &&& device.name@ == "Server Room Temperature Sensor"@
    &&& device.device_type == DeviceType::TemperatureSensor
    &&& device.unique_identifier is None
    &&& device.created_at == now
    &&& device.updated_at == now
}

/// The setpoint a seeding run creates for its device.
pub open spec fn seeded_setpoint(sp: ControlSetpoint, id: int, device_id: i64, now: i64) -> bool {
    &&& sp.id == id
    &&& sp.device_id == device_id
    &&& sp.setpoint_type == SetpointType::Temperature
    &&& sp.value@ == "22.5"@
    &&& sp.unit == Some(SetpointUnit::Celsius)
    &&& sp.timestamp == now
    &&& sp.created_at == now
    &&& sp.updated_at == now
}

/// One synthetic reading: bound to the seeded device, in Celsius, its
/// value the baseline shifted by the given offset of tenths and rendered
/// to one decimal place. Every row of the run carries the batch time.
pub open spec fn seeded_reading(
    rd: SensorReading,
    id: int,
    device_id: i64,
    now: i64,
    offset: int,
) -> bool {
    &&& rd.id == id
    &&& rd.device_id == device_id
    &&& rd.value@ == tenths_text(SEED_BASELINE_TENTHS + offset)
    &&& rd.unit == Some(SensorUnit::Celsius)
    &&& rd.timestamp == now
    &&& rd.created_at == now
    &&& rd.updated_at == now
}

/// The store after one successful seeding run: every prior row kept, one
/// full hierarchy appended, and one reading per offset, in order.
pub open spec fn seeded_from(
    pre: EntityStore,
    post: EntityStore,
    now: i64,
    offsets: Seq<i64>,
) -> bool {
    &&& post.sites@ == pre.sites@.push(post.sites@.last())
    &&& seeded_site(post.sites@.last(), pre.sites@.len() as int + 1, now)
    &&& post.rooms@ == pre.rooms@.push(post.rooms@.last())
    &&& seeded_room(post.rooms@.last(), pre.rooms@.len() as int + 1, post.sites@.last().id, now)
    &&& post.devices@ == pre.devices@.push(post.devices@.last())
    &&& seeded_device(post.devices@.last(), pre.devices@.len() as int + 1, post.rooms@.last().id, now)
    &&& post.setpoints@ == pre.setpoints@.push(post.setpoints@.last())
    &&& seeded_setpoint(
        post.setpoints@.last(),
        pre.setpoints@.len() as int + 1,
        post.devices@.last().id,
        now,
    )
    &&& post.readings@.len() == pre.readings@.len() + offsets.len()
    &&& post.readings@.subrange(0, pre.readings@.len() as int) == pre.readings@
    &&& forall|k: int|
        0 <= k < offsets.len() ==> seeded_reading(
            #[trigger] post.readings@[pre.readings@.len() + k],
            pre.readings@.len() as int + k + 1,
            post.devices@.last().id,
            now,
            offsets[k] as int,
        )
}

/// What a full seeding run leaves behind, for offsets of at most a degree
/// drawn by the run itself at some batch time.
pub open spec fn seed_evidence(pre: EntityStore, post: EntityStore, now: i64, offsets: Seq<
    i64,
>) -> bool {
    &&& offsets.len() == SEED_READING_COUNT
    &&& forall|k: int| 0 <= k < offsets.len() ==> -10 <= #[trigger] offsets[k] <= 10
    &&& seeded_from(pre, post, now, offsets)
}

/// Seeding is purely additive, so two runs leave two independent full
/// hierarchies side by side: the second run duplicates the first instead
/// of extending it, whatever the extend flag said. Every row of the
/// first run is untouched, and each run's site keeps its own batch time.
pub proof fn lemma_seed_twice(
    s0: EntityStore,
    s1: EntityStore,
    s2: EntityStore,
    n1: i64,
    o1: Seq<i64>,
    n2: i64,
    o2: Seq<i64>,
)
    requires
        seed_evidence(s0, s1, n1, o1),
        seed_evidence(s1, s2, n2, o2),
    ensures
        s2.sites@.len() == s0.sites@.len() + 2,
        s2.rooms@.len() == s0.rooms@.len() + 2,
        s2.devices@.len() == s0.devices@.len() + 2,
        s2.setpoints@.len() == s0.setpoints@.len() + 2,
        s2.readings@.len() == s0.readings@.len() + 2 * SEED_READING_COUNT,
        s2.sites@.subrange(0, s0.sites@.len() as int) == s0.sites@,
        s2.readings@.subrange(0, s0.readings@.len() as int) == s0.readings@,
        seeded_site(s2.sites@[s0.sites@.len() as int], s0.sites@.len() as int + 1, n1),
        seeded_site(s2.sites@.last(), s0.sites@.len() as int + 2, n2),
{
    assert(s2.sites@.subrange(0, s0.sites@.len() as int) =~= s0.sites@);
    assert forall|i: int| 0 <= i < s0.readings@.len() implies s2.readings@[i]
        == s0.readings@[i] by {
        assert(s1.readings@[i] == s1.readings@.subrange(0, s0.readings@.len() as int)[i]);
        assert(s2.readings@[i] == s2.readings@.subrange(0, s1.readings@.len() as int)[i]);
    }
    assert(s2.readings@.subrange(0, s0.readings@.len() as int) =~= s0.readings@);
    assert(s2.sites@[s0.sites@.len() as int] == s1.sites@.last());
}

/// The fallback text parses to the fallback value, so the baseline below
/// is the same whether or not the stored setpoint text survives the
/// round trip.
proof fn lemma_baseline_text()
    ensures
        parse_tenths_spec("22.5"@) == Some(225int),
{
    reveal_strlit("22.5");
    let s = "22.5"@;
    assert(s.len() == 4);
    lemma_first_dot_at(s, 2);
    assert(first_dot_index(s) == 2);
    let intpart = s.subrange(0, 2);
    let frac = s.subrange(3, 4);
    assert(intpart =~= seq!['2', '2']);
    assert(frac =~= seq!['5']);
    assert(parse_digits(seq!['2', '2']) == Some(22int)) by {
        reveal_with_fuel(parse_digits, 3);
        assert(seq!['2', '2'].drop_last() =~= seq!['2']);
    }
    assert(crate::text::all_dec_digits(frac));
    assert(parse_tenths_spec(s) == Some(10 * 22 + 5int));
}

/// Populate one complete hierarchy and its synthetic time series at the
/// given batch time, with the given random offsets, atomically: on any
/// storage failure every row of the run is rolled back. Succeeds exactly
/// when the whole run fits the store. The `extend` flag of the seed
/// surface is accepted but inert: this path behaves identically either
/// way.
#[verifier::loop_isolation(false)]
pub fn seed_db_at(
    store: &mut EntityStore,
    _should_extend: bool,
    now: i64,
    offsets: &Vec<i64>,
) -> (r: Result<(), StorageError>)
    requires
        old(store).wf(),
        offsets@.len() == SEED_READING_COUNT,
        forall|k: int| 0 <= k < offsets@.len() ==> -10 <= #[trigger] offsets@[k] <= 10,
    ensures
        final(store).wf(),
        final(store).cap == old(store).cap,
        r is Ok <==> seed_fits(*old(store)),
        r is Err ==> {
            &&& final(store).sites@ == old(store).sites@
            &&& final(store).rooms@ == old(store).rooms@
            &&& final(store).devices@ == old(store).devices@
            &&& final(store).readings@ == old(store).readings@
            &&& final(store).setpoints@ == old(store).setpoints@
        },
        r is Ok ==> seeded_from(*old(store), *final(store), now, offsets@),
{
    let m = store.mark();

    let site = match store.insert_site(
        String::from_str("Main Office Site"),
        Some(String::from_str("123 Main St, Anytown, USA")),
        now,
    ) {
        Ok(site) => site,
        Err(e) => {
            store.rollback(m);
            proof {
                assert(store.sites@ =~= old(store).sites@);
                assert(store.rooms@ =~= old(store).rooms@);
                assert(store.devices@ =~= old(store).devices@);
                assert(store.readings@ =~= old(store).readings@);
                assert(store.setpoints@ =~= old(store).setpoints@);
            }
            return Err(e);
        },
    };

    let room = match store.insert_room(site.id, String::from_str("Server Room"), now) {
        Ok(room) => room,
        Err(e) => {
            store.rollback(m);
            proof {
                assert(store.sites@ =~= old(store).sites@);
                assert(store.rooms@ =~= old(store).rooms@);
                assert(store.devices@ =~= old(store).devices@);
                assert(store.readings@ =~= old(store).readings@);
                assert(store.setpoints@ =~= old(store).setpoints@);
            }
            return Err(e);
        },
    };

    let device = match store.insert_device(
        room.id,
        String::from_str("Server Room Temperature Sensor"),
        DeviceType::TemperatureSensor,
        None,
        now,
    ) {
        Ok(device) => device,
        Err(e) => {
            store.rollback(m);
            proof {
                assert(store.sites@ =~= old(store).sites@);
                assert(store.rooms@ =~= old(store).rooms@);
                assert(store.devices@ =~= old(store).devices@);
                assert(store.readings@ =~= old(store).readings@);
                assert(store.setpoints@ =~= old(store).setpoints@);
            }
            return Err(e);
        },
    };

    let setpoint = match store.insert_control_setpoint(
        device.id,
        SetpointType::Temperature,
        String::from_str("22.5"),
        Some(SetpointUnit::Celsius),
        now,
    ) {
        Ok(setpoint) => setpoint,
        Err(e) => {
            store.rollback(m);
            proof {
                assert(store.sites@ =~= old(store).sites@);
                assert(store.rooms@ =~= old(store).rooms@);
                assert(store.devices@ =~= old(store).devices@);
                assert(store.readings@ =~= old(store).readings@);
                assert(store.setpoints@ =~= old(store).setpoints@);
            }
            return Err(e);
        },
    };

    // recover the baseline from the stored text; a malformed value falls
    // back to the default rather than aborting the run
    let baseline: i64 = match parse_tenths(setpoint.value.as_str()) {
        Some(t) => t,
        None => SEED_BASELINE_TENTHS,
    };
    proof {
        lemma_baseline_text();
        assert(baseline == 225);
    }

    let mut i: usize = 0;
    while i < SEED_READING_COUNT
        invariant
            i <= SEED_READING_COUNT,
            store.wf(),
            store.cap == old(store).cap,
            store.sites@ == old(store).sites@.push(site),
            store.rooms@ == old(store).rooms@.push(room),
            store.devices@ == old(store).devices@.push(device),
            store.setpoints@ == old(store).setpoints@.push(setpoint),
            store.readings@.len() == old(store).readings@.len() + i,
            store.readings@.subrange(0, old(store).readings@.len() as int) == old(
                store,
            ).readings@,
            forall|k: int|
                0 <= k < i ==> seeded_reading(
                    #[trigger] store.readings@[old(store).readings@.len() + k],
                    old(store).readings@.len() as int + k + 1,
                    device.id,
                    now,
                    offsets@[k] as int,
                ),
            i > 0 ==> old(store).readings@.len() + i <= old(store).cap as nat,
        decreases SEED_READING_COUNT - i,
    {
        let offset = offsets[i];
        // the intended per-row timestamp, five minutes apart and starting
        // five hundred minutes before the batch time; computed here as the
        // generation algorithm describes, though every row below is in
        // fact stamped with the batch time itself
        let _intended_timestamp: i128 = (now as i128) - 30_000_000_000
            + (i as i128) * 300_000_000;
        let value = crate::text::format_tenths(baseline + offset);
        match store.insert_sensor_reading(device.id, value, Some(SensorUnit::Celsius), now) {
            Ok(_) => {},
            Err(e) => {
                proof {
                    assert(!seed_fits(*old(store)));
                }
                store.rollback(m);
                proof {
                    assert(store.sites@ =~= old(store).sites@);
                    assert(store.rooms@ =~= old(store).rooms@);
                    assert(store.devices@ =~= old(store).devices@);
                    assert(store.readings@ =~= old(store).readings@);
                    assert(store.setpoints@ =~= old(store).setpoints@);
                }
                return Err(e);
            },
        }
        i += 1;
        proof {
            assert(store.readings@.subrange(0, old(store).readings@.len() as int) =~= old(
                store,
            ).readings@);
        }
    }
    proof {
        assert(seeded_from(*old(store), *store, now, offsets@));
    }
    Ok(())
}

/// Populate one complete hierarchy and a hundred synthetic readings,
/// atomically, stamped with the wall-clock time of the run and shifted by
/// offsets drawn from the random generator. The `extend` flag is accepted
/// but inert: no accumulation logic exists yet, so either value behaves
/// identically.
pub fn seed_db(store: &mut EntityStore, should_extend: bool) -> (r: Result<(), StorageError>)
    requires
        old(store).wf(),
    ensures
        final(store).wf(),
        final(store).cap == old(store).cap,
        r is Ok <==> seed_fits(*old(store)),
        r is Err ==> {
            &&& final(store).sites@ == old(store).sites@
            &&& final(store).rooms@ == old(store).rooms@
            &&& final(store).devices@ == old(store).devices@
            &&& final(store).readings@ == old(store).readings@
            &&& final(store).setpoints@ == old(store).setpoints@
        },
        r is Ok ==> exists|now: i64, offsets: Seq<i64>|
            #[trigger] seed_evidence(*old(store), *final(store), now, offsets),
{
    let mut offsets: Vec<i64> = Vec::new();
    let mut i: usize = 0;
    while i < SEED_READING_COUNT
        invariant
            i <= SEED_READING_COUNT,
            offsets@.len() == i,
            forall|k: int| 0 <= k < i ==> -10 <= #[trigger] offsets@[k] <= 10,
        decreases SEED_READING_COUNT - i,
    {
        offsets.push(random_offset_tenths());
        i += 1;
    }
    let now = now_micros();
    let r = seed_db_at(store, should_extend, now, &offsets);
    proof {
        if r is Ok {
            assert(seed_evidence(*old(store), *store, now, offsets@));
        }
    }
    r
}

} // verus!
