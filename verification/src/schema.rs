//! The public graph surface: root queries, root mutations, and the laws
//! that tie nested field resolution to the containment hierarchy.
//!
//! Every read issues one store fetch against the immediate parent's
//! identifier; every mutation validates its declared parent where the
//! design asks for it, then delegates to a single store insert.

use vstd::prelude::*;

use crate::ambient::now_micros;
use crate::models::{
    ControlSetpoint, ControlSetpointInput, Device, DeviceInput, Room, RoomInput, SensorReading,
    SensorReadingInput, Site, SiteInput,
};
use crate::store::{
    devices_of, first_room_with_id, first_site_with_id, is_latest_reading, is_latest_setpoint,
    readings_of, room_with_id_exists, rooms_of, site_with_id_exists, EntityStore, StorageError,
};
use crate::validate::{ensure_exists, IntegrityError, ParentKind};

verus! {

/// Why a mutation failed: the declared parent does not exist, or the
/// store refused the row.
#[derive(Clone, Copy, Debug, PartialEq, Eq, Structural)]
pub enum MutationError {
    Integrity(IntegrityError),
    Storage(StorageError),
}

impl MutationError {
    /// The human-readable description of the failure.
    pub fn message(&self) -> (r: String)
        ensures
            self matches MutationError::Integrity(e) ==> r@ == crate::validate::integrity_message(
                e.kind,
                e.id,
            ),
            self matches MutationError::Storage(_) ==> r@ == "storage failure"@,
    {
        match self {
            MutationError::Integrity(e) => e.message(),
            MutationError::Storage(_) => String::from_str("storage failure"),
        }
    }
}

/// The root of all read queries.
pub struct SiteQueryRoot;

impl SiteQueryRoot {
    /// All sites, in storage order.
    pub fn sites(&self, store: &EntityStore) -> (r: Vec<Site>)
        ensures
            r@ == store.sites@,
    {
        store.fetch_all_sites()
    }

    /// The site with the given identifier, or nothing.
    pub fn site(&self, store: &EntityStore, id: i64) -> (r: Option<Site>)
        ensures
            match r {
                Some(site) => exists|i: int|
                    #[trigger] first_site_with_id(store.sites@, id, i) && site == store.sites@[i],
                None => !site_with_id_exists(store.sites@, id),
            },
    {
        store.fetch_site_by_id(id)
    }

    /// The room with the given identifier, or nothing.
    pub fn room(&self, store: &EntityStore, id: i64) -> (r: Option<Room>)
        ensures
            match r {
                Some(room) => exists|i: int|
                    #[trigger] first_room_with_id(store.rooms@, id, i) && room == store.rooms@[i],
                None => !room_with_id_exists(store.rooms@, id),
            },
    {
        store.fetch_room_by_id(id)
    }

    /// All devices of the given room, in storage order.
    pub fn devices_in_room(&self, store: &EntityStore, room_id: i64) -> (r: Vec<Device>)
        ensures
            r@ == devices_of(store.devices@, room_id),
    {
        store.fetch_devices_by_room(room_id)
    }

    /// The reading of the device with the maximum timestamp, or nothing
    /// when the device has none; ties resolve to the first row seen.
    pub fn latest_sensor_reading(&self, store: &EntityStore, device_id: i64) -> (r: Option<
        SensorReading,
    >)
        ensures
            match r {
                Some(reading) => exists|i: int|
                    #[trigger] is_latest_reading(store.readings@, device_id, i) && reading
                        == store.readings@[i],
                None => forall|j: int|
                    0 <= j < store.readings@.len() ==> (#[trigger] store.readings@[j]).device_id
                        != device_id,
            },
    {
        store.fetch_latest_reading(device_id)
    }

    /// The setpoint of the device with the maximum timestamp, or nothing
    /// when the device has none; ties resolve to the first row seen.
    pub fn latest_control_setpoint(&self, store: &EntityStore, device_id: i64) -> (r: Option<
        ControlSetpoint,
    >)
        ensures
            match r {
                Some(setpoint) => exists|i: int|
                    #[trigger] is_latest_setpoint(store.setpoints@, device_id, i) && setpoint
                        == store.setpoints@[i],
                None => forall|j: int|
                    0 <= j < store.setpoints@.len() ==> (#[trigger] store.setpoints@[j]).device_id
                        != device_id,
            },
    {
        store.fetch_latest_setpoint(device_id)
    }
}

/// The root of all mutations.
pub struct SiteMutationRoot;

impl SiteMutationRoot {
    /// Create a site. Succeeds exactly when the site table has room.
    pub fn create_site(&self, store: &mut EntityStore, input: SiteInput) -> (r: Result<
        Site,
        MutationError,
    >)
        ensures
            final(store).cap == old(store).cap,
            final(store).rooms == old(store).rooms,
            final(store).devices == old(store).devices,
            final(store).readings == old(store).readings,
            final(store).setpoints == old(store).setpoints,
            old(store).wf() ==> final(store).wf(),
            r is Ok <==> old(store).can_insert_site(),
            match r {
                Ok(site) => {
                    &&& final(store).sites@ == old(store).sites@.push(site)
                    &&& site.id == old(store).sites@.len() + 1
                    &&& site.name == input.name
                    &&& site.address == input.address
                    &&& site.created_at == site.updated_at
                },
                Err(e) => final(store).sites == old(store).sites && e is Storage,
            },
    {
        let now = now_micros();
        match store.insert_site(input.name, input.address, now) {
            Ok(site) => Ok(site),
            Err(e) => Err(MutationError::Storage(e)),
        }
    }

    /// Create a room under an existing site. Fails with an integrity
    /// error naming the site when no site carries the given identifier;
    /// no row is written then.
    pub fn create_room(&self, store: &mut EntityStore, input: RoomInput) -> (r: Result<
        Room,
        MutationError,
    >)
        ensures
            final(store).cap == old(store).cap,
            final(store).sites == old(store).sites,
            final(store).devices == old(store).devices,
            final(store).readings == old(store).readings,
            final(store).setpoints == old(store).setpoints,
            old(store).wf() ==> final(store).wf(),
            r is Ok <==> site_with_id_exists(old(store).sites@, input.site_id) && old(
                store,
            ).can_insert_room(),
            match r {
                Ok(room) => {
                    &&& final(store).rooms@ == old(store).rooms@.push(room)
                    &&& room.id == old(store).rooms@.len() + 1
                    &&& room.site_id == input.site_id
                    &&& room.name == input.name
                    &&& room.created_at == room.updated_at
                },
                Err(e) => {
                    &&& final(store).rooms == old(store).rooms
                    &&& (e is Integrity <==> !site_with_id_exists(
                        old(store).sites@,
                        input.site_id,
                    ))
                    &&& (e matches MutationError::Integrity(ie) ==> ie.kind == ParentKind::Site
                        && ie.id == input.site_id)
                },
            },
    {
        match ensure_exists(store, ParentKind::Site, input.site_id) {
            Err(e) => Err(MutationError::Integrity(e)),
            Ok(_) => {
                let now = now_micros();
                match store.insert_room(input.site_id, input.name, now) {
                    Ok(room) => Ok(room),
                    Err(e) => Err(MutationError::Storage(e)),
                }
            },
        }
    }

    /// Create a device under an existing room. Fails with an integrity
    /// error naming the room when no room carries the given identifier;
    /// no row is written then.
    pub fn create_device(&self, store: &mut EntityStore, input: DeviceInput) -> (r: Result<
        Device,
        MutationError,
    >)
        ensures
            final(store).cap == old(store).cap,
            final(store).sites == old(store).sites,
            final(store).rooms == old(store).rooms,
            final(store).readings == old(store).readings,
            final(store).setpoints == old(store).setpoints,
            old(store).wf() ==> final(store).wf(),
            r is Ok <==> room_with_id_exists(old(store).rooms@, input.room_id) && old(
                store,
            ).can_insert_device(),
            match r {
                Ok(device) => {
                    &&& final(store).devices@ == old(store).devices@.push(device)
                    &&& device.id == old(store).devices@.len() + 1
                    &&& device.room_id == input.room_id
                    &&& device.name == input.name
                    &&& device.device_type == input.device_type
                    &&& device.unique_identifier == input.unique_identifier
                    &&& device.created_at == device.updated_at
                },
                Err(e) => {
                    &&& final(store).devices == old(store).devices
                    &&& (e is Integrity <==> !room_with_id_exists(
                        old(store).rooms@,
                        input.room_id,
                    ))
                    &&& (e matches MutationError::Integrity(ie) ==> ie.kind == ParentKind::Room
                        && ie.id == input.room_id)
                },
            },
    {
        match ensure_exists(store, ParentKind::Room, input.room_id) {
            Err(e) => Err(MutationError::Integrity(e)),
            Ok(_) => {
                let now = now_micros();
                match store.insert_device(
                    input.room_id,
                    input.name,
                    input.device_type,
                    input.unique_identifier,
                    now,
                ) {
                    Ok(device) => Ok(device),
                    Err(e) => Err(MutationError::Storage(e)),
                }
            },
        }
    }

    /// Create a sensor reading. The declared device is deliberately not
    /// validated on this path: a reading is accepted whatever its
    /// `device_id` names, so success depends only on table room.
    pub fn create_sensor_reading(&self, store: &mut EntityStore, input: SensorReadingInput) -> (r:
        Result<SensorReading, MutationError>)
        ensures
            final(store).cap == old(store).cap,
            final(store).sites == old(store).sites,
            final(store).rooms == old(store).rooms,
            final(store).devices == old(store).devices,
            final(store).setpoints == old(store).setpoints,
            old(store).wf() ==> final(store).wf(),
            r is Ok <==> old(store).can_insert_reading(),
            match r {
                Ok(reading) => {
                    &&& final(store).readings@ == old(store).readings@.push(reading)
                    &&& reading.id == old(store).readings@.len() + 1
                    &&& reading.device_id == input.device_id
                    &&& reading.value == input.value
                    &&& reading.unit == input.unit
                    &&& reading.timestamp == reading.created_at
                    &&& reading.updated_at == reading.created_at
                },
                Err(e) => final(store).readings == old(store).readings && e is Storage,
            },
    {
        let now = now_micros();
        match store.insert_sensor_reading(input.device_id, input.value, input.unit, now) {
            Ok(reading) => Ok(reading),
            Err(e) => Err(MutationError::Storage(e)),
        }
    }

    /// Create a control setpoint. As with readings, the declared device is
    /// not validated on this path.
    pub fn create_control_setpoint(
        &self,
        store: &mut EntityStore,
        input: ControlSetpointInput,
    ) -> (r: Result<ControlSetpoint, MutationError>)
        ensures
            final(store).cap == old(store).cap,
            final(store).sites == old(store).sites,
            final(store).rooms == old(store).rooms,
            final(store).devices == old(store).devices,
            final(store).readings == old(store).readings,
            old(store).wf() ==> final(store).wf(),
            r is Ok <==> old(store).can_insert_setpoint(),
            match r {
                Ok(setpoint) => {
                    &&& final(store).setpoints@ == old(store).setpoints@.push(setpoint)
                    &&& setpoint.id == old(store).setpoints@.len() + 1
                    &&& setpoint.device_id == input.device_id
                    &&& setpoint.setpoint_type == input.setpoint_type
                    &&& setpoint.value == input.value
                    &&& setpoint.unit == input.unit
                    &&& setpoint.timestamp == setpoint.created_at
                    &&& setpoint.updated_at == setpoint.created_at
                },
                Err(e) => final(store).setpoints == old(store).setpoints && e is Storage,
            },
    {
        let now = now_micros();
        match store.insert_control_setpoint(
            input.device_id,
            input.setpoint_type,
            input.value,
            input.unit,
            now,
        ) {
            Ok(setpoint) => Ok(setpoint),
            Err(e) => Err(MutationError::Storage(e)),
        }
    }
}

/// Nested resolution never crosses branches: a reading reached through
/// site -> rooms -> devices -> sensor readings carries foreign keys that
/// chain back to the root site, whichever rows the store holds.
pub proof fn lemma_nested_chain(store: EntityStore, site: Site, ri: int, di: int, si: int)
    requires
        0 <= ri < rooms_of(store.rooms@, site.id).len(),
        0 <= di < devices_of(store.devices@, rooms_of(store.rooms@, site.id)[ri].id).len(),
        0 <= si < readings_of(
            store.readings@,
            devices_of(store.devices@, rooms_of(store.rooms@, site.id)[ri].id)[di].id,
        ).len(),
    ensures
        rooms_of(store.rooms@, site.id)[ri].site_id == site.id,
        devices_of(store.devices@, rooms_of(store.rooms@, site.id)[ri].id)[di].room_id == rooms_of(
            store.rooms@,
            site.id,
        )[ri].id,
        readings_of(
            store.readings@,
            devices_of(store.devices@, rooms_of(store.rooms@, site.id)[ri].id)[di].id,
        )[si].device_id == devices_of(
            store.devices@,
            rooms_of(store.rooms@, site.id)[ri].id,
        )[di].id,
{
    store.rooms@.lemma_filter_pred(|r: Room| r.site_id == site.id, ri);
    let room = rooms_of(store.rooms@, site.id)[ri];
    store.devices@.lemma_filter_pred(|d: Device| d.room_id == room.id, di);
    let device = devices_of(store.devices@, room.id)[di];
    store.readings@.lemma_filter_pred(|r: SensorReading| r.device_id == device.id, si);
}

} // verus!
