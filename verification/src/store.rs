//! The entity store: typed create/fetch operations against an in-memory
//! relational image of the schema.
//!
//! Each table is a vector of rows in insertion order. Identifiers are
//! assigned by the store, starting at 1 and increasing by 1 per table, so a
//! well-formed table holds row `i` under identifier `i + 1`. The store is
//! bounded: a table that has reached the store's capacity refuses further
//! rows with a `StorageError`, the one storage failure this backing can
//! exhibit. Rows are never updated or deleted; a caller-visible rollback to
//! a previously taken mark is the transaction scope used by the seed
//! routine.

use vstd::prelude::*;

use crate::models::{ControlSetpoint, Device, Room, SensorReading, SensorUnit, Site};
use crate::models::{DeviceType, SetpointType, SetpointUnit};

verus! {

/// A failure at the store boundary: the affected table cannot take
/// another row.
#[derive(Clone, Copy, Debug, PartialEq, Eq, Structural)]
pub struct StorageError;

/// The rows of `rooms` that belong to the site with the given identifier,
/// in storage order.
pub open spec fn rooms_of(rooms: Seq<Room>, site_id: i64) -> Seq<Room> {
    rooms.filter(|r: Room| r.site_id == site_id)
}

/// The rows of `devices` that belong to the room with the given identifier,
/// in storage order.
pub open spec fn devices_of(devices: Seq<Device>, room_id: i64) -> Seq<Device> {
    devices.filter(|d: Device| d.room_id == room_id)
}

/// The rows of `readings` that belong to the device with the given
/// identifier, in storage order.
pub open spec fn readings_of(readings: Seq<SensorReading>, device_id: i64) -> Seq<
    SensorReading,
> {
    readings.filter(|r: SensorReading| r.device_id == device_id)
}

/// The rows of `setpoints` that belong to the device with the given
/// identifier, in storage order.
pub open spec fn setpoints_of(setpoints: Seq<ControlSetpoint>, device_id: i64) -> Seq<
    ControlSetpoint,
> {
    setpoints.filter(|s: ControlSetpoint| s.device_id == device_id)
}

/// Whether some site row carries the given identifier.
pub open spec fn site_with_id_exists(sites: Seq<Site>, id: i64) -> bool {
    exists|i: int| 0 <= i < sites.len() && sites[i].id == id
}

/// Whether some room row carries the given identifier.
pub open spec fn room_with_id_exists(rooms: Seq<Room>, id: i64) -> bool {
    exists|i: int| 0 <= i < rooms.len() && rooms[i].id == id
}

/// Row `i` is the first site row carrying the given identifier.
pub open spec fn first_site_with_id(sites: Seq<Site>, id: i64, i: int) -> bool {
    &&& 0 <= i < sites.len()
    &&& sites[i].id == id
    &&& forall|j: int| 0 <= j < i ==> sites[j].id != id
}

/// Row `i` is the first room row carrying the given identifier.
pub open spec fn first_room_with_id(rooms: Seq<Room>, id: i64, i: int) -> bool {
    &&& 0 <= i < rooms.len()
    &&& rooms[i].id == id
    &&& forall|j: int| 0 <= j < i ==> rooms[j].id != id
}

/// Row `i` holds the latest reading of the device: it belongs to the
/// device, no row of the device bears a later timestamp, and every earlier
/// row of the device bears a strictly earlier one, so ties resolve to the
/// first row seen. At most one row of a sequence satisfies this.
pub open spec fn is_latest_reading(s: Seq<SensorReading>, device_id: i64, i: int) -> bool {
    &&& 0 <= i < s.len()
    &&& s[i].device_id == device_id
    &&& forall|j: int|
        0 <= j < s.len() && (#[trigger] s[j]).device_id == device_id ==> s[j].timestamp
            <= s[i].timestamp
    &&& forall|j: int|
        0 <= j < i && (#[trigger] s[j]).device_id == device_id ==> s[j].timestamp
            < s[i].timestamp
}

/// Row `i` holds the latest setpoint of the device, with the same
/// first-seen tie-break as for readings.
pub open spec fn is_latest_setpoint(s: Seq<ControlSetpoint>, device_id: i64, i: int) -> bool {
    &&& 0 <= i < s.len()
    &&& s[i].device_id == device_id
    &&& forall|j: int|
        0 <= j < s.len() && (#[trigger] s[j]).device_id == device_id ==> s[j].timestamp
            <= s[i].timestamp
    &&& forall|j: int|
        0 <= j < i && (#[trigger] s[j]).device_id == device_id ==> s[j].timestamp
            < s[i].timestamp
}

/// The latest row of a device is determined: two rows that both satisfy
/// `is_latest_reading` are the same row. "Latest" queries therefore return
/// one well-defined row even among equal timestamps.
pub proof fn lemma_latest_reading_unique(s: Seq<SensorReading>, device_id: i64, i: int, j: int)
    requires
        is_latest_reading(s, device_id, i),
        is_latest_reading(s, device_id, j),
    ensures
        i == j,
{
}

/// The latest setpoint of a device is determined in the same way.
pub proof fn lemma_latest_setpoint_unique(s: Seq<ControlSetpoint>, device_id: i64, i: int, j: int)
    requires
        is_latest_setpoint(s, device_id, i),
        is_latest_setpoint(s, device_id, j),
    ensures
        i == j,
{
}

/// Filtering a sequence extended by one element keeps the filtered prefix
/// and appends the element exactly when it satisfies the predicate.
proof fn lemma_filter_push<A>(s: Seq<A>, pred: spec_fn(A) -> bool, x: A)
    ensures
        s.push(x).filter(pred) == if pred(x) {
            s.filter(pred).push(x)
        } else {
            s.filter(pred)
        },
{
    reveal(Seq::filter);
    assert(s.push(x).drop_last() =~= s);
}

/// The in-memory store: one vector per table, plus the per-table row
/// capacity.
pub struct EntityStore {
    pub sites: Vec<Site>,
    pub rooms: Vec<Room>,
    pub devices: Vec<Device>,
    pub readings: Vec<SensorReading>,
    pub setpoints: Vec<ControlSetpoint>,
    pub cap: u32,
}

/// A point in the store's history: the row count of each table when the
/// mark was taken. Rolling back to a mark discards every row inserted
/// after it.
#[derive(Clone, Copy, Debug, PartialEq, Eq, Structural)]
pub struct StoreMark {
    pub sites: usize,
    pub rooms: usize,
    pub devices: usize,
    pub readings: usize,
    pub setpoints: usize,
}

impl EntityStore {
    /// Every table assigns row `i` the identifier `i + 1`: identifiers are
    /// server-assigned and monotonically increasing per table.
    pub open spec fn wf(&self) -> bool {
        &&& forall|i: int| 0 <= i < self.sites@.len() ==> (#[trigger] self.sites@[i]).id == i + 1
        &&& forall|i: int| 0 <= i < self.rooms@.len() ==> (#[trigger] self.rooms@[i]).id == i + 1
        &&& forall|i: int|
            0 <= i < self.devices@.len() ==> (#[trigger] self.devices@[i]).id == i + 1
        &&& forall|i: int|
            0 <= i < self.readings@.len() ==> (#[trigger] self.readings@[i]).id == i + 1
        &&& forall|i: int|
            0 <= i < self.setpoints@.len() ==> (#[trigger] self.setpoints@[i]).id == i + 1
    }

    pub open spec fn can_insert_site(&self) -> bool {
        self.sites@.len() < self.cap as nat
    }

    pub open spec fn can_insert_room(&self) -> bool {
        self.rooms@.len() < self.cap as nat
    }

    pub open spec fn can_insert_device(&self) -> bool {
        self.devices@.len() < self.cap as nat
    }

    pub open spec fn can_insert_reading(&self) -> bool {
        self.readings@.len() < self.cap as nat
    }

    pub open spec fn can_insert_setpoint(&self) -> bool {
        self.setpoints@.len() < self.cap as nat
    }

    /// An empty store that will hold at most `cap` rows per table.
    pub fn new(cap: u32) -> (r: EntityStore)
        ensures
            r.wf(),
            r.sites@.len() == 0,
            r.rooms@.len() == 0,
            r.devices@.len() == 0,
            r.readings@.len() == 0,
            r.setpoints@.len() == 0,
            r.cap == cap,
    {
        EntityStore {
            sites: Vec::new(),
            rooms: Vec::new(),
            devices: Vec::new(),
            readings: Vec::new(),
            setpoints: Vec::new(),
            cap,
        }
    }

    /// The row count of each table right now.
    pub fn mark(&self) -> (m: StoreMark)
        ensures
            m.sites == self.sites@.len(),
            m.rooms == self.rooms@.len(),
            m.devices == self.devices@.len(),
            m.readings == self.readings@.len(),
            m.setpoints == self.setpoints@.len(),
    {
        StoreMark {
            sites: self.sites.len(),
            rooms: self.rooms.len(),
            devices: self.devices.len(),
            readings: self.readings.len(),
            setpoints: self.setpoints.len(),
        }
    }

    /// Discard every row inserted after the mark was taken, leaving each
    /// table at exactly the prefix it held then.
    pub fn rollback(&mut self, m: StoreMark)
        requires
            m.sites <= old(self).sites@.len(),
            m.rooms <= old(self).rooms@.len(),
            m.devices <= old(self).devices@.len(),
            m.readings <= old(self).readings@.len(),
            m.setpoints <= old(self).setpoints@.len(),
        ensures
            final(self).sites@ == old(self).sites@.subrange(0, m.sites as int),
            final(self).rooms@ == old(self).rooms@.subrange(0, m.rooms as int),
            final(self).devices@ == old(self).devices@.subrange(0, m.devices as int),
            final(self).readings@ == old(self).readings@.subrange(0, m.readings as int),
            final(self).setpoints@ == old(self).setpoints@.subrange(0, m.setpoints as int),
            final(self).cap == old(self).cap,
            old(self).wf() ==> final(self).wf(),
    {
        self.sites.truncate(m.sites);
        self.rooms.truncate(m.rooms);
        self.devices.truncate(m.devices);
        self.readings.truncate(m.readings);
        self.setpoints.truncate(m.setpoints);
    }

    /// Insert a site row; the store assigns the identifier and stamps both
    /// timestamps with `now`.
    pub fn insert_site(&mut self, name: String, address: Option<String>, now: i64) -> (r: Result<
        Site,
        StorageError,
    >)
        ensures
            final(self).cap == old(self).cap,
            final(self).rooms == old(self).rooms,
            final(self).devices == old(self).devices,
            final(self).readings == old(self).readings,
            final(self).setpoints == old(self).setpoints,
            r is Ok <==> old(self).can_insert_site(),
            old(self).wf() ==> final(self).wf(),
            match r {
                Ok(site) => {
                    &&& final(self).sites@ == old(self).sites@.push(site)
                    &&& site.id == old(self).sites@.len() + 1
                    &&& site.name == name
                    &&& site.address == address
                    &&& site.created_at == now
                    &&& site.updated_at == now
                },
                Err(_) => final(self).sites == old(self).sites,
            },
    {
        let n = self.sites.len();
        if n >= self.cap as usize {
            return Err(StorageError);
        }
        let id = (n + 1) as i64;
        let site = Site { id, name, address, created_at: now, updated_at: now };
        let ret = site.dup();
        self.sites.push(site);
        Ok(ret)
    }

    /// Insert a room row; the declared parent site is not checked here but
    /// by the integrity validation that mutations run first.
    pub fn insert_room(&mut self, site_id: i64, name: String, now: i64) -> (r: Result<
        Room,
        StorageError,
    >)
        ensures
            final(self).cap == old(self).cap,
            final(self).sites == old(self).sites,
            final(self).devices == old(self).devices,
            final(self).readings == old(self).readings,
            final(self).setpoints == old(self).setpoints,
            r is Ok <==> old(self).can_insert_room(),
            old(self).wf() ==> final(self).wf(),
            match r {
                Ok(room) => {
                    &&& final(self).rooms@ == old(self).rooms@.push(room)
                    &&& room.id == old(self).rooms@.len() + 1
                    &&& room.site_id == site_id
                    &&& room.name == name
                    &&& room.created_at == now
                    &&& room.updated_at == now
                },
                Err(_) => final(self).rooms == old(self).rooms,
            },
    {
        let n = self.rooms.len();
        if n >= self.cap as usize {
            return Err(StorageError);
        }
        let id = (n + 1) as i64;
        let room = Room { id, site_id, name, created_at: now, updated_at: now };
        let ret = room.dup();
        self.rooms.push(room);
        Ok(ret)
    }

    /// Insert a device row; the declared parent room is not checked here but
    /// by the integrity validation that mutations run first.
    pub fn insert_device(
        &mut self,
        room_id: i64,
        name: String,
        device_type: DeviceType,
        unique_identifier: Option<String>,
        now: i64,
    ) -> (r: Result<Device, StorageError>)
        ensures
            final(self).cap == old(self).cap,
            final(self).sites == old(self).sites,
            final(self).rooms == old(self).rooms,
            final(self).readings == old(self).readings,
            final(self).setpoints == old(self).setpoints,
            r is Ok <==> old(self).can_insert_device(),
            old(self).wf() ==> final(self).wf(),
            match r {
                Ok(device) => {
                    &&& final(self).devices@ == old(self).devices@.push(device)
                    &&& device.id == old(self).devices@.len() + 1
                    &&& device.room_id == room_id
                    &&& device.name == name
                    &&& device.device_type == device_type
                    &&& device.unique_identifier == unique_identifier
                    &&& device.created_at == now
                    &&& device.updated_at == now
                },
                Err(_) => final(self).devices == old(self).devices,
            },
    {
        let n = self.devices.len();
        if n >= self.cap as usize {
            return Err(StorageError);
        }
        let id = (n + 1) as i64;
        let device = Device {
            id,
            room_id,
            name,
            device_type,
            unique_identifier,
            created_at: now,
            updated_at: now,
        };
        let ret = device.dup();
        self.devices.push(device);
        Ok(ret)
    }

    /// Insert a sensor reading row. The declared device is not checked
    /// anywhere on this path: a reading is accepted whatever its
    /// `device_id` names.
    pub fn insert_sensor_reading(
        &mut self,
        device_id: i64,
        value: String,
        unit: Option<SensorUnit>,
        now: i64,
    ) -> (r: Result<SensorReading, StorageError>)
        ensures
            final(self).cap == old(self).cap,
            final(self).sites == old(self).sites,
            final(self).rooms == old(self).rooms,
            final(self).devices == old(self).devices,
            final(self).setpoints == old(self).setpoints,
            r is Ok <==> old(self).can_insert_reading(),
            old(self).wf() ==> final(self).wf(),
            match r {
                Ok(reading) => {
                    &&& final(self).readings@ == old(self).readings@.push(reading)
                    &&& reading.id == old(self).readings@.len() + 1
                    &&& reading.device_id == device_id
                    &&& reading.value == value
                    &&& reading.unit == unit
                    &&& reading.timestamp == now
                    &&& reading.created_at == now
                    &&& reading.updated_at == now
                },
                Err(_) => final(self).readings == old(self).readings,
            },
    {
        let n = self.readings.len();
        if n >= self.cap as usize {
            return Err(StorageError);
        }
        let id = (n + 1) as i64;
        let reading = SensorReading {
            id,
            device_id,
            value,
            unit,
            timestamp: now,
            created_at: now,
            updated_at: now,
        };
        let ret = reading.dup();
        self.readings.push(reading);
        Ok(ret)
    }

    /// Insert a control setpoint row. As with readings, the declared device
    /// is not checked anywhere on this path.
    pub fn insert_control_setpoint(
        &mut self,
        device_id: i64,
        setpoint_type: SetpointType,
        value: String,
        unit: Option<SetpointUnit>,
        now: i64,
    ) -> (r: Result<ControlSetpoint, StorageError>)
        ensures
            final(self).cap == old(self).cap,
            final(self).sites == old(self).sites,
            final(self).rooms == old(self).rooms,
            final(self).devices == old(self).devices,
            final(self).readings == old(self).readings,
            r is Ok <==> old(self).can_insert_setpoint(),
            old(self).wf() ==> final(self).wf(),
            match r {
                Ok(setpoint) => {
                    &&& final(self).setpoints@ == old(self).setpoints@.push(setpoint)
                    &&& setpoint.id == old(self).setpoints@.len() + 1
                    &&& setpoint.device_id == device_id
                    &&& setpoint.setpoint_type == setpoint_type
                    &&& setpoint.value == value
                    &&& setpoint.unit == unit
                    &&& setpoint.timestamp == now
                    &&& setpoint.created_at == now
                    &&& setpoint.updated_at == now
                },
                Err(_) => final(self).setpoints == old(self).setpoints,
            },
    {
        let n = self.setpoints.len();
        if n >= self.cap as usize {
            return Err(StorageError);
        }
        let id = (n + 1) as i64;
        let setpoint = ControlSetpoint {
            id,
            device_id,
            setpoint_type,
            value,
            unit,
            timestamp: now,
            created_at: now,
            updated_at: now,
        };
        let ret = setpoint.dup();
        self.setpoints.push(setpoint);
        Ok(ret)
    }

    /// All site rows, in storage order.
    pub fn fetch_all_sites(&self) -> (r: Vec<Site>)
        ensures
            r@ == self.sites@,
    {
        let mut out: Vec<Site> = Vec::new();
        let mut i: usize = 0;
        while i < self.sites.len()
            invariant
                i <= self.sites@.len(),
                out@ == self.sites@.subrange(0, i as int),
            decreases self.sites@.len() - i,
        {
            out.push(self.sites[i].dup());
            i += 1;
            proof {
                assert(self.sites@.subrange(0, i as int) =~= self.sites@.subrange(
                    0,
                    i - 1,
                ).push(self.sites@[i - 1]));
            }
        }
        proof {
            assert(self.sites@.subrange(0, self.sites@.len() as int) =~= self.sites@);
        }
        out
    }

    /// The single site row with the given identifier, or nothing. Among
    /// duplicate identifiers (which a well-formed store never holds) the
    /// first row wins.
    pub fn fetch_site_by_id(&self, id: i64) -> (r: Option<Site>)
        ensures
            match r {
                Some(site) => exists|i: int|
                    #[trigger] first_site_with_id(self.sites@, id, i) && site == self.sites@[i],
                None => !site_with_id_exists(self.sites@, id),
            },
    {
        let mut i: usize = 0;
        while i < self.sites.len()
            invariant
                i <= self.sites@.len(),
                forall|j: int| 0 <= j < i ==> (#[trigger] self.sites@[j]).id != id,
            decreases self.sites@.len() - i,
        {
            if self.sites[i].id == id {
                let site = self.sites[i].dup();
                proof {
                    assert(first_site_with_id(self.sites@, id, i as int));
                }
                return Some(site);
            }
            i += 1;
        }
        None
    }

    /// The single room row with the given identifier, or nothing.
    pub fn fetch_room_by_id(&self, id: i64) -> (r: Option<Room>)
        ensures
            match r {
                Some(room) => exists|i: int|
                    #[trigger] first_room_with_id(self.rooms@, id, i) && room == self.rooms@[i],
                None => !room_with_id_exists(self.rooms@, id),
            },
    {
        let mut i: usize = 0;
        while i < self.rooms.len()
            invariant
                i <= self.rooms@.len(),
                forall|j: int| 0 <= j < i ==> (#[trigger] self.rooms@[j]).id != id,
            decreases self.rooms@.len() - i,
        {
            if self.rooms[i].id == id {
                let room = self.rooms[i].dup();
                proof {
                    assert(first_room_with_id(self.rooms@, id, i as int));
                }
                return Some(room);
            }
            i += 1;
        }
        None
    }

    /// All room rows whose foreign key names the given site, in storage
    /// order.
    pub fn fetch_rooms_by_site(&self, site_id: i64) -> (r: Vec<Room>)
        ensures
            r@ == rooms_of(self.rooms@, site_id),
    {
        let mut out: Vec<Room> = Vec::new();
        let mut i: usize = 0;
        while i < self.rooms.len()
            invariant
                i <= self.rooms@.len(),
                out@ == rooms_of(self.rooms@.subrange(0, i as int), site_id),
            decreases self.rooms@.len() - i,
        {
            let row = &self.rooms[i];
            if row.site_id == site_id {
                out.push(row.dup());
            }
            i += 1;
            proof {
                let pred = |r: Room| r.site_id == site_id;
                assert(self.rooms@.subrange(0, i as int) =~= self.rooms@.subrange(
                    0,
                    i - 1,
                ).push(self.rooms@[i - 1]));
                lemma_filter_push(self.rooms@.subrange(0, i - 1), pred, self.rooms@[i - 1]);
            }
        }
        proof {
            assert(self.rooms@.subrange(0, self.rooms@.len() as int) =~= self.rooms@);
        }
        out
    }

    /// All device rows whose foreign key names the given room, in storage
    /// order.
    pub fn fetch_devices_by_room(&self, room_id: i64) -> (r: Vec<Device>)
        ensures
            r@ == devices_of(self.devices@, room_id),
    {
        let mut out: Vec<Device> = Vec::new();
        let mut i: usize = 0;
        while i < self.devices.len()
            invariant
                i <= self.devices@.len(),
                out@ == devices_of(self.devices@.subrange(0, i as int), room_id),
            decreases self.devices@.len() - i,
        {
            let row = &self.devices[i];
            if row.room_id == room_id {
                out.push(row.dup());
            }
            i += 1;
            proof {
                let pred = |d: Device| d.room_id == room_id;
                assert(self.devices@.subrange(0, i as int) =~= self.devices@.subrange(
                    0,
                    i - 1,
                ).push(self.devices@[i - 1]));
                lemma_filter_push(self.devices@.subrange(0, i - 1), pred, self.devices@[i - 1]);
            }
        }
        proof {
            assert(self.devices@.subrange(0, self.devices@.len() as int) =~= self.devices@);
        }
        out
    }

    /// All sensor reading rows whose foreign key names the given device, in
    /// storage order.
    pub fn fetch_readings_by_device(&self, device_id: i64) -> (r: Vec<SensorReading>)
        ensures
            r@ == readings_of(self.readings@, device_id),
    {
        let mut out: Vec<SensorReading> = Vec::new();
        let mut i: usize = 0;
        while i < self.readings.len()
            invariant
                i <= self.readings@.len(),
                out@ == readings_of(self.readings@.subrange(0, i as int), device_id),
            decreases self.readings@.len() - i,
        {
            let row = &self.readings[i];
            if row.device_id == device_id {
                out.push(row.dup());
            }
            i += 1;
            proof {
                let pred = |r: SensorReading| r.device_id == device_id;
                assert(self.readings@.subrange(0, i as int) =~= self.readings@.subrange(
                    0,
                    i - 1,
                ).push(self.readings@[i - 1]));
                lemma_filter_push(self.readings@.subrange(0, i - 1), pred, self.readings@[i - 1]);
            }
        }
        proof {
            assert(self.readings@.subrange(0, self.readings@.len() as int) =~= self.readings@);
        }
        out
    }

    /// All control setpoint rows whose foreign key names the given device,
    /// in storage order.
    pub fn fetch_setpoints_by_device(&self, device_id: i64) -> (r: Vec<ControlSetpoint>)
        ensures
            r@ == setpoints_of(self.setpoints@, device_id),
    {
        let mut out: Vec<ControlSetpoint> = Vec::new();
        let mut i: usize = 0;
        while i < self.setpoints.len()
            invariant
                i <= self.setpoints@.len(),
                out@ == setpoints_of(self.setpoints@.subrange(0, i as int), device_id),
            decreases self.setpoints@.len() - i,
        {
            let row = &self.setpoints[i];
            if row.device_id == device_id {
                out.push(row.dup());
            }
            i += 1;
            proof {
                let pred = |s: ControlSetpoint| s.device_id == device_id;
                assert(self.setpoints@.subrange(0, i as int) =~= self.setpoints@.subrange(
                    0,
                    i - 1,
                ).push(self.setpoints@[i - 1]));
                lemma_filter_push(self.setpoints@.subrange(0, i - 1), pred, self.setpoints@[i - 1]);
            }
        }
        proof {
            assert(self.setpoints@.subrange(0, self.setpoints@.len() as int) =~= self.setpoints@);
        }
        out
    }

    /// The single reading row of the device with the maximum timestamp, or
    /// nothing when the device has no readings. Ties resolve to the first
    /// row in storage order.
    pub fn fetch_latest_reading(&self, device_id: i64) -> (r: Option<SensorReading>)
        ensures
            match r {
                Some(reading) => exists|i: int|
                    #[trigger] is_latest_reading(self.readings@, device_id, i) && reading
                        == self.readings@[i],
                None => forall|j: int|
                    0 <= j < self.readings@.len() ==> (#[trigger] self.readings@[j]).device_id
                        != device_id,
            },
    {
        let mut best: Option<usize> = None;
        let mut i: usize = 0;
        while i < self.readings.len()
            invariant
                i <= self.readings@.len(),
                match best {
                    Some(b) => {
                        &&& b < i
                        &&& self.readings@[b as int].device_id == device_id
                        &&& forall|j: int|
                            0 <= j < i && (#[trigger] self.readings@[j]).device_id == device_id
                                ==> self.readings@[j].timestamp
                                <= self.readings@[b as int].timestamp
                        &&& forall|j: int|
                            0 <= j < b && (#[trigger] self.readings@[j]).device_id == device_id
                                ==> self.readings@[j].timestamp
                                < self.readings@[b as int].timestamp
                    },
                    None => forall|j: int|
                        0 <= j < i ==> (#[trigger] self.readings@[j]).device_id != device_id,
                },
            decreases self.readings@.len() - i,
        {
            if self.readings[i].device_id == device_id {
                let better = match best {
                    None => true,
                    Some(b) => self.readings[b].timestamp < self.readings[i].timestamp,
                };
                if better {
                    best = Some(i);
                }
            }
            i += 1;
        }
        match best {
            Some(b) => {
                proof {
                    assert(is_latest_reading(self.readings@, device_id, b as int));
                }
                Some(self.readings[b].dup())
            },
            None => None,
        }
    }

    /// The single setpoint row of the device with the maximum timestamp, or
    /// nothing when the device has no setpoints. Ties resolve to the first
    /// row in storage order.
    pub fn fetch_latest_setpoint(&self, device_id: i64) -> (r: Option<ControlSetpoint>)
        ensures
            match r {
                Some(setpoint) => exists|i: int|
                    #[trigger] is_latest_setpoint(self.setpoints@, device_id, i) && setpoint
                        == self.setpoints@[i],
                None => forall|j: int|
                    0 <= j < self.setpoints@.len() ==> (#[trigger] self.setpoints@[j]).device_id
                        != device_id,
            },
    {
        let mut best: Option<usize> = None;
        let mut i: usize = 0;
        while i < self.setpoints.len()
            invariant
                i <= self.setpoints@.len(),
                match best {
                    Some(b) => {
                        &&& b < i
                        &&& self.setpoints@[b as int].device_id == device_id
                        &&& forall|j: int|
                            0 <= j < i && (#[trigger] self.setpoints@[j]).device_id == device_id
                                ==> self.setpoints@[j].timestamp
                                <= self.setpoints@[b as int].timestamp
                        &&& forall|j: int|
                            0 <= j < b && (#[trigger] self.setpoints@[j]).device_id == device_id
                                ==> self.setpoints@[j].timestamp
                                < self.setpoints@[b as int].timestamp
                    },
                    None => forall|j: int|
                        0 <= j < i ==> (#[trigger] self.setpoints@[j]).device_id != device_id,
                },
            decreases self.setpoints@.len() - i,
        {
            if self.setpoints[i].device_id == device_id {
                let better = match best {
                    None => true,
                    Some(b) => self.setpoints[b].timestamp < self.setpoints[i].timestamp,
                };
                if better {
                    best = Some(i);
                }
            }
            i += 1;
        }
        match best {
            Some(b) => {
                proof {
                    assert(is_latest_setpoint(self.setpoints@, device_id, b as int));
                }
                Some(self.setpoints[b].dup())
            },
            None => None,
        }
    }

    /// How many site rows carry the given identifier: the count-based
    /// existence check behind integrity validation.
    pub fn count_sites_with_id(&self, id: i64) -> (n: usize)
        ensures
            n > 0 <==> site_with_id_exists(self.sites@, id),
            n <= self.sites@.len(),
    {
        let mut n: usize = 0;
        let mut i: usize = 0;
        while i < self.sites.len()
            invariant
                i <= self.sites@.len(),
                n <= i,
                n > 0 <==> exists|j: int| 0 <= j < i && (#[trigger] self.sites@[j]).id == id,
            decreases self.sites@.len() - i,
        {
            if self.sites[i].id == id {
                n += 1;
            }
            i += 1;
        }
        n
    }

    /// How many room rows carry the given identifier.
    pub fn count_rooms_with_id(&self, id: i64) -> (n: usize)
        ensures
            n > 0 <==> room_with_id_exists(self.rooms@, id),
            n <= self.rooms@.len(),
    {
        let mut n: usize = 0;
        let mut i: usize = 0;
        while i < self.rooms.len()
            invariant
                i <= self.rooms@.len(),
                n <= i,
                n > 0 <==> exists|j: int| 0 <= j < i && (#[trigger] self.rooms@[j]).id == id,
            decreases self.rooms@.len() - i,
        {
            if self.rooms[i].id == id {
                n += 1;
            }
            i += 1;
        }
        n
    }
}

} // verus!
