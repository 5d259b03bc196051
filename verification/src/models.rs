//! The entity types of the containment hierarchy and their creation inputs.
//!
//! All identifiers are opaque 64-bit integers assigned by the store,
//! monotonically increasing per table. Timestamps are held as microseconds
//! since the Unix epoch. Decimal measurements are stored as text so that the
//! caller's original formatting is preserved.

use vstd::prelude::*;

use crate::store::{devices_of, readings_of, rooms_of, setpoints_of, EntityStore};
use crate::text::str_eq;

verus! {

/// The kind of a device in a room.
#[derive(Clone, Copy, Debug, PartialEq, Eq, Structural)]
pub enum DeviceType {
    TemperatureSensor,
    ThermostatController,
}

/// The unit a sensor reading is expressed in.
#[derive(Clone, Copy, Debug, PartialEq, Eq, Structural)]
pub enum SensorUnit {
    Celsius,
    Fahrenheit,
}

/// The quantity a control setpoint targets.
#[derive(Clone, Copy, Debug, PartialEq, Eq, Structural)]
pub enum SetpointType {
    Temperature,
}

/// The unit a control setpoint is expressed in.
#[derive(Clone, Copy, Debug, PartialEq, Eq, Structural)]
pub enum SetpointUnit {
    Celsius,
    Fahrenheit,
}

/// The textual variant name under which a device type is stored.
pub open spec fn device_type_name(t: DeviceType) -> Seq<char> {
    match t {
        DeviceType::TemperatureSensor => "TemperatureSensor"@,
        DeviceType::ThermostatController => "ThermostatController"@,
    }
}

/// The device type a stored textual name denotes; unknown text denotes
/// none.
pub open spec fn device_type_from_name(s: Seq<char>) -> Option<DeviceType> {
    if s == "TemperatureSensor"@ {
        Some(DeviceType::TemperatureSensor)
    } else if s == "ThermostatController"@ {
        Some(DeviceType::ThermostatController)
    } else {
        None
    }
}

/// The textual variant name under which a sensor unit is stored.
pub open spec fn sensor_unit_name(u: SensorUnit) -> Seq<char> {
    match u {
        SensorUnit::Celsius => "Celsius"@,
        SensorUnit::Fahrenheit => "Fahrenheit"@,
    }
}

/// The sensor unit a stored textual name denotes.
pub open spec fn sensor_unit_from_name(s: Seq<char>) -> Option<SensorUnit> {
    if s == "Celsius"@ {
        Some(SensorUnit::Celsius)
    } else if s == "Fahrenheit"@ {
        Some(SensorUnit::Fahrenheit)
    } else {
        None
    }
}

/// The textual variant name under which a setpoint type is stored.
pub open spec fn setpoint_type_name(t: SetpointType) -> Seq<char> {
    match t {
        SetpointType::Temperature => "Temperature"@,
    }
}

/// The setpoint type a stored textual name denotes.
pub open spec fn setpoint_type_from_name(s: Seq<char>) -> Option<SetpointType> {
    if s == "Temperature"@ {
        Some(SetpointType::Temperature)
    } else {
        None
    }
}

/// The textual variant name under which a setpoint unit is stored.
pub open spec fn setpoint_unit_name(u: SetpointUnit) -> Seq<char> {
    match u {
        SetpointUnit::Celsius => "Celsius"@,
        SetpointUnit::Fahrenheit => "Fahrenheit"@,
    }
}

/// The setpoint unit a stored textual name denotes.
pub open spec fn setpoint_unit_from_name(s: Seq<char>) -> Option<SetpointUnit> {
    if s == "Celsius"@ {
        Some(SetpointUnit::Celsius)
    } else if s == "Fahrenheit"@ {
        Some(SetpointUnit::Fahrenheit)
    } else {
        None
    }
}

impl DeviceType {
    /// The textual form the store keeps for this value.
    pub fn stored_name(&self) -> (r: String)
        ensures
            r@ == device_type_name(*self),
    {
        match self {
            DeviceType::TemperatureSensor => String::from_str("TemperatureSensor"),
            DeviceType::ThermostatController => String::from_str("ThermostatController"),
        }
    }

    /// Read a stored textual form back; unknown text is rejected rather
    /// than defaulted.
    pub fn from_stored_name(s: &str) -> (r: Option<DeviceType>)
        ensures
            r == device_type_from_name(s@),
    {
        if str_eq(s, "TemperatureSensor") {
            Some(DeviceType::TemperatureSensor)
        } else if str_eq(s, "ThermostatController") {
            Some(DeviceType::ThermostatController)
        } else {
            None
        }
    }
}

impl SensorUnit {
    /// The textual form the store keeps for this value.
    pub fn stored_name(&self) -> (r: String)
        ensures
            r@ == sensor_unit_name(*self),
    {
        match self {
            SensorUnit::Celsius => String::from_str("Celsius"),
            SensorUnit::Fahrenheit => String::from_str("Fahrenheit"),
        }
    }

    /// Read a stored textual form back; unknown text is rejected rather
    /// than defaulted.
    pub fn from_stored_name(s: &str) -> (r: Option<SensorUnit>)
        ensures
            r == sensor_unit_from_name(s@),
    {
        if str_eq(s, "Celsius") {
            Some(SensorUnit::Celsius)
        } else if str_eq(s, "Fahrenheit") {
            Some(SensorUnit::Fahrenheit)
        } else {
            None
        }
    }
}

impl SetpointType {
    /// The textual form the store keeps for this value.
    pub fn stored_name(&self) -> (r: String)
        ensures
            r@ == setpoint_type_name(*self),
    {
        match self {
            SetpointType::Temperature => String::from_str("Temperature"),
        }
    }

    /// Read a stored textual form back; unknown text is rejected rather
    /// than defaulted.
    pub fn from_stored_name(s: &str) -> (r: Option<SetpointType>)
        ensures
            r == setpoint_type_from_name(s@),
    {
        if str_eq(s, "Temperature") {
            Some(SetpointType::Temperature)
        } else {
            None
        }
    }
}

impl SetpointUnit {
    /// The textual form the store keeps for this value.
    pub fn stored_name(&self) -> (r: String)
        ensures
            r@ == setpoint_unit_name(*self),
    {
        match self {
            SetpointUnit::Celsius => String::from_str("Celsius"),
            SetpointUnit::Fahrenheit => String::from_str("Fahrenheit"),
        }
    }

    /// Read a stored textual form back; unknown text is rejected rather
    /// than defaulted.
    pub fn from_stored_name(s: &str) -> (r: Option<SetpointUnit>)
        ensures
            r == setpoint_unit_from_name(s@),
    {
        if str_eq(s, "Celsius") {
            Some(SetpointUnit::Celsius)
        } else if str_eq(s, "Fahrenheit") {
            Some(SetpointUnit::Fahrenheit)
        } else {
            None
        }
    }
}

/// Every stored textual form reads back to the value it was written
/// from: the variant names are pairwise distinct, so the round trip is
/// the identity.
pub proof fn lemma_device_type_round_trip(t: DeviceType)
    ensures
        device_type_from_name(device_type_name(t)) == Some(t),
{
    reveal_strlit("TemperatureSensor");
    reveal_strlit("ThermostatController");
    assert("TemperatureSensor"@.len() != "ThermostatController"@.len());
}

/// The sensor unit round trip is the identity.
pub proof fn lemma_sensor_unit_round_trip(u: SensorUnit)
    ensures
        sensor_unit_from_name(sensor_unit_name(u)) == Some(u),
{
    reveal_strlit("Celsius");
    reveal_strlit("Fahrenheit");
    assert("Celsius"@.len() != "Fahrenheit"@.len());
}

/// The setpoint type round trip is the identity.
pub proof fn lemma_setpoint_type_round_trip(t: SetpointType)
    ensures
        setpoint_type_from_name(setpoint_type_name(t)) == Some(t),
{
}

/// The setpoint unit round trip is the identity.
pub proof fn lemma_setpoint_unit_round_trip(u: SetpointUnit)
    ensures
        setpoint_unit_from_name(setpoint_unit_name(u)) == Some(u),
{
    reveal_strlit("Celsius");
    reveal_strlit("Fahrenheit");
    assert("Celsius"@.len() != "Fahrenheit"@.len());
}

/// A facility; the root of the containment hierarchy.
#[derive(Debug)]
pub struct Site {
    pub id: i64,
    pub name: String,
    pub address: Option<String>,
    pub created_at: i64,
    pub updated_at: i64,
}

/// A room belonging to a site.
#[derive(Debug)]
pub struct Room {
    pub id: i64,
    pub site_id: i64,
    pub name: String,
    pub created_at: i64,
    pub updated_at: i64,
}

/// A device installed in a room.
#[derive(Debug)]
pub struct Device {
    pub id: i64,
    pub room_id: i64,
    pub name: String,
    pub device_type: DeviceType,
    pub unique_identifier: Option<String>,
    pub created_at: i64,
    pub updated_at: i64,
}

/// A timestamped observed value from a device.
#[derive(Debug)]
pub struct SensorReading {
    pub id: i64,
    pub device_id: i64,
    pub value: String,
    pub unit: Option<SensorUnit>,
    pub timestamp: i64,
    pub created_at: i64,
    pub updated_at: i64,
}

/// A timestamped target value for a device.
#[derive(Debug)]
pub struct ControlSetpoint {
    pub id: i64,
    pub device_id: i64,
    pub setpoint_type: SetpointType,
    pub value: String,
    pub unit: Option<SetpointUnit>,
    pub timestamp: i64,
    pub created_at: i64,
    pub updated_at: i64,
}

/// The caller-supplied fields of a new site.
#[derive(Debug, Clone)]
pub struct SiteInput {
    pub name: String,
    pub address: Option<String>,
}

/// The caller-supplied fields of a new room.
#[derive(Debug, Clone)]
pub struct RoomInput {
    pub site_id: i64,
    pub name: String,
}

/// The caller-supplied fields of a new device.
#[derive(Debug, Clone)]
pub struct DeviceInput {
    pub room_id: i64,
    pub name: String,
    pub device_type: DeviceType,
    pub unique_identifier: Option<String>,
}

/// The caller-supplied fields of a new sensor reading.
#[derive(Debug, Clone)]
pub struct SensorReadingInput {
    pub device_id: i64,
    pub value: String,
    pub unit: Option<SensorUnit>,
}

/// The caller-supplied fields of a new control setpoint.
#[derive(Debug, Clone)]
pub struct ControlSetpointInput {
    pub device_id: i64,
    pub setpoint_type: SetpointType,
    pub value: String,
    pub unit: Option<SetpointUnit>,
}

impl Site {
    /// The rooms of this site, fetched on demand by the site's identifier.
    pub fn rooms(&self, store: &EntityStore) -> (r: Vec<Room>)
        ensures
            r@ == rooms_of(store.rooms@, self.id),
    {
        store.fetch_rooms_by_site(self.id)
    }

    /// A copy of the row, equal to the original.
    pub fn dup(&self) -> (r: Site)
        ensures
            r == *self,
    {
        Site {
            id: self.id,
            name: self.name.clone(),
            address: match &self.address {
                Some(a) => Some(a.clone()),
                None => None,
            },
            created_at: self.created_at,
            updated_at: self.updated_at,
        }
    }
}

impl Room {
    /// The devices of this room, fetched on demand by the room's
    /// identifier.
    pub fn devices(&self, store: &EntityStore) -> (r: Vec<Device>)
        ensures
            r@ == devices_of(store.devices@, self.id),
    {
        store.fetch_devices_by_room(self.id)
    }

    /// A copy of the row, equal to the original.
    pub fn dup(&self) -> (r: Room)
        ensures
            r == *self,
    {
        Room {
            id: self.id,
            site_id: self.site_id,
            name: self.name.clone(),
            created_at: self.created_at,
            updated_at: self.updated_at,
        }
    }
}

impl Device {
    /// The sensor readings of this device, fetched on demand by the
    /// device's identifier.
    pub fn sensor_readings(&self, store: &EntityStore) -> (r: Vec<SensorReading>)
        ensures
            r@ == readings_of(store.readings@, self.id),
    {
        store.fetch_readings_by_device(self.id)
    }

    /// The control setpoints of this device, fetched on demand by the
    /// device's identifier.
    pub fn control_setpoints(&self, store: &EntityStore) -> (r: Vec<ControlSetpoint>)
        ensures
            r@ == setpoints_of(store.setpoints@, self.id),
    {
        store.fetch_setpoints_by_device(self.id)
    }

    /// A copy of the row, equal to the original.
    pub fn dup(&self) -> (r: Device)
        ensures
            r == *self,
    {
        Device {
            id: self.id,
            room_id: self.room_id,
            name: self.name.clone(),
            device_type: self.device_type,
            unique_identifier: match &self.unique_identifier {
                Some(u) => Some(u.clone()),
                None => None,
            },
            created_at: self.created_at,
            updated_at: self.updated_at,
        }
    }
}

impl SensorReading {
    /// A copy of the row, equal to the original.
    pub fn dup(&self) -> (r: SensorReading)
        ensures
            r == *self,
    {
        SensorReading {
            id: self.id,
            device_id: self.device_id,
            value: self.value.clone(),
            unit: self.unit,
            timestamp: self.timestamp,
            created_at: self.created_at,
            updated_at: self.updated_at,
        }
    }
}

impl ControlSetpoint {
    /// A copy of the row, equal to the original.
    pub fn dup(&self) -> (r: ControlSetpoint)
        ensures
            r == *self,
    {
        ControlSetpoint {
            id: self.id,
            device_id: self.device_id,
            setpoint_type: self.setpoint_type,
            value: self.value.clone(),
            unit: self.unit,
            timestamp: self.timestamp,
            created_at: self.created_at,
            updated_at: self.updated_at,
        }
    }
}

} // verus!
