//! Equipment state and register bindings. Each piece of equipment carries
//! a run/open flag and a rate in the register's integer domain, plus an
//! explicit dirty flag set by every mutator and cleared by the push pass
//! of the synchronization bridge. Bindings fix, at construction time, which
//! register addresses a piece of equipment or a sensor owns.
use vstd::prelude::*;

verus! {

/// The closed set of object kinds a sensor can be configured to detect.
#[derive(Clone, Copy, Debug, PartialEq, Eq, Structural)]
pub enum ObjectKind {
    Bottle,
    Ball,
}

/// The live state of one piece of equipment (a conveyor or a valve):
/// a run/open flag, a rate in the 16-bit register domain, and a dirty
/// flag recording that some mutation has not yet been pushed out.
#[derive(Clone, Copy, Debug, PartialEq, Eq, Structural)]
pub struct EquipmentState {
    /// Run flag of a conveyor, open flag of a valve.
    pub active: bool,
    /// Speed of a conveyor, spawn rate of a valve, in register units.
    pub rate: u16,
    /// True when a mutation has not yet been pushed to the registers.
    pub dirty: bool,
}

impl EquipmentState {
    /// A fresh state, dirty so that the first push pass exports it.
    pub fn new(active: bool, rate: u16) -> (r: EquipmentState)
        ensures
            r == (EquipmentState { active, rate, dirty: true }),
    {
        EquipmentState { active, rate, dirty: true }
    }

    /// Stores a new run/open flag and marks the state dirty.
    pub fn set_active(&mut self, active: bool)
        ensures
            *final(self) == (EquipmentState { active, dirty: true, ..*old(self) }),
    {
        self.active = active;
        self.dirty = true;
    }

    /// Flips the run/open flag and marks the state dirty, as an operator
    /// toggle does.
    pub fn toggle_active(&mut self)
        ensures
            *final(self) == (EquipmentState { active: !old(self).active, dirty: true, ..*old(
                self,
            ) }),
    {
        self.active = !self.active;
        self.dirty = true;
    }

    /// Stores a new rate and marks the state dirty.
    pub fn set_rate(&mut self, rate: u16)
        ensures
            *final(self) == (EquipmentState { rate, dirty: true, ..*old(self) }),
    {
        self.rate = rate;
        self.dirty = true;
    }
}

/// The register binding of a conveyor: the coil that mirrors its run flag
/// and the holding register that mirrors its speed.
#[derive(Clone, Copy, Debug, PartialEq, Eq, Structural)]
pub struct Conveyor {
    pub coil_address: u16,
    pub holding_address: u16,
}

impl Conveyor {
    pub fn new(coil_address: u16, holding_address: u16) -> (r: Conveyor)
        ensures
            r == (Conveyor { coil_address, holding_address }),
    {
        Conveyor { coil_address, holding_address }
    }
}

/// The register binding of a valve: the coil that mirrors its open flag
/// and the holding register that mirrors its spawn rate.
#[derive(Clone, Copy, Debug, PartialEq, Eq, Structural)]
pub struct Valve {
    pub coil_address: u16,
    pub holding_address: u16,
}

impl Valve {
    pub fn new(coil_address: u16, holding_address: u16) -> (r: Valve)
        ensures
            r == (Valve { coil_address, holding_address }),
    {
        Valve { coil_address, holding_address }
    }
}

/// The configuration of one sensor: its unique tag, the discrete-input
/// address it owns, and the object kind it reacts to.
pub struct Sensor {
    /// The discrete-input address the sensor's triggered flag is pushed to.
    pub modbus_address: u16,
    /// Unique identifier of the sensor.
    pub sensor_tag: String,
    /// The object kind the sensor is configured to detect.
    pub sensor_item: ObjectKind,
}

impl Sensor {
    /// Creates a sensor configuration bound to a discrete-input address,
    /// reacting only to its configured object kind.
    pub fn new(sensor_tag: String, modbus_address: u16, sensor_item: ObjectKind) -> (r: Sensor)
        ensures
            r.sensor_tag@ == sensor_tag@,
            r.modbus_address == modbus_address,
            r.sensor_item == sensor_item,
    {
        Sensor { sensor_tag, modbus_address, sensor_item }
    }
}

/// The standard plant topology: one conveyor on coil and holding
/// register address 0, one valve on coil and holding register address 1,
/// a bottle sensor on discrete-input address 0 and a ball sensor on
/// discrete-input address 1.
pub fn setup_environment() -> (r: (Vec<Conveyor>, Vec<Valve>, Vec<Sensor>))
    ensures
        r.0@.len() == 1 && r.0@[0] == (Conveyor { coil_address: 0x0000, holding_address: 0x0000 }),
        r.1@.len() == 1 && r.1@[0] == (Valve { coil_address: 0x0001, holding_address: 0x0001 }),
        r.2@.len() == 2,
        r.2@[0].sensor_tag@ == "bottle_sensor"@ && r.2@[0].modbus_address == 0x0000 && r.2@[
            0
        ].sensor_item == ObjectKind::Bottle,
        r.2@[1].sensor_tag@ == "water_sensor"@ && r.2@[1].modbus_address == 0x0001 && r.2@[
            1
        ].sensor_item == ObjectKind::Ball,
{
    let conveyors: Vec<Conveyor> = vec![Conveyor::new(0x0000, 0x0000)];
    let valves: Vec<Valve> = vec![Valve::new(0x0001, 0x0001)];
    let bottle_sensor = Sensor::new("bottle_sensor".to_owned(), 0x0000, ObjectKind::Bottle);
    let water_sensor = Sensor::new("water_sensor".to_owned(), 0x0001, ObjectKind::Ball);
    let sensors: Vec<Sensor> = vec![bottle_sensor, water_sensor];
    (conveyors, valves, sensors)
}

} // verus!
