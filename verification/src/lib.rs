//! Core of a simulated industrial I/O bridge: a register store with four
//! sparse address spaces, a wire-protocol request dispatcher, change-tracked
//! equipment and sensor state, and the synchronization passes that keep the
//! registers and the live state consistent.

pub mod bridge;
pub mod equipment;
pub mod protocol;
pub mod sensors;
mod store;

pub use store::{AddressError, RegisterBank};
pub use protocol::{handle_request, ExceptionCode, ModbusState, Request, Response};
pub use sensors::{GlobalSensorState, SensorState};
pub use equipment::{setup_environment, Conveyor, EquipmentState, ObjectKind, Sensor, Valve};
pub use bridge::{
    handle_sensor_feedback_prefiltered, register_sensors, sync_conveyor_to_modbus,
    sync_modbus_to_conveyor, sync_modbus_to_valves, sync_sensors_to_modbus, sync_valves_to_modbus,
    SensorEvent,
};
