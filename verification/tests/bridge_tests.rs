use modbus_bridge::{
    handle_request, handle_sensor_feedback_prefiltered, register_sensors, setup_environment,
    sync_conveyor_to_modbus, sync_modbus_to_conveyor, sync_modbus_to_valves, sync_sensors_to_modbus,
    sync_valves_to_modbus, Conveyor, EquipmentState, GlobalSensorState, ModbusState, ObjectKind,
    Request, Response, Sensor, SensorEvent, Valve,
};

fn read_coil(st: &mut ModbusState, addr: u16) -> bool {
    match handle_request(st, Request::ReadCoils(addr, 1)) {
        Ok(Response::ReadCoils(v)) => v[0],
        other => panic!("unexpected response: {other:?}"),
    }
}

fn read_discrete(st: &mut ModbusState, addr: u16) -> bool {
    match handle_request(st, Request::ReadDiscreteInputs(addr, 1)) {
        Ok(Response::ReadDiscreteInputs(v)) => v[0],
        other => panic!("unexpected response: {other:?}"),
    }
}

#[test]
fn external_coil_write_is_pulled_next_tick() {
    // equipment bound to coil 0x0000 with active=false: the push pass
    // exports false, an external client writes true, and the next pull
    // pass adopts it
    let mut st = ModbusState::default();
    st.coils.provision(0x0000, false);
    st.holding_registers.provision(0x0000, 0);
    let conveyors = vec![Conveyor::new(0x0000, 0x0000)];
    let mut state = EquipmentState::new(false, 100);

    sync_conveyor_to_modbus(&conveyors, &mut state, &mut st);
    assert!(!state.dirty);
    assert!(!read_coil(&mut st, 0x0000));

    let w = handle_request(&mut st, Request::WriteSingleCoil(0x0000, true));
    assert!(w.is_ok());

    sync_modbus_to_conveyor(&conveyors, &mut state, &st);
    assert!(state.active);
    assert!(state.dirty);
}

#[test]
fn sensor_transition_is_pushed_exactly_once() {
    // sensor "s1" bound to discrete input 0x0005, initially untriggered
    let mut st = ModbusState::default();
    let mut global = GlobalSensorState::new();
    let sensors = vec![Sensor::new("s1".to_string(), 0x0005, ObjectKind::Bottle)];
    register_sensors(&sensors, &mut global, &mut st);
    assert!(!read_discrete(&mut st, 0x0005));

    global.set_triggered("s1", true);
    sync_sensors_to_modbus(&sensors, &mut global, &mut st);
    assert!(read_discrete(&mut st, 0x0005));

    // flip the stored bit from outside the bridge, then run a second push
    // pass without a new transition: the consumed flag prevents a rewrite
    st.discrete_inputs.write_single(0x0005, false).unwrap();
    sync_sensors_to_modbus(&sensors, &mut global, &mut st);
    assert!(!read_discrete(&mut st, 0x0005));
}

#[test]
fn push_skips_unprovisioned_addresses() {
    // nothing provisioned: the push pass is a silent no-op on the store
    let mut st = ModbusState::default();
    let valves = vec![Valve::new(0x0001, 0x0001)];
    let mut state = EquipmentState::new(true, 5);
    sync_valves_to_modbus(&valves, &mut state, &mut st);
    assert!(!state.dirty);
    assert!(!st.coils.contains_addr(0x0001));
    assert!(!st.holding_registers.contains_addr(0x0001));
}

#[test]
fn clean_state_pushes_nothing() {
    let mut st = ModbusState::default();
    st.coils.provision(0x0000, true);
    let conveyors = vec![Conveyor::new(0x0000, 0x0000)];
    let mut state = EquipmentState::new(false, 100);
    state.dirty = false;
    sync_conveyor_to_modbus(&conveyors, &mut state, &mut st);
    // the coil keeps its stored value: nothing was exported
    assert!(read_coil(&mut st, 0x0000));
}

#[test]
fn pull_adopts_first_differing_valve_coil() {
    let mut st = ModbusState::default();
    st.coils.provision(0x0001, true);
    st.holding_registers.provision(0x0001, 9);
    let valves = vec![Valve::new(0x0001, 0x0001)];
    let mut state = EquipmentState::new(false, 9);
    state.dirty = false;
    sync_modbus_to_valves(&valves, &mut state, &st);
    assert!(state.active);
    assert_eq!(state.rate, 9);
    assert!(state.dirty);
}

#[test]
fn pull_without_difference_leaves_state_clean() {
    let mut st = ModbusState::default();
    st.coils.provision(0x0000, false);
    st.holding_registers.provision(0x0000, 100);
    let conveyors = vec![Conveyor::new(0x0000, 0x0000)];
    let mut state = EquipmentState::new(false, 100);
    state.dirty = false;
    sync_modbus_to_conveyor(&conveyors, &mut state, &st);
    assert_eq!(
        state,
        EquipmentState { active: false, rate: 100, dirty: false }
    );
}

#[test]
fn pulled_rate_follows_holding_register() {
    let mut st = ModbusState::default();
    st.coils.provision(0x0000, false);
    st.holding_registers.provision(0x0000, 100);
    let conveyors = vec![Conveyor::new(0x0000, 0x0000)];
    let mut state = EquipmentState::new(false, 100);
    state.dirty = false;
    let w = handle_request(&mut st, Request::WriteSingleRegister(0x0000, 150));
    assert!(w.is_ok());
    sync_modbus_to_conveyor(&conveyors, &mut state, &st);
    assert_eq!(state.rate, 150);
    assert!(state.dirty);
}

#[test]
fn bottle_event_stops_conveyor_and_opens_valve() {
    let mut global = GlobalSensorState::new();
    let mut st = ModbusState::default();
    let (_, _, sensors) = setup_environment();
    register_sensors(&sensors, &mut global, &mut st);
    let mut conveyor = EquipmentState::new(true, 100);
    let mut valve = EquipmentState::new(false, 1);
    let events = vec![SensorEvent {
        sensor_tag: "bottle_sensor".to_string(),
        object: ObjectKind::Bottle,
        started: true,
    }];
    handle_sensor_feedback_prefiltered(&events, &sensors, &mut global, &mut conveyor, &mut valve);
    assert!(!conveyor.active);
    assert!(valve.active);
    assert!(global.is_triggered("bottle_sensor"));
    assert!(global.has_changed("bottle_sensor"));
}

#[test]
fn ball_event_closes_valve_and_restarts_conveyor() {
    let mut global = GlobalSensorState::new();
    let mut st = ModbusState::default();
    let (_, _, sensors) = setup_environment();
    register_sensors(&sensors, &mut global, &mut st);
    let mut conveyor = EquipmentState::new(false, 100);
    let mut valve = EquipmentState::new(true, 1);
    let events = vec![SensorEvent {
        sensor_tag: "water_sensor".to_string(),
        object: ObjectKind::Ball,
        started: true,
    }];
    handle_sensor_feedback_prefiltered(&events, &sensors, &mut global, &mut conveyor, &mut valve);
    assert!(conveyor.active);
    assert!(!valve.active);
    assert!(global.is_triggered("water_sensor"));
}

#[test]
fn mismatched_object_kind_is_ignored() {
    let mut global = GlobalSensorState::new();
    let mut st = ModbusState::default();
    let (_, _, sensors) = setup_environment();
    register_sensors(&sensors, &mut global, &mut st);
    let mut conveyor = EquipmentState::new(true, 100);
    conveyor.dirty = false;
    let mut valve = EquipmentState::new(false, 1);
    valve.dirty = false;
    let events = vec![SensorEvent {
        // the bottle sensor does not react to a ball
        sensor_tag: "bottle_sensor".to_string(),
        object: ObjectKind::Ball,
        started: true,
    }];
    handle_sensor_feedback_prefiltered(&events, &sensors, &mut global, &mut conveyor, &mut valve);
    assert!(conveyor.active && !conveyor.dirty);
    assert!(!valve.active && !valve.dirty);
    assert!(!global.is_triggered("bottle_sensor"));
}

#[test]
fn stopping_contact_untriggers_without_toggling_equipment() {
    let mut global = GlobalSensorState::new();
    let mut st = ModbusState::default();
    let (_, _, sensors) = setup_environment();
    register_sensors(&sensors, &mut global, &mut st);
    let mut conveyor = EquipmentState::new(true, 100);
    let mut valve = EquipmentState::new(false, 1);
    let started = vec![SensorEvent {
        sensor_tag: "bottle_sensor".to_string(),
        object: ObjectKind::Bottle,
        started: true,
    }];
    handle_sensor_feedback_prefiltered(&started, &sensors, &mut global, &mut conveyor, &mut valve);
    let stopped = vec![SensorEvent {
        sensor_tag: "bottle_sensor".to_string(),
        object: ObjectKind::Bottle,
        started: false,
    }];
    let conveyor_before = conveyor;
    let valve_before = valve;
    handle_sensor_feedback_prefiltered(&stopped, &sensors, &mut global, &mut conveyor, &mut valve);
    assert!(!global.is_triggered("bottle_sensor"));
    assert_eq!(conveyor, conveyor_before);
    assert_eq!(valve, valve_before);
}

#[test]
fn full_tick_cycle_keeps_registers_and_state_consistent() {
    let mut st = ModbusState::default();
    let mut global = GlobalSensorState::new();
    let (conveyors, valves, sensors) = setup_environment();
    st.coils.provision(0x0000, false);
    st.holding_registers.provision(0x0000, 0);
    st.coils.provision(0x0001, false);
    st.holding_registers.provision(0x0001, 0);
    register_sensors(&sensors, &mut global, &mut st);
    let mut conveyor = EquipmentState::new(true, 100);
    let mut valve = EquipmentState::new(false, 1);

    // tick: a bottle reaches the bottle sensor
    let events = vec![SensorEvent {
        sensor_tag: "bottle_sensor".to_string(),
        object: ObjectKind::Bottle,
        started: true,
    }];
    handle_sensor_feedback_prefiltered(&events, &sensors, &mut global, &mut conveyor, &mut valve);
    sync_conveyor_to_modbus(&conveyors, &mut conveyor, &mut st);
    sync_valves_to_modbus(&valves, &mut valve, &mut st);
    sync_sensors_to_modbus(&sensors, &mut global, &mut st);

    assert!(!read_coil(&mut st, 0x0000)); // conveyor stopped
    assert!(read_coil(&mut st, 0x0001)); // valve open
    assert!(read_discrete(&mut st, 0x0000)); // bottle sensor triggered
    assert!(!global.has_changed("bottle_sensor")); // transition consumed
}

#[test]
fn setup_environment_matches_plant_topology() {
    let (conveyors, valves, sensors) = setup_environment();
    assert_eq!(conveyors, vec![Conveyor::new(0x0000, 0x0000)]);
    assert_eq!(valves, vec![Valve::new(0x0001, 0x0001)]);
    assert_eq!(sensors.len(), 2);
    assert_eq!(sensors[0].sensor_tag, "bottle_sensor");
    assert_eq!(sensors[0].modbus_address, 0x0000);
    assert_eq!(sensors[0].sensor_item, ObjectKind::Bottle);
    assert_eq!(sensors[1].sensor_tag, "water_sensor");
    assert_eq!(sensors[1].modbus_address, 0x0001);
    assert_eq!(sensors[1].sensor_item, ObjectKind::Ball);
}

#[test]
fn equipment_setters_mark_state_dirty() {
    let mut state = EquipmentState::new(false, 10);
    assert!(state.dirty);
    state.dirty = false;
    state.set_active(true);
    assert!(state.active && state.dirty);
    state.dirty = false;
    state.toggle_active();
    assert!(!state.active && state.dirty);
    state.dirty = false;
    state.set_rate(25);
    assert_eq!(state.rate, 25);
    assert!(state.dirty);
}
