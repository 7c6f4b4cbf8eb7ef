use modbus_bridge::{handle_request, ExceptionCode, ModbusState, Request, Response};

#[test]
fn write_single_coil_then_read_coils() {
    // provision coil 0x0000 = false; WriteSingleCoil(0x0000, true);
    // ReadCoils(0x0000, 1) returns [true]
    let mut st = ModbusState::default();
    st.coils.provision(0x0000, false);
    let w = handle_request(&mut st, Request::WriteSingleCoil(0x0000, true));
    assert!(matches!(w, Ok(Response::WriteSingleCoil(0x0000, true))));
    let r = handle_request(&mut st, Request::ReadCoils(0x0000, 1));
    match r {
        Ok(Response::ReadCoils(v)) => assert_eq!(v, vec![true]),
        other => panic!("unexpected response: {other:?}"),
    }
}

#[test]
fn unsupported_function_codes_are_refused() {
    let mut st = ModbusState::default();
    st.coils.provision(0x0000, false);
    assert_eq!(
        handle_request(&mut st, Request::Custom(0x41)),
        Err(ExceptionCode::IllegalFunction)
    );
    assert_eq!(
        handle_request(&mut st, Request::MaskWriteRegister(0, 0xFF00, 0x00FF)),
        Err(ExceptionCode::IllegalFunction)
    );
    assert_eq!(
        handle_request(&mut st, Request::WriteMultipleCoils(0, vec![true])),
        Err(ExceptionCode::IllegalFunction)
    );
    assert_eq!(
        handle_request(&mut st, Request::ReportServerId),
        Err(ExceptionCode::IllegalFunction)
    );
}

#[test]
fn connection_stays_usable_after_illegal_function() {
    let mut st = ModbusState::default();
    st.coils.provision(0x0000, true);
    assert_eq!(
        handle_request(&mut st, Request::Custom(0x41)),
        Err(ExceptionCode::IllegalFunction)
    );
    // the same dispatch loop serves the next request normally
    match handle_request(&mut st, Request::ReadCoils(0x0000, 1)) {
        Ok(Response::ReadCoils(v)) => assert_eq!(v, vec![true]),
        other => panic!("unexpected response: {other:?}"),
    }
}

#[test]
fn read_touching_unprovisioned_address_is_refused() {
    let mut st = ModbusState::default();
    st.holding_registers.provision(5, 50);
    st.holding_registers.provision(6, 60);
    assert_eq!(
        handle_request(&mut st, Request::ReadHoldingRegisters(5, 3)),
        Err(ExceptionCode::IllegalDataAddress)
    );
    match handle_request(&mut st, Request::ReadHoldingRegisters(5, 2)) {
        Ok(Response::ReadHoldingRegisters(v)) => assert_eq!(v, vec![50, 60]),
        other => panic!("unexpected response: {other:?}"),
    }
}

#[test]
fn failed_multi_register_write_is_atomic() {
    let mut st = ModbusState::default();
    st.holding_registers.provision(5, 50);
    st.holding_registers.provision(6, 60);
    // address 7 is unprovisioned: addresses 5 and 6 stay unmodified
    assert_eq!(
        handle_request(&mut st, Request::WriteMultipleRegisters(5, vec![1, 2, 3])),
        Err(ExceptionCode::IllegalDataAddress)
    );
    match handle_request(&mut st, Request::ReadHoldingRegisters(5, 2)) {
        Ok(Response::ReadHoldingRegisters(v)) => assert_eq!(v, vec![50, 60]),
        other => panic!("unexpected response: {other:?}"),
    }
}

#[test]
fn multi_register_write_round_trips() {
    let mut st = ModbusState::default();
    st.holding_registers.provision(8, 0);
    st.holding_registers.provision(9, 0);
    st.holding_registers.provision(10, 0);
    let w = handle_request(&mut st, Request::WriteMultipleRegisters(8, vec![11, 22, 33]));
    assert!(matches!(w, Ok(Response::WriteMultipleRegisters(8, 3))));
    match handle_request(&mut st, Request::ReadHoldingRegisters(8, 3)) {
        Ok(Response::ReadHoldingRegisters(v)) => assert_eq!(v, vec![11, 22, 33]),
        other => panic!("unexpected response: {other:?}"),
    }
}

#[test]
fn write_single_register_and_read_back() {
    let mut st = ModbusState::default();
    st.holding_registers.provision(2, 0);
    let w = handle_request(&mut st, Request::WriteSingleRegister(2, 777));
    assert!(matches!(w, Ok(Response::WriteSingleRegister(2, 777))));
    match handle_request(&mut st, Request::ReadHoldingRegisters(2, 1)) {
        Ok(Response::ReadHoldingRegisters(v)) => assert_eq!(v, vec![777]),
        other => panic!("unexpected response: {other:?}"),
    }
}

#[test]
fn discrete_and_input_banks_serve_reads() {
    let mut st = ModbusState::default();
    st.discrete_inputs.provision(3, true);
    st.input_registers.provision(4, 1234);
    match handle_request(&mut st, Request::ReadDiscreteInputs(3, 1)) {
        Ok(Response::ReadDiscreteInputs(v)) => assert_eq!(v, vec![true]),
        other => panic!("unexpected response: {other:?}"),
    }
    match handle_request(&mut st, Request::ReadInputRegisters(4, 1)) {
        Ok(Response::ReadInputRegisters(v)) => assert_eq!(v, vec![1234]),
        other => panic!("unexpected response: {other:?}"),
    }
}

#[test]
fn fresh_store_has_nothing_provisioned() {
    let mut st = ModbusState::default();
    assert_eq!(
        handle_request(&mut st, Request::ReadCoils(0, 1)),
        Err(ExceptionCode::IllegalDataAddress)
    );
    assert_eq!(
        handle_request(&mut st, Request::WriteSingleRegister(0, 1)),
        Err(ExceptionCode::IllegalDataAddress)
    );
}
