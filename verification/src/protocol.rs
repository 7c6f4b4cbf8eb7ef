//! Wire-protocol dispatch: decoded client requests are checked against the
//! register store and answered with a response or an exception code. The
//! network transport itself lives outside this crate; this module is the
//! state machine a connection handler drives, one request at a time.
use vstd::prelude::*;

use crate::store::{range_provisioned, written, AddressError, RegisterBank};

verus! {

/// The four independent address spaces shared by the protocol server and
/// the synchronization bridge.
pub struct ModbusState {
    /// Single-bit points, externally read/writable.
    pub coils: RegisterBank<bool>,
    /// Single-bit points, externally read-only; written by the bridge.
    pub discrete_inputs: RegisterBank<bool>,
    /// 16-bit registers, externally read-only.
    pub input_registers: RegisterBank<u16>,
    /// 16-bit registers, externally read/writable.
    pub holding_registers: RegisterBank<u16>,
}

impl ModbusState {
    /// All four banks satisfy their internal invariant.
    pub open spec fn wf(&self) -> bool {
        &&& self.coils.wf()
        &&& self.discrete_inputs.wf()
        &&& self.input_registers.wf()
        &&& self.holding_registers.wf()
    }
}

impl Default for ModbusState {
    /// A store with no provisioned address in any bank.
    fn default() -> (r: ModbusState)
        ensures
            r.wf(),
            r.coils@ == Map::<u16, bool>::empty(),
            r.discrete_inputs@ == Map::<u16, bool>::empty(),
            r.input_registers@ == Map::<u16, u16>::empty(),
            r.holding_registers@ == Map::<u16, u16>::empty(),
    {
        ModbusState {
            coils: RegisterBank::new(),
            discrete_inputs: RegisterBank::new(),
            input_registers: RegisterBank::new(),
            holding_registers: RegisterBank::new(),
        }
    }
}

/// A decoded client request. The first seven variants are the supported
/// function codes; the remaining ones stand for the function codes the
/// server recognizes on the wire but does not implement.
pub enum Request {
    ReadCoils(u16, u16),
    ReadDiscreteInputs(u16, u16),
    WriteSingleCoil(u16, bool),
    WriteMultipleCoils(u16, Vec<bool>),
    ReadInputRegisters(u16, u16),
    ReadHoldingRegisters(u16, u16),
    WriteSingleRegister(u16, u16),
    WriteMultipleRegisters(u16, Vec<u16>),
    ReportServerId,
    MaskWriteRegister(u16, u16, u16),
    ReadWriteMultipleRegisters(u16, u16, u16, Vec<u16>),
    ReadDeviceIdentification,
    Custom(u8),
}

/// A successful answer to a supported request.
#[derive(Debug, PartialEq, Eq)]
pub enum Response {
    ReadCoils(Vec<bool>),
    ReadDiscreteInputs(Vec<bool>),
    WriteSingleCoil(u16, bool),
    ReadInputRegisters(Vec<u16>),
    ReadHoldingRegisters(Vec<u16>),
    WriteSingleRegister(u16, u16),
    WriteMultipleRegisters(u16, u16),
}

/// The exception codes the server reports back to a client.
#[derive(Clone, Copy, Debug, PartialEq, Eq, Structural)]
pub enum ExceptionCode {
    /// The function code is outside the supported set.
    IllegalFunction,
    /// The address range of the request touches an unprovisioned address.
    IllegalDataAddress,
}

/// Whether a request carries one of the seven supported function codes.
pub open spec fn supported(req: Request) -> bool {
    match req {
        Request::ReadCoils(_, _) => true,
        Request::ReadDiscreteInputs(_, _) => true,
        Request::WriteSingleCoil(_, _) => true,
        Request::ReadInputRegisters(_, _) => true,
        Request::ReadHoldingRegisters(_, _) => true,
        Request::WriteSingleRegister(_, _) => true,
        Request::WriteMultipleRegisters(_, _) => true,
        _ => false,
    }
}

/// The four bank contents of `b` equal those of `a`.
pub open spec fn same_banks(a: ModbusState, b: ModbusState) -> bool {
    &&& b.coils@ == a.coils@
    &&& b.discrete_inputs@ == a.discrete_inputs@
    &&& b.input_registers@ == a.input_registers@
    &&& b.holding_registers@ == a.holding_registers@
}

/// Serves one decoded request against the store: reads and writes are
/// validated against the provisioned addresses of the bank the function
/// code maps to, an unsupported function code is refused outright, and a
/// failed request leaves every bank unchanged.
pub fn handle_request(state: &mut ModbusState, req: Request) -> (r: Result<
    Response,
    ExceptionCode,
>)
    requires
        old(state).wf(),
    ensures
        final(state).wf(),
        !supported(req) ==> same_banks(*old(state), *final(state)) && r == Err::<
            Response,
            ExceptionCode,
        >(ExceptionCode::IllegalFunction),
        match req {
            Request::ReadCoils(addr, cnt) => {
                &&& same_banks(*old(state), *final(state))
                &&& (r is Ok <==> range_provisioned(old(state).coils@, addr, cnt as int))
                &&& (r matches Ok(resp) ==> resp matches Response::ReadCoils(v) && v@.len() == cnt
                    && (forall|k: int|
                        0 <= k < cnt ==> #[trigger] v@[k] == old(state).coils@[(addr + k) as u16]))
                &&& (r is Err ==> r == Err::<Response, ExceptionCode>(
                    ExceptionCode::IllegalDataAddress,
                ))
            },
            Request::ReadDiscreteInputs(addr, cnt) => {
                &&& same_banks(*old(state), *final(state))
                &&& (r is Ok <==> range_provisioned(old(state).discrete_inputs@, addr, cnt as int))
                &&& (r matches Ok(resp) ==> resp matches Response::ReadDiscreteInputs(v)
                    && v@.len() == cnt && (forall|k: int|
                        0 <= k < cnt ==> #[trigger] v@[k] == old(state).discrete_inputs@[(addr
                            + k) as u16]))
                &&& (r is Err ==> r == Err::<Response, ExceptionCode>(
                    ExceptionCode::IllegalDataAddress,
                ))
            },
            Request::ReadInputRegisters(addr, cnt) => {
                &&& same_banks(*old(state), *final(state))
                &&& (r is Ok <==> range_provisioned(old(state).input_registers@, addr, cnt as int))
                &&& (r matches Ok(resp) ==> resp matches Response::ReadInputRegisters(v)
                    && v@.len() == cnt && (forall|k: int|
                        0 <= k < cnt ==> #[trigger] v@[k] == old(state).input_registers@[(addr
                            + k) as u16]))
                &&& (r is Err ==> r == Err::<Response, ExceptionCode>(
                    ExceptionCode::IllegalDataAddress,
                ))
            },
            Request::ReadHoldingRegisters(addr, cnt) => {
                &&& same_banks(*old(state), *final(state))
                &&& (r is Ok <==> range_provisioned(old(state).holding_registers@, addr, cnt as int))
                &&& (r matches Ok(resp) ==> resp matches Response::ReadHoldingRegisters(v)
                    && v@.len() == cnt && (forall|k: int|
                        0 <= k < cnt ==> #[trigger] v@[k] == old(state).holding_registers@[(addr
                            + k) as u16]))
                &&& (r is Err ==> r == Err::<Response, ExceptionCode>(
                    ExceptionCode::IllegalDataAddress,
                ))
            },
            Request::WriteSingleCoil(addr, value) => {
                &&& final(state).discrete_inputs@ == old(state).discrete_inputs@
                &&& final(state).input_registers@ == old(state).input_registers@
                &&& final(state).holding_registers@ == old(state).holding_registers@
                &&& (r is Ok <==> old(state).coils@.contains_key(addr))
                &&& (r is Ok ==> final(state).coils@ == old(state).coils@.insert(addr, value) && r
                    == Ok::<Response, ExceptionCode>(Response::WriteSingleCoil(addr, value)))
                &&& (r is Err ==> final(state).coils@ == old(state).coils@ && r == Err::<
                    Response,
                    ExceptionCode,
                >(ExceptionCode::IllegalDataAddress))
            },
            Request::WriteSingleRegister(addr, value) => {
                &&& final(state).coils@ == old(state).coils@
                &&& final(state).discrete_inputs@ == old(state).discrete_inputs@
                &&& final(state).input_registers@ == old(state).input_registers@
                &&& (r is Ok <==> old(state).holding_registers@.contains_key(addr))
                &&& (r is Ok ==> final(state).holding_registers@ == old(
                    state,
                ).holding_registers@.insert(addr, value) && r == Ok::<Response, ExceptionCode>(
                    Response::WriteSingleRegister(addr, value),
                ))
                &&& (r is Err ==> final(state).holding_registers@ == old(state).holding_registers@
                    && r == Err::<Response, ExceptionCode>(ExceptionCode::IllegalDataAddress))
            },
            Request::WriteMultipleRegisters(addr, values) => {
                &&& final(state).coils@ == old(state).coils@
                &&& final(state).discrete_inputs@ == old(state).discrete_inputs@
                &&& final(state).input_registers@ == old(state).input_registers@
                &&& (r is Ok <==> range_provisioned(
                    old(state).holding_registers@,
                    addr,
                    values@.len() as int,
                ))
                &&& (r is Ok ==> final(state).holding_registers@ == written(
                    old(state).holding_registers@,
                    addr,
                    values@,
                ) && r == Ok::<Response, ExceptionCode>(
                    Response::WriteMultipleRegisters(addr, values@.len() as u16),
                ))
                &&& (r is Err ==> final(state).holding_registers@ == old(state).holding_registers@
                    && r == Err::<Response, ExceptionCode>(ExceptionCode::IllegalDataAddress))
            },
            _ => true,
        },
{
    match req {
        Request::ReadCoils(addr, cnt) => match state.coils.read(addr, cnt) {
            Ok(v) => Ok(Response::ReadCoils(v)),
            Err(AddressError::IllegalDataAddress) => Err(ExceptionCode::IllegalDataAddress),
        },
        Request::ReadDiscreteInputs(addr, cnt) => match state.discrete_inputs.read(addr, cnt) {
            Ok(v) => Ok(Response::ReadDiscreteInputs(v)),
            Err(AddressError::IllegalDataAddress) => Err(ExceptionCode::IllegalDataAddress),
        },
        Request::ReadInputRegisters(addr, cnt) => match state.input_registers.read(addr, cnt) {
            Ok(v) => Ok(Response::ReadInputRegisters(v)),
            Err(AddressError::IllegalDataAddress) => Err(ExceptionCode::IllegalDataAddress),
        },
        Request::ReadHoldingRegisters(addr, cnt) => match state.holding_registers.read(addr, cnt) {
            Ok(v) => Ok(Response::ReadHoldingRegisters(v)),
            Err(AddressError::IllegalDataAddress) => Err(ExceptionCode::IllegalDataAddress),
        },
        Request::WriteSingleCoil(addr, value) => match state.coils.write_single(addr, value) {
            Ok(()) => Ok(Response::WriteSingleCoil(addr, value)),
            Err(AddressError::IllegalDataAddress) => Err(ExceptionCode::IllegalDataAddress),
        },
        Request::WriteSingleRegister(addr, value) => match state.holding_registers.write_single(
            addr,
            value,
        ) {
            Ok(()) => Ok(Response::WriteSingleRegister(addr, value)),
            Err(AddressError::IllegalDataAddress) => Err(ExceptionCode::IllegalDataAddress),
        },
        Request::WriteMultipleRegisters(addr, values) => {
            let n: usize = values.len();
            match state.holding_registers.write(addr, &values) {
                Ok(()) => Ok(
                    Response::WriteMultipleRegisters(
                        addr,
                        #[verifier::truncate]
                        (n as u16),
                    ),
                ),
                Err(AddressError::IllegalDataAddress) => Err(ExceptionCode::IllegalDataAddress),
            }
        },
        _ => Err(ExceptionCode::IllegalFunction),
    }
}

} // verus!
