//! Modbus PDU dispatch against the register bank.
//!
//! Wire behavior follows the MODBUS Application Protocol Specification
//! V1.1b3: quantity limits answer *illegal data value*, a run that touches an
//! unimplemented address answers *illegal data address*, and an unsupported
//! function answers *illegal function*. Writes are all-or-nothing.

use vstd::prelude::*;

use crate::bank::{
    RegisterBank, bit_range_result, bit_run, coil_write_result, lemma_read_after_write,
    set_bits_prefix, word_in, word_range_result, word_run, write_prefix, word_gap,
};
use crate::types::RegisterSpace;

verus! {

/// Largest FC3/FC4 quantity.
pub const MAX_READ_REGS: u16 = 125;

/// Largest FC16 quantity.
pub const MAX_WRITE_REGS: u16 = 123;

/// Largest FC1/FC2 quantity.
pub const MAX_READ_BITS: u16 = 2000;

/// Largest FC15 quantity.
pub const MAX_WRITE_BITS: u16 = 1968;

/// A decoded Modbus request.
#[derive(Debug, Clone, PartialEq, Eq)]
pub enum Request {
    /// FC1: address, quantity.
    ReadCoils(u16, u16),
    /// FC2: address, quantity.
    ReadDiscreteInputs(u16, u16),
    /// FC3: address, quantity.
    ReadHoldingRegisters(u16, u16),
    /// FC4: address, quantity.
    ReadInputRegisters(u16, u16),
    /// FC5: address, value.
    WriteSingleCoil(u16, bool),
    /// FC15: address, values.
    WriteMultipleCoils(u16, Vec<bool>),
    /// FC6: address, value.
    WriteSingleRegister(u16, u16),
    /// FC16: address, values.
    WriteMultipleRegisters(u16, Vec<u16>),
    /// Any other function code.
    Other,
}

/// A Modbus response PDU.
#[derive(Debug, Clone, PartialEq, Eq)]
pub enum Response {
    /// FC1 bits.
    ReadCoils(Vec<bool>),
    /// FC2 bits.
    ReadDiscreteInputs(Vec<bool>),
    /// FC3 words.
    ReadHoldingRegisters(Vec<u16>),
    /// FC4 words.
    ReadInputRegisters(Vec<u16>),
    /// FC5 echo: address, value.
    WriteSingleCoil(u16, bool),
    /// FC15 echo: address, quantity.
    WriteMultipleCoils(u16, u16),
    /// FC6 echo: address, value.
    WriteSingleRegister(u16, u16),
    /// FC16 echo: address, quantity.
    WriteMultipleRegisters(u16, u16),
}

/// Exception codes this device answers with.
#[derive(Debug, Clone, Copy, PartialEq, Eq, Structural)]
pub enum ExceptionCode {
    /// 01: function not supported.
    IllegalFunction,
    /// 02: a referenced address is not implemented.
    IllegalDataAddress,
    /// 03: a quantity is out of range.
    IllegalDataValue,
}

/// The reply to one request, and the numeric cells whose words it changed.
#[derive(Debug)]
pub struct Handled {
    /// Response or exception.
    pub reply: Result<Response, ExceptionCode>,
    /// Base addresses of holding cells written (empty unless a register write succeeded).
    pub written: Vec<u16>,
}

/// Whether a quantity is within `1..=max`.
pub open spec fn qty_ok(cnt: int, max: int) -> bool {
    1 <= cnt <= max
}

/// A length as the 16-bit quantity echoed on the wire (saturating).
pub open spec fn wire_qty(len: int) -> u16 {
    if len > 65535 {
        65535
    } else {
        len as u16
    }
}

/// V1.1b3: a quantity of zero or above the function's maximum is illegal.
pub fn check_qty(cnt: u16, max: u16) -> (r: Result<(), ExceptionCode>)
    ensures
        r == if qty_ok(cnt as int, max as int) {
            Ok::<(), ExceptionCode>(())
        } else {
            Err(ExceptionCode::IllegalDataValue)
        },
{
    if cnt == 0 || cnt > max {
        Err(ExceptionCode::IllegalDataValue)
    } else {
        Ok(())
    }
}

fn read_regs(bank: &RegisterBank, space: RegisterSpace, addr: u16, cnt: u16) -> (r: Result<
    Vec<u16>,
    ExceptionCode,
>)
    ensures
        match r {
            Err(e) => e == if !qty_ok(cnt as int, MAX_READ_REGS as int) {
                ExceptionCode::IllegalDataValue
            } else {
                ExceptionCode::IllegalDataAddress
            } && (qty_ok(cnt as int, MAX_READ_REGS as int) ==> word_range_result(
                bank.cells(space),
                addr,
                cnt as int,
            ) is Err),
            Ok(ws) => qty_ok(cnt as int, MAX_READ_REGS as int) && word_range_result(
                bank.cells(space),
                addr,
                cnt as int,
            ) is Ok && ws@ == word_run(bank.cells(space), bank.endian(), addr, cnt as int),
        },
{
    check_qty(cnt, MAX_READ_REGS)?;
    if bank.check_word_range(space, addr, cnt).is_err() {
        return Err(ExceptionCode::IllegalDataAddress);
    }
    Ok(bank.read_words(space, addr, cnt))
}

/// Answer one request against the bank.
///
/// Reads leave the bank unchanged. A write applies completely or not at all.
pub fn handle(bank: &mut RegisterBank, req: &Request) -> (h: Handled)
    ensures
        match *req {
            Request::ReadCoils(a, c) => {
                &&& *final(bank) == *old(bank)
                &&& h.written@.len() == 0
                &&& if !qty_ok(c as int, MAX_READ_BITS as int) {
                    h.reply == Err::<Response, ExceptionCode>(ExceptionCode::IllegalDataValue)
                } else if bit_range_result(old(bank).coil_bits(), a, c as int) is Err {
                    h.reply == Err::<Response, ExceptionCode>(ExceptionCode::IllegalDataAddress)
                } else {
                    h.reply matches Ok(Response::ReadCoils(bits)) && bits@ == bit_run(
                        old(bank).coil_bits(),
                        a,
                        c as int,
                    )
                }
            },
            Request::ReadDiscreteInputs(a, c) => {
                &&& *final(bank) == *old(bank)
                &&& h.written@.len() == 0
                &&& if !qty_ok(c as int, MAX_READ_BITS as int) {
                    h.reply == Err::<Response, ExceptionCode>(ExceptionCode::IllegalDataValue)
                } else if bit_range_result(old(bank).discrete_bits(), a, c as int) is Err {
                    h.reply == Err::<Response, ExceptionCode>(ExceptionCode::IllegalDataAddress)
                } else {
                    h.reply matches Ok(Response::ReadDiscreteInputs(bits)) && bits@ == bit_run(
                        old(bank).discrete_bits(),
                        a,
                        c as int,
                    )
                }
            },
            Request::ReadHoldingRegisters(a, c) => {
                &&& *final(bank) == *old(bank)
                &&& h.written@.len() == 0
                &&& if !qty_ok(c as int, MAX_READ_REGS as int) {
                    h.reply == Err::<Response, ExceptionCode>(ExceptionCode::IllegalDataValue)
                } else if word_range_result(old(bank).cells(RegisterSpace::Holding), a, c as int) is Err {
                    h.reply == Err::<Response, ExceptionCode>(ExceptionCode::IllegalDataAddress)
                } else {
                    h.reply matches Ok(Response::ReadHoldingRegisters(ws)) && ws@ == word_run(
                        old(bank).cells(RegisterSpace::Holding),
                        old(bank).endian(),
                        a,
                        c as int,
                    )
                }
            },
            Request::ReadInputRegisters(a, c) => {
                &&& *final(bank) == *old(bank)
                &&& h.written@.len() == 0
                &&& if !qty_ok(c as int, MAX_READ_REGS as int) {
                    h.reply == Err::<Response, ExceptionCode>(ExceptionCode::IllegalDataValue)
                } else if word_range_result(old(bank).cells(RegisterSpace::Input), a, c as int) is Err {
                    h.reply == Err::<Response, ExceptionCode>(ExceptionCode::IllegalDataAddress)
                } else {
                    h.reply matches Ok(Response::ReadInputRegisters(ws)) && ws@ == word_run(
                        old(bank).cells(RegisterSpace::Input),
                        old(bank).endian(),
                        a,
                        c as int,
                    )
                }
            },
            Request::WriteSingleCoil(a, v) => {
                &&& h.written@.len() == 0
                &&& final(bank).cells(RegisterSpace::Holding) == old(bank).cells(RegisterSpace::Holding)
                &&& final(bank).cells(RegisterSpace::Input) == old(bank).cells(RegisterSpace::Input)
                &&& final(bank).discrete_bits() == old(bank).discrete_bits()
                &&& final(bank).endian() == old(bank).endian()
                &&& if old(bank).coil_bits().contains_key(a) {
                    &&& h.reply == Ok::<Response, ExceptionCode>(Response::WriteSingleCoil(a, v))
                    &&& final(bank).coil_bits() == old(bank).coil_bits().insert(a, v)
                } else {
                    &&& h.reply == Err::<Response, ExceptionCode>(ExceptionCode::IllegalDataAddress)
                    &&& final(bank).coil_bits() == old(bank).coil_bits()
                }
            },
            Request::WriteMultipleCoils(a, vs) => {
                &&& h.written@.len() == 0
                &&& final(bank).cells(RegisterSpace::Holding) == old(bank).cells(RegisterSpace::Holding)
                &&& final(bank).cells(RegisterSpace::Input) == old(bank).cells(RegisterSpace::Input)
                &&& final(bank).discrete_bits() == old(bank).discrete_bits()
                &&& final(bank).endian() == old(bank).endian()
                &&& if !qty_ok(wire_qty(vs@.len() as int) as int, MAX_WRITE_BITS as int) {
                    &&& h.reply == Err::<Response, ExceptionCode>(ExceptionCode::IllegalDataValue)
                    &&& final(bank).coil_bits() == old(bank).coil_bits()
                } else if coil_write_result(old(bank).coil_bits(), a, vs@.len() as int) is Err {
                    &&& h.reply == Err::<Response, ExceptionCode>(ExceptionCode::IllegalDataAddress)
                    &&& final(bank).coil_bits() == old(bank).coil_bits()
                } else {
                    &&& h.reply == Ok::<Response, ExceptionCode>(
                        Response::WriteMultipleCoils(a, vs@.len() as u16),
                    )
                    &&& final(bank).coil_bits() == set_bits_prefix(
                        old(bank).coil_bits(),
                        a,
                        vs@,
                        vs@.len(),
                    )
                }
            },
            Request::WriteSingleRegister(a, v) => {
                &&& final(bank).cells(RegisterSpace::Input) == old(bank).cells(RegisterSpace::Input)
                &&& final(bank).coil_bits() == old(bank).coil_bits()
                &&& final(bank).discrete_bits() == old(bank).discrete_bits()
                &&& final(bank).endian() == old(bank).endian()
                &&& if word_range_result(old(bank).cells(RegisterSpace::Holding), a, 1) is Err {
                    &&& h.reply == Err::<Response, ExceptionCode>(ExceptionCode::IllegalDataAddress)
                    &&& final(bank).cells(RegisterSpace::Holding) == old(bank).cells(RegisterSpace::Holding)
                    &&& h.written@.len() == 0
                } else {
                    &&& h.reply == Ok::<Response, ExceptionCode>(Response::WriteSingleRegister(a, v))
                    &&& final(bank).cells(RegisterSpace::Holding) == write_prefix(
                        old(bank).cells(RegisterSpace::Holding),
                        old(bank).endian(),
                        a,
                        seq![v],
                        1,
                    )
                    &&& h.written@.len() == 1
                }
            },
            Request::WriteMultipleRegisters(a, ws) => {
                &&& final(bank).cells(RegisterSpace::Input) == old(bank).cells(RegisterSpace::Input)
                &&& final(bank).coil_bits() == old(bank).coil_bits()
                &&& final(bank).discrete_bits() == old(bank).discrete_bits()
                &&& final(bank).endian() == old(bank).endian()
                &&& if !qty_ok(wire_qty(ws@.len() as int) as int, MAX_WRITE_REGS as int) {
                    &&& h.reply == Err::<Response, ExceptionCode>(ExceptionCode::IllegalDataValue)
                    &&& final(bank).cells(RegisterSpace::Holding) == old(bank).cells(RegisterSpace::Holding)
                    &&& h.written@.len() == 0
                } else if word_range_result(
                    old(bank).cells(RegisterSpace::Holding),
                    a,
                    ws@.len() as int,
                ) is Err {
                    &&& h.reply == Err::<Response, ExceptionCode>(ExceptionCode::IllegalDataAddress)
                    &&& final(bank).cells(RegisterSpace::Holding) == old(bank).cells(RegisterSpace::Holding)
                    &&& h.written@.len() == 0
                } else {
                    &&& h.reply == Ok::<Response, ExceptionCode>(
                        Response::WriteMultipleRegisters(a, ws@.len() as u16),
                    )
                    &&& final(bank).cells(RegisterSpace::Holding) == write_prefix(
                        old(bank).cells(RegisterSpace::Holding),
                        old(bank).endian(),
                        a,
                        ws@,
                        ws@.len(),
                    )
                }
            },
            Request::Other => {
                &&& *final(bank) == *old(bank)
                &&& h.written@.len() == 0
                &&& h.reply == Err::<Response, ExceptionCode>(ExceptionCode::IllegalFunction)
            },
        },
{
    let none: Vec<u16> = Vec::new();
    match req {
        Request::ReadCoils(addr, cnt) => {
            if let Err(e) = check_qty(*cnt, MAX_READ_BITS) {
                return Handled { reply: Err(e), written: none };
            }
            if bank.check_coil_range(*addr, *cnt).is_err() {
                return Handled { reply: Err(ExceptionCode::IllegalDataAddress), written: none };
            }
            Handled { reply: Ok(Response::ReadCoils(bank.read_coils(*addr, *cnt))), written: none }
        },
        Request::ReadDiscreteInputs(addr, cnt) => {
            if let Err(e) = check_qty(*cnt, MAX_READ_BITS) {
                return Handled { reply: Err(e), written: none };
            }
            if bank.check_discrete_range(*addr, *cnt).is_err() {
                return Handled { reply: Err(ExceptionCode::IllegalDataAddress), written: none };
            }
            Handled {
                reply: Ok(Response::ReadDiscreteInputs(bank.read_discrete(*addr, *cnt))),
                written: none,
            }
        },
        Request::ReadHoldingRegisters(addr, cnt) => {
            let reply = match read_regs(bank, RegisterSpace::Holding, *addr, *cnt) {
                Ok(ws) => Ok(Response::ReadHoldingRegisters(ws)),
                Err(e) => Err(e),
            };
            Handled { reply, written: none }
        },
        Request::ReadInputRegisters(addr, cnt) => {
            let reply = match read_regs(bank, RegisterSpace::Input, *addr, *cnt) {
                Ok(ws) => Ok(Response::ReadInputRegisters(ws)),
                Err(e) => Err(e),
            };
            Handled { reply, written: none }
        },
        Request::WriteSingleCoil(addr, value) => {
            let values = [*value];
            let reply = match bank.write_coils(*addr, &values) {
                Ok(()) => Ok(Response::WriteSingleCoil(*addr, *value)),
                Err(_) => Err(ExceptionCode::IllegalDataAddress),
            };
            proof {
                reveal_with_fuel(set_bits_prefix, 2);
                let m = old(bank).coil_bits();
                let a = *addr;
                assert((0int % 65536) == 0);
                if m.contains_key(a) {
                    assert(!crate::bank::coil_write_gap(m, a, 0));
                    assert(forall|i: int| 0 <= i < 1 ==> !crate::bank::coil_write_gap(m, a, i));
                    assert(values@ =~= seq![*value]);
                } else {
                    assert(crate::bank::coil_write_gap(m, a, 0));
                }
            }
            Handled { reply, written: none }
        },
        Request::WriteMultipleCoils(addr, values) => {
            let n: u16 = if values.len() > 65535 {
                65535
            } else {
                values.len() as u16
            };
            if let Err(e) = check_qty(n, MAX_WRITE_BITS) {
                return Handled { reply: Err(e), written: none };
            }
            let reply = match bank.write_coils(*addr, values.as_slice()) {
                Ok(()) => Ok(Response::WriteMultipleCoils(*addr, n)),
                Err(_) => Err(ExceptionCode::IllegalDataAddress),
            };
            Handled { reply, written: none }
        },
        Request::WriteSingleRegister(addr, value) => {
            let values = [*value];
            match bank.write_words(RegisterSpace::Holding, *addr, &values) {
                Ok(written) => {
                    proof {
                        assert(values@ == seq![*value]);
                        let m = old(bank).cells(RegisterSpace::Holding);
                        lemma_one_write_lands(m, *addr);
                        let b = crate::bank::owner_of(m, *addr).unwrap().0;
                        assert(crate::bank::lands_in(m, *addr, 0, b));
                        assert(written@.contains(b));
                        assert forall|k: int| 0 <= k < written@.len() implies written@[k] == b by {
                            assert(written@.contains(written@[k]));
                        }
                        if written@.len() >= 2 {
                            assert(written@[0] == written@[1]);
                        }
                    }
                    Handled { reply: Ok(Response::WriteSingleRegister(*addr, *value)), written }
                },
                Err(_) => Handled { reply: Err(ExceptionCode::IllegalDataAddress), written: none },
            }
        },
        Request::WriteMultipleRegisters(addr, values) => {
            let n: u16 = if values.len() > 65535 {
                65535
            } else {
                values.len() as u16
            };
            if let Err(e) = check_qty(n, MAX_WRITE_REGS) {
                return Handled { reply: Err(e), written: none };
            }
            match bank.write_words(RegisterSpace::Holding, *addr, values.as_slice()) {
                Ok(written) => Handled {
                    reply: Ok(Response::WriteMultipleRegisters(*addr, n)),
                    written,
                },
                Err(_) => Handled { reply: Err(ExceptionCode::IllegalDataAddress), written: none },
            }
        },
        Request::Other => Handled { reply: Err(ExceptionCode::IllegalFunction), written: none },
    }
}

/// A single-word write to an implemented address lands in exactly one cell.
proof fn lemma_one_write_lands(m: Map<u16, crate::bank::NumericCell>, a: u16)
    requires
        word_range_result(m, a, 1) is Ok,
    ensures
        crate::bank::owner_of(m, a) is Some,
{
    assert(!word_gap(m, a, 0));
}

/// FC16 followed by FC3 over the same run reads back the words written
/// (outside a two-word cell based at the last address).
pub proof fn lemma_write_then_read(
    m: Map<u16, crate::bank::NumericCell>,
    e: crate::types::Endianness,
    a: u16,
    ws: Seq<u16>,
)
    requires
        1 <= ws.len() <= MAX_WRITE_REGS,
        word_range_result(m, a, ws.len() as int) is Ok,
        !(m.contains_key(65535) && m[65535].value.kind().words() == 2),
    ensures
        word_run(write_prefix(m, e, a, ws, ws.len()), e, a, ws.len() as int) == ws,
{
    assert forall|i: int| 0 <= i < ws.len() implies !word_gap(m, a, i) by {
        if word_gap(m, a, i) {
            assert(!(forall|j: int| 0 <= j < ws.len() ==> !word_gap(m, a, j)));
        }
    }
    assert forall|i: int| 0 <= i < ws.len() implies #[trigger] word_run(
        write_prefix(m, e, a, ws, ws.len()),
        e,
        a,
        ws.len() as int,
    )[i] == ws[i] by {
        assert(!word_gap(m, a, i));
        lemma_read_after_write(m, e, a, ws, i);
    }
    assert(word_run(write_prefix(m, e, a, ws, ws.len()), e, a, ws.len() as int) =~= ws);
}

} // verus!
