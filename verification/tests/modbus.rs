use simbus::bank::RegisterBank;
use simbus::encode::{decode_words, encode_words, swap_bytes, u32_to_words, words_to_u32, CellValue};
use simbus::engine::{write_coils, write_words, DeviceError};
use simbus::modbus::{check_qty, handle, ExceptionCode, Handled, Request, Response};
use simbus::types::{DataType, Endianness, RegisterSpace};

/// Temperature 22.5 and humidity 45.0 at scale 10, two alarm coils.
fn tnh() -> RegisterBank {
    let mut bank = RegisterBank::new(Endianness::Big);
    bank.insert_numeric(RegisterSpace::Holding, 0, CellValue::U16(225), 10);
    bank.insert_numeric(RegisterSpace::Holding, 1, CellValue::U16(450), 10);
    bank.insert_coil(0, false);
    bank.insert_coil(1, false);
    bank
}

/// One float32 holding register at address 0, default 1.0.
fn float32_device() -> RegisterBank {
    let mut bank = RegisterBank::new(Endianness::Big);
    bank.insert_numeric(RegisterSpace::Holding, 0, CellValue::F32(1.0f32.to_bits()), 1);
    bank
}

/// Two uint16 holding registers at 0 and 1 holding 1 and 2.
fn two_holdings() -> RegisterBank {
    let mut bank = RegisterBank::new(Endianness::Big);
    bank.insert_numeric(RegisterSpace::Holding, 0, CellValue::U16(1), 1);
    bank.insert_numeric(RegisterSpace::Holding, 1, CellValue::U16(2), 1);
    bank
}

fn call(bank: &mut RegisterBank, req: Request) -> Result<Response, ExceptionCode> {
    let Handled { reply, .. } = handle(bank, &req);
    reply
}

fn holding(bank: &mut RegisterBank, addr: u16, cnt: u16) -> Vec<u16> {
    let Response::ReadHoldingRegisters(words) = call(bank, Request::ReadHoldingRegisters(addr, cnt)).expect("fc3") else {
        panic!("expected holding registers");
    };
    words
}

#[test]
fn fc3_reads_scaled_defaults() {
    assert_eq!(holding(&mut tnh(), 0, 2), vec![225, 450]);
}

#[test]
fn fc3_past_the_map_is_illegal_address() {
    let err = call(&mut tnh(), Request::ReadHoldingRegisters(0, 3)).expect_err("qty covers a hole");
    assert_eq!(err, ExceptionCode::IllegalDataAddress);
}

#[test]
fn fc6_shifts_operating_point() {
    let mut bank = tnh();
    call(&mut bank, Request::WriteSingleRegister(0, 310)).expect("fc6");
    assert_eq!(holding(&mut bank, 0, 1), vec![310]);
}

#[test]
fn fc16_writes_adjacent_uint16_cells() {
    let mut bank = tnh();
    call(&mut bank, Request::WriteMultipleRegisters(0, vec![310, 500])).expect("fc16");
    assert_eq!(holding(&mut bank, 0, 2), vec![310, 500]);
}

#[test]
fn fc16_writes_float32_pair() {
    let mut bank = float32_device();
    let words = encode_words(CellValue::F32(18.5f32.to_bits()), Endianness::Big);
    call(&mut bank, Request::WriteMultipleRegisters(0, words.clone())).expect("fc16 float32");
    assert_eq!(holding(&mut bank, 0, 2), words);
}

#[test]
fn fc6_splices_one_word_of_float32() {
    let mut bank = float32_device();
    let default = encode_words(CellValue::F32(1.0f32.to_bits()), Endianness::Big);
    call(&mut bank, Request::WriteSingleRegister(0, 0x3f80)).expect("fc6 first word");
    assert_eq!(holding(&mut bank, 0, 2), vec![0x3f80, default[1]]);
    call(&mut bank, Request::WriteSingleRegister(1, 0x0001)).expect("fc6 second word");
    assert_eq!(holding(&mut bank, 1, 1), vec![0x0001]);
}

#[test]
fn write_unmapped_is_illegal_address() {
    let mut bank = tnh();
    let err = call(&mut bank, Request::WriteSingleRegister(99, 1)).expect_err("hole");
    assert_eq!(err, ExceptionCode::IllegalDataAddress);
    assert_eq!(holding(&mut bank, 0, 2), vec![225, 450]);
}

#[test]
fn quantity_zero_is_illegal_value() {
    let err = call(&mut tnh(), Request::ReadHoldingRegisters(0, 0)).expect_err("qty 0");
    assert_eq!(err, ExceptionCode::IllegalDataValue);
}

#[test]
fn unknown_function_is_illegal_function() {
    let err = call(&mut tnh(), Request::Other).expect_err("report server id");
    assert_eq!(err, ExceptionCode::IllegalFunction);
}

#[test]
fn fc15_unmapped_coil_is_illegal_address() {
    let mut bank = tnh();
    let err = call(&mut bank, Request::WriteMultipleCoils(0, vec![true, true, true])).expect_err("third coil missing");
    assert_eq!(err, ExceptionCode::IllegalDataAddress);
    assert_eq!(call(&mut bank, Request::ReadCoils(0, 2)).unwrap(), Response::ReadCoils(vec![false, false]));
}

#[test]
fn fc1_past_the_map_is_illegal_address() {
    let err = call(&mut tnh(), Request::ReadCoils(0, 3)).expect_err("qty covers a missing coil");
    assert_eq!(err, ExceptionCode::IllegalDataAddress);
}

#[test]
fn write_words_updates_adjacent_uint16_and_bases() {
    let mut bank = two_holdings();
    let written = write_words(&mut bank, RegisterSpace::Holding, 0, &[10, 20]).unwrap();
    assert_eq!(written, vec![0, 1]);
    let snap = bank.snapshot();
    assert_eq!(snap.holding.get(&0), Some(&10));
    assert_eq!(snap.holding.get(&1), Some(&20));
}

#[test]
fn write_words_rejects_holes_without_partial_apply() {
    let mut bank = two_holdings();
    let err = write_words(&mut bank, RegisterSpace::Holding, 0, &[10, 20, 30]).unwrap_err();
    assert!(matches!(err, DeviceError::UnknownRegister { address: 2, .. }));
    let snap = bank.snapshot();
    assert_eq!(snap.holding.get(&0), Some(&1));
    assert_eq!(snap.holding.get(&1), Some(&2));
}

#[test]
fn write_coils_rejects_unmapped() {
    let mut bank = tnh();
    let err = write_coils(&mut bank, 0, &[true, true, true]).unwrap_err();
    assert!(matches!(err, DeviceError::UnknownCoilAddress { address: 2 }));
    assert_eq!(bank.snapshot().coils.get(&0), Some(&false));
}

#[test]
fn write_words_splices_float32_words_and_reports_one_base() {
    let mut bank = float32_device();
    let words = encode_words(CellValue::F32(18.5f32.to_bits()), Endianness::Big);
    let written = write_words(&mut bank, RegisterSpace::Holding, 0, &words).unwrap();
    assert_eq!(written, vec![0]);
    assert_eq!(bank.get_cell(RegisterSpace::Holding, 0), Some(CellValue::F32(18.5f32.to_bits())));
    let written = write_words(&mut bank, RegisterSpace::Holding, 1, &[0]).unwrap();
    assert_eq!(written, vec![0]);
    assert_eq!(bank.get_cell(RegisterSpace::Holding, 0), Some(CellValue::F32(0x4194_0000)));
}

#[test]
fn device_error_messages() {
    assert_eq!(
        DeviceError::UnknownRegister { space: RegisterSpace::Holding, address: 2 }.message(),
        "Holding register 2 not found"
    );
    assert_eq!(DeviceError::UnknownRegisterName("x".to_string()).message(), "register 'x' not found");
    assert_eq!(DeviceError::UnknownCoil("c".to_string()).message(), "coil 'c' not found");
    assert_eq!(DeviceError::UnknownCoilAddress { address: 7 }.message(), "coil address 7 not found");
    assert_eq!(
        simbus::engine::exception(&DeviceError::UnknownCoilAddress { address: 7 }),
        ExceptionCode::IllegalDataAddress
    );
}

#[test]
fn write_then_read_gives_back_the_words() {
    let mut bank = tnh();
    call(&mut bank, Request::WriteMultipleRegisters(0, vec![1, 65535])).unwrap();
    assert_eq!(holding(&mut bank, 0, 2), vec![1, 65535]);
    call(&mut bank, Request::WriteSingleCoil(1, true)).unwrap();
    assert_eq!(call(&mut bank, Request::ReadCoils(0, 2)).unwrap(), Response::ReadCoils(vec![false, true]));
}

#[test]
fn writes_echo_address_and_quantity() {
    let mut bank = tnh();
    assert_eq!(
        call(&mut bank, Request::WriteMultipleRegisters(0, vec![1, 2])).unwrap(),
        Response::WriteMultipleRegisters(0, 2)
    );
    assert_eq!(call(&mut bank, Request::WriteSingleRegister(1, 9)).unwrap(), Response::WriteSingleRegister(1, 9));
    assert_eq!(
        call(&mut bank, Request::WriteMultipleCoils(0, vec![true, false])).unwrap(),
        Response::WriteMultipleCoils(0, 2)
    );
    assert_eq!(call(&mut bank, Request::WriteSingleCoil(0, false)).unwrap(), Response::WriteSingleCoil(0, false));
}

#[test]
fn register_write_reports_written_bases() {
    let mut bank = tnh();
    let h = handle(&mut bank, &Request::WriteMultipleRegisters(0, vec![3, 4]));
    assert_eq!(h.written, vec![0, 1]);
    let h = handle(&mut bank, &Request::ReadHoldingRegisters(0, 2));
    assert!(h.written.is_empty());
}

#[test]
fn quantity_limits() {
    assert_eq!(check_qty(0, 125), Err(ExceptionCode::IllegalDataValue));
    assert_eq!(check_qty(1, 125), Ok(()));
    assert_eq!(check_qty(125, 125), Ok(()));
    assert_eq!(check_qty(126, 125), Err(ExceptionCode::IllegalDataValue));
    let err = call(&mut tnh(), Request::ReadHoldingRegisters(0, 126)).unwrap_err();
    assert_eq!(err, ExceptionCode::IllegalDataValue);
}

#[test]
fn input_registers_and_discrete_inputs() {
    let mut bank = RegisterBank::new(Endianness::Big);
    bank.insert_numeric(RegisterSpace::Input, 5, CellValue::I16(-2), 1);
    bank.insert_discrete(3, true);
    assert_eq!(call(&mut bank, Request::ReadInputRegisters(5, 1)).unwrap(), Response::ReadInputRegisters(vec![0xfffe]));
    assert_eq!(call(&mut bank, Request::ReadDiscreteInputs(3, 1)).unwrap(), Response::ReadDiscreteInputs(vec![true]));
    assert_eq!(call(&mut bank, Request::ReadDiscreteInputs(3, 2)).unwrap_err(), ExceptionCode::IllegalDataAddress);
}

#[test]
fn word_order_and_byte_swaps() {
    assert_eq!(swap_bytes(0x1234), 0x3412);
    assert_eq!(u32_to_words(0x1122_3344, Endianness::Big), [0x1122, 0x3344]);
    assert_eq!(u32_to_words(0x1122_3344, Endianness::Little), [0x3344, 0x1122]);
    assert_eq!(u32_to_words(0x1122_3344, Endianness::BigSwap), [0x2211, 0x4433]);
    assert_eq!(u32_to_words(0x1122_3344, Endianness::LittleSwap), [0x4433, 0x2211]);
    for e in [Endianness::Big, Endianness::Little, Endianness::BigSwap, Endianness::LittleSwap] {
        assert_eq!(words_to_u32(u32_to_words(0xdead_beef, e), e), 0xdead_beef);
    }
}

#[test]
fn encode_decode_round_trip() {
    let cells = [CellValue::U16(225), CellValue::I16(-5), CellValue::U32(70000), CellValue::F32(18.5f32.to_bits())];
    for e in [Endianness::Big, Endianness::Little, Endianness::BigSwap, Endianness::LittleSwap] {
        for c in cells {
            let words = encode_words(c, e);
            assert_eq!(words.len(), c.data_type().word_count() as usize);
            assert_eq!(decode_words(&words, c.data_type(), e), c);
        }
    }
    assert_eq!(encode_words(CellValue::F32(18.5f32.to_bits()), Endianness::Big), vec![0x4194, 0x0000]);
    assert_eq!(decode_words(&[0xffff], DataType::Int16, Endianness::Big), CellValue::I16(-1));
}

#[test]
fn float32_roundtrip_big() {
    let cell = CellValue::F32(18.5f32.to_bits());
    let words = encode_words(cell, Endianness::Big);
    assert_eq!(words.len(), 2);
    let back = decode_words(&words, DataType::Float32, Endianness::Big);
    assert_eq!(back, cell);
}

#[test]
fn uint32_endianness_swaps_words() {
    let cell = CellValue::U32(0x0102_0304);
    assert_eq!(encode_words(cell, Endianness::Big), vec![0x0102, 0x0304]);
    assert_eq!(encode_words(cell, Endianness::Little), vec![0x0304, 0x0102]);
}
