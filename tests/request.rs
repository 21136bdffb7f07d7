use modbus_frames::builder::build_frame;
use modbus_frames::function::{self, Function};
use modbus_frames::pdu::{FunctionCode, PacketLen};
use modbus_frames::{request, COIL_ON};

#[test]
fn command_read_coils() {
    let mut buf = [0; 256];
    // 11 01 0013 0025 0E84
    let (frame, _remainder) = build_frame(&mut buf)
        .for_address(0x11)
        .function(Function(function::READ_COILS))
        .registers(&[0x13, 0x25])
        .finalise();

    let commands = [
        request::ReadCoils::try_from_bytes(frame.raw_bytes()).unwrap(),
        request::ReadCoils::try_from(frame).unwrap(),
    ];

    for command in commands {
        assert_eq!(command.start_index(), 0x13);
        assert_eq!(command.coil_count(), 0x25);
    }
}

#[test]
fn command_read_discrete_inputs() {
    let mut buf = [0; 256];
    // 11 02 00C4 0016 BAA9
    let (frame, _remainder) = build_frame(&mut buf)
        .for_address(0x11)
        .function(Function(function::READ_DISCRETE_INPUTS))
        .registers(&[0xC4, 0x16])
        .finalise();

    let commands = [
        request::ReadDiscreteInputs::try_from_bytes(frame.raw_bytes()).unwrap(),
        request::ReadDiscreteInputs::try_from(frame).unwrap(),
    ];

    for command in commands {
        assert_eq!(command.start_index(), 0xC4);
        assert_eq!(command.input_count(), 0x16);
    }
}

#[test]
fn command_read_holding_registers() {
    let mut buf = [0; 256];
    // 11 03 006B 0003 7687
    let (frame, _remainder) = build_frame(&mut buf)
        .for_address(0x11)
        .function(Function(function::READ_HOLDING_REGISTERS))
        .registers(&[0x6B, 3])
        .finalise();

    let commands = [
        request::ReadHoldingRegisters::try_from_bytes(frame.raw_bytes()).unwrap(),
        request::ReadHoldingRegisters::try_from(frame).unwrap(),
    ];

    for command in commands {
        assert_eq!(command.start_index(), 0x6B);
        assert_eq!(command.register_count(), 3);
    }
}

#[test]
fn command_read_input_registers() {
    let mut buf = [0; 256];
    // 11 04 0008 0001 B298
    let (frame, _remainder) = build_frame(&mut buf)
        .for_address(0x11)
        .function(Function(function::READ_INPUT_REGISTERS))
        .registers(&[8, 1])
        .finalise();

    let commands = [
        request::ReadInputRegisters::try_from_bytes(frame.raw_bytes()).unwrap(),
        request::ReadInputRegisters::try_from(frame).unwrap(),
    ];

    for command in commands {
        assert_eq!(command.start_index(), 8);
        assert_eq!(command.register_count(), 1);
    }
}

#[test]
fn command_write_coil() {
    let mut buf = [0; 256];
    // 11 05 00AC FF00 4E8B
    let (frame, _remainder) = build_frame(&mut buf)
        .for_address(0x11)
        .function(Function(function::WRITE_COIL))
        .registers(&[0xAC, COIL_ON])
        .finalise();

    let commands = [
        request::WriteCoil::try_from_bytes(frame.raw_bytes()).unwrap(),
        request::WriteCoil::try_from(frame).unwrap(),
    ];

    for command in commands {
        assert_eq!(command.index(), 0xAC);
        assert!(command.is_on());
    }
}

#[test]
fn command_write_holding_register() {
    let mut buf = [0; 256];
    // 11 06 0001 0003 9A9B
    let (frame, _remainder) = build_frame(&mut buf)
        .for_address(0x11)
        .function(Function(function::WRITE_HOLDING_REGISTER))
        .registers(&[1, 3])
        .finalise();

    let commands = [
        request::WriteHoldingRegister::try_from_bytes(frame.raw_bytes()).unwrap(),
        request::WriteHoldingRegister::try_from(frame).unwrap(),
    ];

    for command in commands {
        assert_eq!(command.index(), 1);
        assert_eq!(command.value(), 3);
    }
}

#[test]
fn command_write_multiple_coils() {
    let mut buf = [0; 256];
    // 0xB, 0xF, 0x0, 0x1B, 0x0, 0x9, 0x2, 0x4D, 0x1, 0x6C, 0xA7
    let (frame, _remainder) = build_frame(&mut buf)
        .for_address(0xB)
        .function(Function(function::WRITE_MULTIPLE_COILS))
        .registers(&[27, 9])
        .byte(2)
        .bytes(&[0x4D, 0x01])
        .finalise();

    let commands = [
        request::WriteMultipleCoils::try_from_bytes(frame.raw_bytes()).unwrap(),
        request::WriteMultipleCoils::try_from(frame).unwrap(),
    ];

    for command in commands {
        assert_eq!(command.start_index(), 27);
        assert_eq!(command.coil_count(), 9);
        assert_eq!(command.payload_len(), 2);
        let coils = command.iter_coils();
        let desired = [
            true, false, true, true, false, false, true, false, // 0x4D
            true,  // 0x01
        ]
        .into_iter()
        .enumerate()
        .map(|x| (command.start_index() + x.0 as u16, x.1))
        .collect::<Vec<_>>();
        assert_eq!(coils, desired);
    }
}

#[test]
fn command_write_multiple_holding_registers() {
    let mut buf = [0; 256];
    // 0x11, 0x10, 0x0, 0x01, 0x00, 0x02, 0x04, 0x00, 0x0A, 0x01, 0x02, 0xC6, 0xF0
    let (frame, _remainder) = build_frame(&mut buf)
        .for_address(0x11)
        .function(Function(function::WRITE_MULTIPLE_HOLDING_REGISTERS))
        .registers(&[1, 2])
        .byte(4)
        .registers(&[0xA, 0x0102])
        .finalise();

    let commands = [
        request::WriteMultipleHoldingRegisters::try_from_bytes(frame.raw_bytes()).unwrap(),
        request::WriteMultipleHoldingRegisters::try_from(frame).unwrap(),
    ];

    for command in commands {
        assert_eq!(command.start_index(), 1);
        assert_eq!(command.register_count(), 2);
        assert_eq!(command.payload_len(), 4);
        let registers = command.iter_registers();
        let desired = [0xA, 0x0102];
        assert_eq!(registers, desired);
    }
}

#[test]
fn decode_read_holding_registers_scenario() {
    let bytes = [0x11u8, 0x03, 0x00, 0x6B, 0x00, 0x03, 0x76, 0x87];
    let req = request::ReadHoldingRegisters::try_from_bytes(&bytes).unwrap();
    assert_eq!(req.as_frame().address(), 0x11);
    assert_eq!(req.as_frame().function(), Function(function::READ_HOLDING_REGISTERS));
    assert_eq!(req.start_index(), 0x6B);
    assert_eq!(req.register_count(), 3);
}

#[test]
fn write_multiple_coils_from_booleans() {
    let mut buf = [0u8; 256];
    let coils = [true, false, true, true, false, false, true, false, true];
    let (req, _rem) = request::WriteMultipleCoils::new(&mut buf, 0xB, 27, &coils);
    assert_eq!(req.start_index(), 27);
    assert_eq!(req.coil_count(), 9);
    assert_eq!(req.payload_len(), 2);
    assert_eq!(&req.as_frame().payload()[5..], &[0x4D, 0x01]);
    assert_eq!(
        req.as_frame().raw_bytes(),
        [0xB, 0xF, 0x0, 0x1B, 0x0, 0x9, 0x2, 0x4D, 0x1, 0x6C, 0xA7]
    );
}

#[test]
fn request_length_boundaries() {
    let mut buf = [0u8; 256];
    for payload_len in [3usize, 5] {
        let payload = vec![0u8; payload_len];
        let (frame, _rem) = build_frame(&mut buf)
            .for_address(1)
            .function(Function(function::READ_HOLDING_REGISTERS))
            .bytes(&payload)
            .finalise();
        assert_eq!(
            request::ReadHoldingRegisters::try_from(frame),
            Err(modbus_frames::Error::DecodeInvalidLength)
        );
    }
    let (frame, _rem) = build_frame(&mut buf)
        .for_address(0xB)
        .function(Function(function::WRITE_MULTIPLE_COILS))
        .registers(&[27, 9])
        .byte(3)
        .bytes(&[0x4D, 0x01])
        .finalise();
    assert_eq!(
        request::WriteMultipleCoils::try_from(frame),
        Err(modbus_frames::Error::DecodeInvalidLength)
    );
}

#[test]
fn request_unexpected_function() {
    let bytes = [0x11u8, 0x03, 0x00, 0x6B, 0x00, 0x03, 0x76, 0x87];
    assert_eq!(
        request::ReadCoils::try_from_bytes(&bytes),
        Err(modbus_frames::Error::UnexpectedFunction)
    );
    assert_eq!(
        request::ReadCoils::try_from_bytes(&bytes[..7]),
        Err(modbus_frames::Error::InvalidChecksum)
    );
}

#[test]
fn request_builds_responses() {
    let mut buf = [0u8; 32];
    let (req, _rem) = request::ReadCoils::new(&mut buf, 0x11, 0x13, 10);
    let mut out = [0u8; 32];
    let coils = [true, false, true, false, false, false, false, false, true, true];
    let (resp, rem) = req.response_builder(&mut out, &coils);
    assert_eq!(resp.payload_len(), 2);
    assert_eq!(&resp.iter_coils()[..10], &coils);
    assert_eq!(rem.len(), 32 - 7);
    let mut buf = [0u8; 32];
    let (req, _rem) = request::WriteCoil::new(&mut buf, 0x11, 0xAC, COIL_ON);
    let mut out = [0u8; 8];
    let (resp, _rem) = req.response_builder(&mut out);
    assert_eq!(resp.as_frame().raw_bytes(), req.as_frame().raw_bytes());
    let mut out = [0u8; 8];
    let (ex, _rem) = req.response_exception(&mut out, modbus_frames::Exception(1));
    assert_eq!(ex.raw_bytes().len(), 5);
    assert_eq!(ex.function(), Function(0x85));
}

#[test]
fn packet_lengths_and_codes() {
    let mut buf = [0u8; 64];
    let coils = [true; 9];
    let (req, _rem) = request::WriteMultipleCoils::new(&mut buf, 1, 0, &coils);
    assert_eq!(req.packet_len(), 11);
    assert_eq!(request::WriteMultipleCoils::minimum_len(), 9);
    assert_eq!(request::WriteMultipleCoils::function_code(), Function(15));
    assert_eq!(request::ReadCoils::minimum_len(), 8);
    assert_eq!(modbus_frames::response::ReadCoils::minimum_len(), 5);
    assert_eq!(modbus_frames::response::ReadHoldingRegisters::function_code(), Function(3));
}
