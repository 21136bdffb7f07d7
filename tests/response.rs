use modbus_frames::builder::build_frame;
use modbus_frames::function::{self, Function};
use modbus_frames::{response, COIL_ON};

#[test]
fn response_read_coils() {
    let mut buf = [0; 256];
    // 0xB, 0x1, 0x4, 0xCD, 0x6B, 0xB2, 0x7F, 0x2B, 0xE1
    let (frame, _remainder) = build_frame(&mut buf)
        .for_address(0xB)
        .function(Function(function::READ_COILS))
        .byte(4)
        .bytes(&[0xCD, 0x6B, 0xB2, 0x7F])
        .finalise();
    let responses = [
        response::ReadCoils::try_from_bytes(frame.raw_bytes()).unwrap(),
        response::ReadCoils::try_from(frame).unwrap(),
    ];

    for response in responses {
        assert_eq!(response.payload_len(), 4);
        let coils = response.iter_coils();
        let desired = [
            true, false, true, true, false, false, true, true, // 0xCD
            true, true, false, true, false, true, true, false, // 0x6B
            false, true, false, false, true, true, false, true, // 0xB2
            true, true, true, true, true, true, true, false, // 0x7F
        ];
        // Note that the last false bit may be padding (always zeroes) or part of the message. Need to know what the request was to tell
        assert_eq!(coils, desired);
    }
}

#[test]
fn response_read_discrete_inputs() {
    let mut buf = [0; 256];

    let (frame, _remainder) = build_frame(&mut buf)
        .for_address(0xB)
        .function(Function(function::READ_DISCRETE_INPUTS))
        .byte(4)
        .bytes(&[0xCD, 0x6B, 0xB2, 0x7F])
        .finalise();
    let responses = [
        response::ReadDiscreteInputs::try_from_bytes(frame.raw_bytes()).unwrap(),
        response::ReadDiscreteInputs::try_from(frame).unwrap(),
    ];

    for response in responses {
        assert_eq!(response.payload_len(), 4);
        let coils = response.iter_inputs();
        let desired = [
            true, false, true, true, false, false, true, true, // 0xCD
            true, true, false, true, false, true, true, false, // 0x6B
            false, true, false, false, true, true, false, true, // 0xB2
            true, true, true, true, true, true, true, false, // 0x7F
        ];
        // Note that the last false bit may be padding (always zeroes) or part of the message. Need to know what the request was to tell
        assert_eq!(coils, desired);
    }
}

#[test]
fn response_read_holding_registers() {
    let mut buf = [0; 256];
    // 11 03 06 AE41 5652 4340 49AD
    let (frame, _remainder) = build_frame(&mut buf)
        .for_address(0x11)
        .function(Function(function::READ_HOLDING_REGISTERS))
        .byte(6)
        .registers(&[0xAE41, 0x5652, 0x4340])
        .finalise();

    let responses = [
        response::ReadHoldingRegisters::try_from_bytes(frame.raw_bytes()).unwrap(),
        response::ReadHoldingRegisters::try_from(frame).unwrap(),
    ];

    for response in responses {
        assert_eq!(response.payload_len(), 6);
        assert_eq!(
            response.iter_registers(),
            [0xAE41, 0x5652, 0x4340]
        );
    }
}

#[test]
fn response_read_input_registers() {
    let mut buf = [0; 256];
    // 11 03 06 AE41 5652 4340 49AD
    let (frame, _remainder) = build_frame(&mut buf)
        .for_address(0x11)
        .function(Function(function::READ_INPUT_REGISTERS))
        .byte(6)
        .registers(&[0xAE41, 0x5652, 0x4340])
        .finalise();

    let responses = [
        response::ReadInputRegisters::try_from_bytes(frame.raw_bytes()).unwrap(),
        response::ReadInputRegisters::try_from(frame).unwrap(),
    ];

    for response in responses {
        assert_eq!(response.payload_len(), 6);
        assert_eq!(
            response.iter_registers(),
            [0xAE41, 0x5652, 0x4340]
        );
    }
}

#[test]
fn response_write_coil() {
    let mut buf = [0; 256];
    // 11 05 00AC FF00 4E8B
    let (frame, _remainder) = build_frame(&mut buf)
        .for_address(0x11)
        .function(Function(function::WRITE_COIL))
        .registers(&[0xAC, COIL_ON])
        .finalise();

    let responses = [
        response::WriteCoil::try_from_bytes(frame.raw_bytes()).unwrap(),
        response::WriteCoil::try_from(frame).unwrap(),
    ];

    for response in responses {
        assert_eq!(response.index(), 0xAC);
        assert!(response.is_on());
    }
}

#[test]
fn response_write_holding_register() {
    let mut buf = [0; 256];
    // 11 06 0001 0003 9A9B
    let (frame, _remainder) = build_frame(&mut buf)
        .for_address(0x11)
        .function(Function(function::WRITE_HOLDING_REGISTER))
        .registers(&[1, 3])
        .finalise();

    let responses = [
        response::WriteHoldingRegister::try_from_bytes(frame.raw_bytes()).unwrap(),
        response::WriteHoldingRegister::try_from(frame).unwrap(),
    ];

    for response in responses {
        assert_eq!(response.index(), 1);
        assert_eq!(response.value(), 3);
    }
}

#[test]
fn response_write_multiple_coils() {
    let mut buf = [0; 256];
    // 0xB, 0xF, 0x0, 0x1B, 0x0, 0x9, 0x2, 0x4D, 0x1, 0x6C, 0xA7
    let (frame, _remainder) = build_frame(&mut buf)
        .for_address(0xB)
        .function(Function(function::WRITE_MULTIPLE_COILS))
        .registers(&[27, 9])
        .finalise();

    let responses = [
        response::WriteMultipleCoils::try_from_bytes(frame.raw_bytes()).unwrap(),
        response::WriteMultipleCoils::try_from(frame).unwrap(),
    ];

    for response in responses {
        assert_eq!(response.start_index(), 27);
        assert_eq!(response.register_count(), 9);
    }
}

#[test]
fn response_write_multiple_holding_registers() {
    let mut buf = [0; 256];
    // 0x11, 0x10, 0x0, 0x01, 0x00, 0x02, 0x04, 0x00, 0x0A, 0x01, 0x02, 0xC6, 0xF0
    let (frame, _remainder) = build_frame(&mut buf)
        .for_address(0x11)
        .function(Function(function::WRITE_MULTIPLE_HOLDING_REGISTERS))
        .registers(&[1, 2])
        .finalise();

    let responses = [
        response::WriteMultipleHoldingRegisters::try_from_bytes(frame.raw_bytes()).unwrap(),
        response::WriteMultipleHoldingRegisters::try_from(frame).unwrap(),
    ];

    for response in responses {
        assert_eq!(response.start_index(), 1);
        assert_eq!(response.register_count(), 2);
    }
}

#[test]
fn response_constructors() {
    let mut buf = [0u8; 32];
    let (resp, rem) = response::ReadHoldingRegisters::new(&mut buf, 0x11, &[0xAE41, 0x5652, 0x4340]);
    assert_eq!(
        resp.as_frame().raw_bytes(),
        [0x11, 0x03, 0x06, 0xAE, 0x41, 0x56, 0x52, 0x43, 0x40, 0x49, 0xAD]
    );
    assert_eq!(rem.len(), 32 - 11);
    let mut buf = [0u8; 32];
    let (resp, _rem) = response::WriteCoil::new(&mut buf, 0x11, 0xAC, true);
    assert_eq!(resp.as_frame().raw_bytes(), [0x11, 0x05, 0x00, 0xAC, 0xFF, 0x00, 0x4E, 0x8B]);
    assert!(resp.is_on());
    let mut buf = [0u8; 32];
    let (resp, _rem) = response::ReadCoils::new(&mut buf, 0xB, &[true, false, true]);
    assert_eq!(resp.payload_len(), 1);
    assert_eq!(resp.iter_coils(), [true, false, true, false, false, false, false, false]);
}

#[test]
fn response_byte_count_mismatch() {
    let mut buf = [0u8; 32];
    let (frame, _rem) = build_frame(&mut buf)
        .for_address(0x11)
        .function(Function(function::READ_HOLDING_REGISTERS))
        .byte(4)
        .registers(&[0xAE41, 0x5652, 0x4340])
        .finalise();
    assert_eq!(
        response::ReadHoldingRegisters::try_from(frame),
        Err(modbus_frames::Error::DecodeInvalidLength)
    );
}
