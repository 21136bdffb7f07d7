use modbus_frames::decoder::{CommonRequests, CommonResponses};
use modbus_frames::function::{self, Function};
use modbus_frames::builder::build_frame;
use modbus_frames::{Error, Frame, COIL_ON};

#[test]
fn command_decode() {
    let mut buf = [0; 256];
    // for now, just copy the builder sequences from the other tests
    let commands = [
        build_frame(&mut buf)
            .for_address(0x11)
            .function(Function(function::READ_COILS))
            .registers(&[0x13, 0x25])
            .finalise()
            .0
            .raw_bytes()
            .to_vec(),
        build_frame(&mut buf)
            .for_address(0x11)
            .function(Function(function::READ_DISCRETE_INPUTS))
            .registers(&[0xC4, 0x16])
            .finalise()
            .0
            .raw_bytes()
            .to_vec(),
        build_frame(&mut buf)
            .for_address(0x11)
            .function(Function(function::READ_HOLDING_REGISTERS))
            .registers(&[0x6B, 3])
            .finalise()
            .0
            .raw_bytes()
            .to_vec(),
        build_frame(&mut buf)
            .for_address(0x11)
            .function(Function(function::READ_INPUT_REGISTERS))
            .registers(&[8, 1])
            .finalise()
            .0
            .raw_bytes()
            .to_vec(),
        build_frame(&mut buf)
            .for_address(0x11)
            .function(Function(function::WRITE_COIL))
            .registers(&[0xAC, COIL_ON])
            .finalise()
            .0
            .raw_bytes()
            .to_vec(),
        build_frame(&mut buf)
            .for_address(0x11)
            .function(Function(function::WRITE_HOLDING_REGISTER))
            .registers(&[1, 3])
            .finalise()
            .0
            .raw_bytes()
            .to_vec(),
        build_frame(&mut buf)
            .for_address(0xB)
            .function(Function(function::WRITE_MULTIPLE_COILS))
            .registers(&[27, 9])
            .byte(2)
            .bytes(&[0x4D, 0x01])
            .finalise()
            .0
            .raw_bytes()
            .to_vec(),
        build_frame(&mut buf)
            .for_address(0x11)
            .function(Function(function::WRITE_MULTIPLE_HOLDING_REGISTERS))
            .registers(&[1, 2])
            .byte(4)
            .registers(&[0xA, 0x0102])
            .finalise()
            .0
            .raw_bytes()
            .to_vec(),
    ];
    let result = commands
        .into_iter()
        .map(|bytes| {
            let byte = CommonRequests::try_from_bytes(bytes.as_slice()).unwrap();
            let frame = Frame::new_unchecked(&bytes);
            let frame = CommonRequests::try_from(frame).unwrap();
            [format!("{:?}", byte), format!("{:?}", frame)]
        })
        .collect::<Vec<_>>();
    println!("{:?}", result);
}

#[test]
fn response_decode() {
    let mut buf = [0; 256];
    // for now, just copy the builder sequences from the other tests
    let responses = [
        build_frame(&mut buf)
            .for_address(0xB)
            .function(Function(function::READ_COILS))
            .byte(4)
            .bytes(&[0xCD, 0x6B, 0xB2, 0x7F])
            .finalise()
            .0
            .raw_bytes()
            .to_vec(),
        build_frame(&mut buf)
            .for_address(0xB)
            .function(Function(function::READ_DISCRETE_INPUTS))
            .byte(4)
            .bytes(&[0xCD, 0x6B, 0xB2, 0x7F])
            .finalise()
            .0
            .raw_bytes()
            .to_vec(),
        build_frame(&mut buf)
            .for_address(0x11)
            .function(Function(function::READ_HOLDING_REGISTERS))
            .byte(6)
            .registers(&[0xAE41, 0x5652, 0x4340])
            .finalise()
            .0
            .raw_bytes()
            .to_vec(),
        build_frame(&mut buf)
            .for_address(0x11)
            .function(Function(function::READ_INPUT_REGISTERS))
            .byte(6)
            .registers(&[0xAE41, 0x5652, 0x4340])
            .finalise()
            .0
            .raw_bytes()
            .to_vec(),
        build_frame(&mut buf)
            .for_address(0x11)
            .function(Function(function::WRITE_COIL))
            .registers(&[0xAC, COIL_ON])
            .finalise()
            .0
            .raw_bytes()
            .to_vec(),
        build_frame(&mut buf)
            .for_address(0x11)
            .function(Function(function::WRITE_HOLDING_REGISTER))
            .registers(&[1, 3])
            .finalise()
            .0
            .raw_bytes()
            .to_vec(),
        build_frame(&mut buf)
            .for_address(0xB)
            .function(Function(function::WRITE_MULTIPLE_COILS))
            .registers(&[27, 9])
            .finalise()
            .0
            .raw_bytes()
            .to_vec(),
        build_frame(&mut buf)
            .for_address(0x11)
            .function(Function(function::WRITE_MULTIPLE_HOLDING_REGISTERS))
            .registers(&[1, 2])
            .finalise()
            .0
            .raw_bytes()
            .to_vec(),
    ];
    let result = responses
        .into_iter()
        .map(|bytes| {
            let byte = CommonResponses::try_from_bytes(bytes.as_slice()).unwrap();
            let frame = Frame::new_unchecked(&bytes);
            let frame = CommonResponses::try_from(frame).unwrap();
            [format!("{:?}", byte), format!("{:?}", frame)]
        })
        .collect::<Vec<_>>();
    println!("{:?}", result);
}

#[test]
fn dispatch_unknown_function() {
    let mut buf = [0u8; 16];
    let (frame, _rem) = build_frame(&mut buf)
        .for_address(1)
        .function(Function(0x2B))
        .registers(&[1, 2])
        .finalise();
    assert_eq!(CommonRequests::try_from(frame), Err(Error::UnknownFunction));
    assert_eq!(CommonResponses::try_from(frame), Err(Error::UnknownFunction));
}

#[test]
fn dispatch_picks_variant() {
    let bytes = [0x11u8, 0x03, 0x00, 0x6B, 0x00, 0x03, 0x76, 0x87];
    let decoded = CommonRequests::try_from_bytes(&bytes).unwrap();
    assert!(matches!(decoded, CommonRequests::ReadHoldingRegisters(_)));
    assert_eq!(decoded.as_frame().raw_bytes(), bytes);
    assert_eq!(CommonRequests::try_from_bytes(&bytes[..3]), Err(Error::InvalidLength));
}
