use modbus_frames::builder::build_frame;
use modbus_frames::checksum::{calculate_crc16, verify_crc16};
use modbus_frames::device::Device;
use modbus_frames::frame::validate;
use modbus_frames::function::{self, Function};
use modbus_frames::{Error, Frame};

#[test]
fn frame_test_frame_views() {
    let test_data = [0, 1, 2, 3, 4, 5, 6, 7, 8, 9, 116, 69];
    let frame = Frame::new_unchecked(&test_data);
    assert_eq!(frame.address(), 0);
    assert_eq!(frame.device(), Device::new(0));
    assert_eq!(frame.function(), Function(1));
    assert_eq!(frame.payload(), [2, 3, 4, 5, 6, 7, 8, 9]);
    assert_eq!(frame.raw_bytes(), test_data);
    assert_eq!(frame.raw_bytes(), frame.rtu_bytes().iter().copied().collect::<Vec<_>>());
    assert_eq!(frame.crc_bytes(), [116, 69]);
    assert_eq!(frame.crc_bytes(), frame.calculate_crc().to_le_bytes());
    assert_eq!(frame.crc(), frame.calculate_crc());
}

#[test]
fn test_decode_from_bytes() {
    let bytes: &[u8] = &[0x11, 0x03, 0x00, 0x6B, 0x00, 0x03, 0x76, 0x87];
    let frame = Frame::try_from(bytes).unwrap();
    assert_eq!(frame.address(), 0x11);
    assert_eq!(frame.function(), Function(function::READ_HOLDING_REGISTERS));
    assert_eq!(frame.payload(), [0x00, 0x6B, 0x00, 0x03]);
    assert_eq!(frame.calculate_crc().to_le_bytes(), frame.crc_bytes());
    assert_eq!(frame.raw_bytes(), bytes);
}

#[test]
fn crc_calculation() {
    let message = [0x11_u8, 0x06, 0x00, 0x01, 0x00, 0x03, 0x9A, 0x9B];
    let crc_idx = message.len() - 2;
    assert_eq!(
        calculate_crc16(&message[..crc_idx]),
        u16::from_le_bytes([0x9A, 0x9B])
    );
    assert!(verify_crc16(&message));
}

#[test]
fn builder_test_builder() {
    let mut buff = [0u8; 20];
    let frame = build_frame(&mut buff);
    assert_eq!(0, frame.bytes_consumed());
    assert_eq!(20, frame.bytes_remaining());
    let frame = frame.for_address(123);
    assert_eq!(1, frame.bytes_consumed());
    assert_eq!(19, frame.bytes_remaining());
    let frame = frame.function(Function(213));
    assert_eq!(2, frame.bytes_consumed());
    assert_eq!(18, frame.bytes_remaining());
    let frame = frame.count_following_bytes(|builder| {
        builder.byte(1).register(4).bytes(&[2, 3]).registers(&[5, 6])
    });
    assert_eq!(12, frame.bytes_consumed());
    assert_eq!(8, frame.bytes_remaining());
    let (frame, _remainder) = frame.finalise();
    assert_eq!(14, frame.raw_bytes().len());
    assert_eq!(123, frame.address());
    assert_eq!(Function(213), frame.function());
    assert_eq!([9, 1, 0, 4, 2, 3, 0, 5, 0, 6], frame.payload());
    let frame_crc = frame.calculate_crc();
    let crc = calculate_crc16(&buff[..12]);
    assert_eq!(crc, frame_crc);
}

#[test]
fn frame_test_builder() {
    let mut buff = [0u8; 20];
    let frame = build_frame(&mut buff);
    assert_eq!(0, frame.bytes_consumed());
    assert_eq!(20, frame.bytes_remaining());
    let frame = frame.for_address(Device::new(123).address());
    assert_eq!(1, frame.bytes_consumed());
    assert_eq!(19, frame.bytes_remaining());
    let frame = frame.function(Function(213));
    assert_eq!(2, frame.bytes_consumed());
    assert_eq!(18, frame.bytes_remaining());
    let frame = frame.byte(1).register(4).bytes(&[2, 3]).registers(&[5, 6]);
    assert_eq!(11, frame.bytes_consumed());
    assert_eq!(9, frame.bytes_remaining());
    let (frame, _remainder) = frame.finalise();
    assert_eq!(13, frame.raw_bytes().len());
    assert_eq!(Device::new(123), frame.device());
    assert_eq!(Function(213), frame.function());
    assert_eq!([1, 0, 4, 2, 3, 0, 5, 0, 6], frame.payload());
    let frame_crc = frame.crc();
    let crc = calculate_crc16(&buff[..11]);
    assert_eq!(crc, frame_crc);
}

#[test]
fn count_registers() {
    let mut buff = [0; 20];
    let registers = [1, 2, 3];
    let (frame, _remainder) = build_frame(&mut buff)
        .for_address(1)
        .function(Function(1))
        .register(0)
        .count_registers(&registers)
        .finalise();
    assert_eq!(frame.payload().len(), 11);
    assert_eq!(frame.payload()[4], 6);
    assert_eq!(frame.payload()[2..4], [0, 3]);
    let p = frame.payload();
    let decoded: Vec<u16> = p[5..11]
        .chunks(2)
        .map(|c| u16::from_be_bytes([c[0], c[1]]))
        .collect();
    assert_eq!(decoded, registers);
}

#[test]
fn count_bits() {
    let mut buff = [0; 20];
    let encoding = [0x62u8, 0xA];
    let bits: Vec<bool> = encoding
        .iter()
        .flat_map(|b| {
            [
                b & 0x01 == 0x01,
                b & 0x02 == 0x02,
                b & 0x04 == 0x04,
                b & 0x08 == 0x08,
                b & 0x10 == 0x10,
                b & 0x20 == 0x20,
                b & 0x40 == 0x40,
                b & 0x80 == 0x80,
            ]
        })
        .take(10)
        .collect();
    let (frame, _remainder) = build_frame(&mut buff)
        .for_address(1)
        .function(Function(1))
        .register(0)
        .count_bits(&bits)
        .finalise();
    assert_eq!(frame.payload().len(), 7);
    assert_eq!(frame.payload()[4], 2);
    assert_eq!(frame.payload()[2..4], [0, 10]);
    assert_eq!(frame.payload()[5..7], [0x62, 0x02]);
}

#[test]
fn device_test_new_device() {
    for address in 1..255 {
        let device_1 = Device::new(address);
        assert_eq!(device_1.address(), address);
    }
}

fn check_validate_lengths() {
    const MAX_LEN: usize = 300;
    const TEST_ADDRESS: u8 = 2;
    let mut msg_buffer = [0u8; MAX_LEN];
    for len in 0..MAX_LEN {
        let msg = &mut msg_buffer[0..len];
        match len {
            0..=3 => {
                assert!(Err(Error::InvalidLength) == validate(msg));
            }
            _ => {
                msg[0] = TEST_ADDRESS;
                msg[1] = len as u8;
                msg[2..]
                    .iter_mut()
                    .enumerate()
                    .for_each(|(i, v)| *v = i as u8);
                assert!(Err(Error::InvalidChecksum) == validate(msg));
                let data_len = msg.len() - 2;
                let msg_crc_bytes = calculate_crc16(&msg[0..data_len]).to_le_bytes();
                msg[data_len] = msg_crc_bytes[0];
                msg[data_len + 1] = msg_crc_bytes[1];
                assert!(Ok(()) == validate(msg));
            }
        }
    }
}

#[test]
fn frame_test_device_validate_msg() {
    check_validate_lengths();
}

#[test]
fn mod_test_device_validate_msg() {
    check_validate_lengths();
}

#[test]
fn build_register_frame_bytes() {
    let mut buff = [0u8; 20];
    let (frame, rem) = build_frame(&mut buff)
        .for_address(1)
        .function(Function(2))
        .register(3)
        .finalise();
    assert_eq!(frame.raw_bytes(), [1, 2, 0, 3, 224, 25]);
    assert_eq!(frame.payload(), [0, 3]);
    assert_eq!(rem.len(), 14);
}

#[test]
fn frame_errors() {
    assert_eq!(Frame::try_from(&[1u8, 2, 3][..]), Err(Error::InvalidLength));
    assert_eq!(
        Frame::try_from(&[0x11u8, 0x03, 0x00, 0x6B, 0x00, 0x03, 0x76, 0x88][..]),
        Err(Error::InvalidChecksum)
    );
    assert!(!verify_crc16(&[1, 2, 3]));
}

#[test]
fn frame_single_bit_flips_fail() {
    let good = [0x11u8, 0x03, 0x00, 0x6B, 0x00, 0x03, 0x76, 0x87];
    for p in 0..good.len() {
        for k in 0..8 {
            let mut bad = good;
            bad[p] ^= 1 << k;
            assert_eq!(Frame::try_from(&bad[..]), Err(Error::InvalidChecksum));
        }
    }
}

#[test]
fn test_device_decode_frame() {
    let test_device = Device::new(2);
    const MAX_LEN: usize = 300;
    let mut msg_buffer = [0u8; MAX_LEN];
    for len in 0..MAX_LEN {
        let msg = &mut msg_buffer[0..len];
        match len {
            0..=3 => {
                assert!(Err(Error::InvalidLength) == test_device.decode(msg));
            }
            4..=256 => {
                msg[1] = len as u8;
                msg[2..]
                    .iter_mut()
                    .enumerate()
                    .for_each(|(i, v)| *v = i as u8);
                assert!(Err(Error::InvalidChecksum) == test_device.decode(msg));
                msg[0] = !test_device.address();
                let data_len = msg.len() - 2;
                let msg_crc_bytes = calculate_crc16(&msg[0..data_len]).to_le_bytes();
                msg[data_len] = msg_crc_bytes[0];
                msg[data_len + 1] = msg_crc_bytes[1];
                assert!(Err(Error::OtherAddress) == test_device.decode(msg));
                msg[0] = test_device.address();
                let msg_crc_bytes = calculate_crc16(&msg[0..data_len]).to_le_bytes();
                msg[data_len] = msg_crc_bytes[0];
                msg[data_len + 1] = msg_crc_bytes[1];
                let success = test_device.decode(msg);
                assert!(success.is_ok());
                assert!(Frame::try_from(&msg[..]) == success);
            }
            _ => {
                assert!(Err(Error::InvalidLength) == test_device.decode(msg));
            }
        }
    }
}

#[test]
fn finalise_leaves_the_rest_of_the_buffer() {
    let mut buff = [0xAAu8; 12];
    let (frame, rem) = build_frame(&mut buff)
        .for_address(1)
        .function(Function(2))
        .register(3)
        .finalise();
    assert_eq!(frame.raw_bytes(), [1, 2, 0, 3, 224, 25]);
    assert_eq!(rem, [0xAA; 6]);
    let mut buff = [0x55u8; 9];
    let (ex, rem) = build_frame(&mut buff)
        .for_address(1)
        .exception(Function(3), modbus_frames::Exception(2));
    assert_eq!(ex.function(), Function(0x83));
    assert_eq!(rem, [0x55; 4]);
}

#[test]
fn device_decode_checks_address() {
    let bytes = [0x11u8, 0x03, 0x00, 0x6B, 0x00, 0x03, 0x76, 0x87];
    assert!(Device::new(0x11).decode(&bytes).is_ok());
    assert_eq!(Device::new(0x12).decode(&bytes), Err(Error::OtherAddress));
    assert_eq!(Device::new(0x11).decode(&bytes[..3]), Err(Error::InvalidLength));
}

#[test]
fn response_exception_sets_top_bit() {
    let bytes = [0x11u8, 0x03, 0x00, 0x6B, 0x00, 0x03, 0x76, 0x87];
    let frame = Frame::try_from(&bytes[..]).unwrap();
    let mut out = [0u8; 10];
    let (ex, rem) = frame.response_exception(&mut out, modbus_frames::Exception(2));
    assert_eq!(ex.address(), 0x11);
    assert_eq!(ex.function(), Function(0x83));
    assert_eq!(ex.payload(), [2]);
    assert!(verify_crc16(ex.raw_bytes()));
    assert_eq!(rem.len(), 5);
}
