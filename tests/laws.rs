use modbus_frames::ascii::{decode, encode};
use modbus_frames::bits::unpack;
use modbus_frames::builder::build_frame;
use modbus_frames::checksum::calculate_crc16;
use modbus_frames::function::Function;
use modbus_frames::lrc::calculate;
use modbus_frames::{Error, Frame};

fn with_crc(bytes: &[u8]) -> Vec<u8> {
    let mut v = bytes.to_vec();
    v.extend_from_slice(&calculate_crc16(bytes).to_le_bytes());
    v
}

#[test]
fn crc_appended_decodes() {
    for bytes in [vec![1u8, 2], vec![0xFF, 0x00, 0x10], vec![0x11, 0x03, 0x00, 0x6B, 0x00, 0x03]] {
        let framed = with_crc(&bytes);
        let frame = Frame::try_from(&framed[..]).unwrap();
        assert_eq!(frame.raw_bytes(), &framed[..]);
    }
}

#[test]
fn builder_frame_inverse() {
    let payloads: [&[u8]; 3] = [&[], &[0x00, 0x6B, 0x00, 0x03], &[7; 252]];
    for payload in payloads {
        let mut buf = [0u8; 256];
        let (built, _rem) = build_frame(&mut buf)
            .for_address(0x2A)
            .function(Function(0x10))
            .bytes(payload)
            .finalise();
        let frame = Frame::try_from(built.raw_bytes()).unwrap();
        assert_eq!(frame.address(), 0x2A);
        assert_eq!(frame.function(), Function(0x10));
        assert_eq!(frame.payload(), payload);
    }
}

#[test]
fn ascii_inverse() {
    let framed = with_crc(&[0xF7, 0x03, 0x13, 0x89, 0x00, 0x0A]);
    let frame = Frame::try_from(&framed[..]).unwrap();
    let mut text = [0u8; 64];
    let n = encode(&frame, &mut text).raw_bytes().len();
    assert_eq!(&text[..n], b":F7031389000A60\r\n");
    let (message, _rem) = decode(&mut text[..n]);
    let message = message.unwrap();
    assert_eq!(message[0], frame.address());
    assert_eq!(message[1], frame.function().0);
    assert_eq!(&message[2..], frame.payload());
}

#[test]
fn lrc_appended_checks() {
    let message = [0x12u8, 0x34, 0x56, 0x78];
    let lrc = calculate(&message);
    assert_eq!(lrc, 0xEC);
    let total = message.iter().fold(lrc, |a, b| a.wrapping_add(*b));
    assert_eq!(total, 0);
}

#[test]
fn bit_packing_inverse() {
    let bits: Vec<bool> = (0..19).map(|i| i % 3 == 0).collect();
    let mut buf = [0u8; 16];
    let (b, n) = build_frame(&mut buf).for_address(1).function(Function(1)).bits(&bits);
    assert_eq!(n, 19);
    let packed = b.state()[2..].to_vec();
    assert_eq!(packed.len(), 3);
    assert_eq!(packed[2] & 0xF8, 0);
    assert_eq!(unpack(&packed, 19), bits);
}

#[test]
fn frame_of_three_bytes_is_too_short() {
    assert_eq!(Frame::try_from(&[0u8, 1, 2][..]), Err(Error::InvalidLength));
}
