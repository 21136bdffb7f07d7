use modbus_frames::ascii::{decode, encode, from_hex, AsBytesIter, ASCII};
use modbus_frames::bits::unpack;
use modbus_frames::builder::build_frame;
use modbus_frames::function::{self, Function};
use modbus_frames::lrc::calculate;
use modbus_frames::registers::Registers;
use modbus_frames::{Error, Frame};

#[test]
fn test_write_hex() {
    let mut buffer = [0u8; 10];
    let mut ascii = ASCII::new(&mut buffer[..]);
    ascii.write_hex(0x7A);
    assert_eq!(ascii.text()[0], b'7');
    assert_eq!(ascii.text()[1], b'A');
    assert_eq!(ascii.bytes_consumed(), 2);
}

#[test]
fn test_encode() {
    let mut buffer = [0u8; 20];
    let mut ascii = ASCII::new(&mut buffer[..]);
    ascii.init();
    ascii.write_bytes(&[0x12, 0x34]);
    ascii.write_registers(&[0x5678]);
    let frame = ascii.finalise();
    assert_eq!(frame.raw_bytes(), b":12345678EC\r\n");
}

#[test]
fn test_from_hex() {
    let inp = b"1D";
    assert_eq!(0x1D, from_hex(inp));
}

#[test]
fn test_ascii_as_bytes() {
    let mut buffer = [0; 20];
    let (frame, _rem) = build_frame(&mut buffer)
        .for_address(0xF7)
        .function(Function(function::READ_HOLDING_REGISTERS))
        .bytes(&[19, 137, 0, 10])
        .finalise();
    let iter = AsBytesIter::new(frame);
    let bytes: Vec<_> = iter.collect();
    assert_eq!(bytes, b":F7031389000A60\r\n");
}

#[test]
fn test_lrc() {
    let data = [247, 3, 19, 137, 0, 10];
    let lrc = calculate(&data);
    assert_eq!(96, lrc);
}

#[test]
fn test_ascii_decode() {
    let mut ascii = [
        b':', b'F', b'7', b'0', b'3', b'1', b'3', b'8', b'9', b'0', b'0', b'0', b'A', b'6', b'0',
        b'\r', b'\n',
    ];
    let expected_len = 6;
    let expexted_rem = ascii.len() - expected_len;
    let (decoded, remainder) = decode(&mut ascii);
    assert_eq!(remainder.len(), expexted_rem);
    let decoded = decoded.unwrap();
    assert_eq!(decoded, &[0xF7, 0x3, 0x13, 0x89, 0x0, 0xA]);
}

#[test]
fn test_register_iter() {
    let buff = [0x00, 0x03, 0x51, 0x87, 0x20, 0x75, 0x71];
    let iter = Registers::create(&buff[..]);
    let regs: Vec<_> = iter.collect();
    assert_eq!(regs, [0x0003, 0x5187, 0x2075]);
}

#[test]
fn ascii_encode_frame_scenario() {
    let mut buffer = [0; 20];
    let (frame, _rem) = build_frame(&mut buffer)
        .for_address(0xF7)
        .function(Function(3))
        .bytes(&[0x13, 0x89, 0x00, 0x0A])
        .finalise();
    let mut out = [0u8; 40];
    let text = frame.ascii_bytes(&mut out);
    assert_eq!(text.raw_bytes(), b":F7031389000A60\r\n");
    assert_eq!(text.device().address(), 0xF7);
    assert_eq!(text.function(), Function(3));
    assert_eq!(text.lrc(), 0x60);
    assert_eq!(text.payload(), b"1389000A");
}

#[test]
fn ascii_round_trip() {
    let bytes = [0x11u8, 0x03, 0x00, 0x6B, 0x00, 0x03, 0x76, 0x87];
    let frame = Frame::try_from(&bytes[..]).unwrap();
    let mut out = [0u8; 40];
    let n = encode(&frame, &mut out).raw_bytes().len();
    let (decoded, rem) = decode(&mut out[..n]);
    assert_eq!(decoded.unwrap(), &bytes[..6]);
    assert_eq!(rem.len(), n - 6);
}

#[test]
fn ascii_decode_remainder() {
    let mut ascii = *b":F7031389000A60\r\n";
    let (decoded, remainder) = decode(&mut ascii);
    assert_eq!(decoded.unwrap(), &[0xF7, 0x3, 0x13, 0x89, 0x0, 0xA]);
    assert_eq!(remainder[0], 0x60);
    assert_eq!(&remainder[1..], b"89000A60\r\n");
}

#[test]
fn ascii_decode_errors() {
    let mut short = *b":F703\r\n";
    assert_eq!(decode(&mut short).0, Err(Error::InvalidLength));
    let mut no_start = *b"F7031389000A60\r\n";
    assert_eq!(decode(&mut no_start[..]).0.err(), Some(Error::InvalidEncoding));
    let mut bad_end = *b":F7031389000A60\r\r";
    assert_eq!(decode(&mut bad_end).0, Err(Error::InvalidEncoding));
    let mut lower = *b":F7031389000a60\r\n";
    assert_eq!(decode(&mut lower).0, Err(Error::InvalidEncoding));
    let mut odd = *b":F7031389000A600\r\n";
    assert_eq!(decode(&mut odd).0, Err(Error::InvalidEncoding));
    let mut bad_digit_odd = *b":0102G01\r\n";
    assert_eq!(decode(&mut bad_digit_odd).0, Err(Error::InvalidEncoding));
    let mut bad_digit_even = *b":0102G0\r\n";
    let (r, rem) = decode(&mut bad_digit_even);
    assert_eq!(r, Err(Error::InvalidEncoding));
    assert_eq!(rem, b":0102G0\r\n");
    let mut bad_lrc = *b":F7031389000A61\r\n";
    let (r, rem) = decode(&mut bad_lrc);
    assert_eq!(r, Err(Error::InvalidChecksum));
    assert_eq!(rem.len(), 17);
}

#[test]
fn lrc_single_bit_flips_fail() {
    let message = [0xF7u8, 0x03, 0x13, 0x89, 0x00, 0x0A];
    let lrc = calculate(&message);
    let mut full = message.to_vec();
    full.push(lrc);
    for p in 0..full.len() {
        for k in 0..8 {
            let mut bad = full.clone();
            bad[p] ^= 1 << k;
            let n = bad.len();
            assert_ne!(calculate(&bad[..n - 1]), bad[n - 1]);
        }
    }
}

#[test]
fn unpack_pack_scenario() {
    let bits = [true, false, true, true, false, false, true, false, true];
    let mut buff = [0u8; 20];
    let (b, n) = build_frame(&mut buff).for_address(1).function(Function(15)).bits(&bits);
    assert_eq!(n, 9);
    let written = b.state().to_vec();
    assert_eq!(&written[2..], &[0x4D, 0x01]);
    assert_eq!(unpack(&written[2..], 9), bits.to_vec());
}

#[test]
fn pack_edge_cases() {
    let mut buff = [0u8; 8];
    let (b, n) = build_frame(&mut buff).for_address(1).function(Function(1)).bits(&[]);
    assert_eq!(n, 0);
    assert_eq!(b.bytes_consumed(), 2);
    let mut buff = [0u8; 8];
    let eight = [true; 8];
    let (b, n) = build_frame(&mut buff).for_address(1).function(Function(1)).bits(&eight);
    assert_eq!(n, 8);
    assert_eq!(&b.state()[2..], &[0xFF]);
}
