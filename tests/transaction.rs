use modbus_frames::checksum::calculate_crc16;
use modbus_frames::exception::{self, Exception};
use modbus_frames::transaction::{
    read_holding_registers, read_input_registers, write_holding_register, write_holding_registers,
};
use modbus_frames::Frame;

fn framed(bytes: &[u8]) -> Vec<u8> {
    let mut v = bytes.to_vec();
    v.extend_from_slice(&calculate_crc16(bytes).to_le_bytes());
    v
}

const RHR: u8 = 3;
const RIR: u8 = 4;

#[test]
fn read_holding_registers_test_request_impl() {
    let payload = framed(&[0x00, RHR, 0x45, 0x59, 0x00, 0x31]);
    let frame = Frame::try_from(&payload[..]).unwrap();
    let req = read_holding_registers::Request::parse_from(frame).unwrap();
    assert_eq!(req.address(), 0x4559);
    assert_eq!(req.register_count(), 0x0031);
    let payload = framed(&[0x00, RHR, 0x45, 0x59, 0x00, 126]);
    let frame = Frame::try_from(&payload[..]).unwrap();
    assert_eq!(
        read_holding_registers::Request::parse_from(frame),
        Err(Some(Exception(exception::ILLEGAL_DATA)))
    );
    let payload = framed(&[0x00, RHR, 0x45, 0x59, 0x00]);
    let frame = Frame::try_from(&payload[..]).unwrap();
    assert_eq!(read_holding_registers::Request::parse_from(frame), Err(None));
    let payload = framed(&[0x00, RHR, 0x45, 0x59, 0x00, 0x00, 0x00]);
    let frame = Frame::try_from(&payload[..]).unwrap();
    assert_eq!(read_holding_registers::Request::parse_from(frame), Err(None));
    let payload = framed(&[0x00, RHR + 1, 0x45, 0x59, 0x00, 0x00, 0x00]);
    let frame = Frame::try_from(&payload[..]).unwrap();
    assert_eq!(
        read_holding_registers::Request::parse_from(frame),
        Err(Some(Exception(exception::ILLEGAL_FUNCTION)))
    );
}

#[test]
fn read_holding_registers_test_response_impl() {
    let payload = framed(&[0x00, RHR, 4, 0x59, 0x00, 0x31, 0x01]);
    let frame = Frame::try_from(&payload[..]).unwrap();
    let req = read_holding_registers::Response::parse_from(frame).unwrap();
    assert_eq!(req.num_data_bytes(), 4);
    assert_eq!(req.register_count(), 2);
    let registers: Vec<_> = req.registers().collect();
    assert_eq!(registers, [0x5900, 0x3101]);
    let payload = framed(&[0x00, RHR + 1, 4, 0x59, 0x00, 0x31, 0x01]);
    let frame = Frame::try_from(&payload[..]).unwrap();
    assert_eq!(
        read_holding_registers::Response::parse_from(frame),
        Err(Some(Exception(exception::ILLEGAL_FUNCTION)))
    );
    let payload = framed(&[0x00, 0x80 | RHR, exception::DEVICE_FAILURE]);
    let frame = Frame::try_from(&payload[..]).unwrap();
    assert_eq!(
        read_holding_registers::Response::parse_from(frame),
        Err(Some(Exception(exception::DEVICE_FAILURE)))
    );
    let payload = framed(&[0x00, RHR, 4, 0x00, 0x00]);
    let frame = Frame::try_from(&payload[..]).unwrap();
    assert_eq!(read_holding_registers::Response::parse_from(frame), Err(None));
}

#[test]
fn read_holding_registers_test_request_build_response() {
    let payload = framed(&[0x00, RHR, 0x45, 0x59, 0x00, 0x0A]);
    let frame = Frame::try_from(&payload[..]).unwrap();
    let req = read_holding_registers::Request::parse_from(frame).unwrap();
    let mut response_buffer = [0; 30];
    let regs = [0, 1, 2, 3, 4, 5, 6, 7, 8, 9];
    let response = req.build_response_from_regs(&mut response_buffer, frame.device(), &regs);
    assert_eq!(
        &[0, 3, 20, 0, 0, 0, 1, 0, 2, 0, 3, 0, 4, 0, 5, 0, 6, 0, 7, 0, 8, 0, 9, 0, 205][..],
        response.rtu_bytes().to_vec()
    );
}

#[test]
fn read_input_registers_test_request_impl() {
    let payload = framed(&[0x00, RIR, 0x45, 0x59, 0x00, 0x31]);
    let frame = Frame::try_from(&payload[..]).unwrap();
    let req = read_input_registers::Request::parse_from(frame).unwrap();
    assert_eq!(req.first_register(), 0x4559);
    assert_eq!(req.register_count(), 0x0031);
    let payload = framed(&[0x00, RIR, 0x45, 0x59, 0x00, 126]);
    let frame = Frame::try_from(&payload[..]).unwrap();
    assert_eq!(read_input_registers::Request::parse_from(frame), Err(Exception(exception::ILLEGAL_DATA)));
    let payload = framed(&[0x00, RIR, 0x45, 0x59, 0x00]);
    let frame = Frame::try_from(&payload[..]).unwrap();
    assert_eq!(read_input_registers::Request::parse_from(frame), Err(Exception(exception::ILLEGAL_DATA)));
    let payload = framed(&[0x00, RIR, 0x45, 0x59, 0x00, 0x00, 0x00]);
    let frame = Frame::try_from(&payload[..]).unwrap();
    assert_eq!(read_input_registers::Request::parse_from(frame), Err(Exception(exception::ILLEGAL_DATA)));
    let payload = framed(&[0x00, RIR + 1, 0x45, 0x59, 0x00, 0x00, 0x00]);
    let frame = Frame::try_from(&payload[..]).unwrap();
    assert_eq!(
        read_input_registers::Request::parse_from(frame),
        Err(Exception(exception::ILLEGAL_FUNCTION))
    );
}

#[test]
fn read_input_registers_test_response_impl() {
    let payload = framed(&[0x00, RIR, 4, 0x59, 0x00, 0x31, 0x01]);
    let frame = Frame::try_from(&payload[..]).unwrap();
    let req = read_input_registers::Response::parse_from(frame).unwrap();
    assert_eq!(req.num_data_bytes(), 4);
    assert_eq!(req.register_count(), 2);
    let registers: Vec<_> = req.registers().collect();
    assert_eq!(registers, [0x5900, 0x3101]);
    let payload = framed(&[0x00, RIR + 1, 4, 0x59, 0x00, 0x31, 0x01]);
    let frame = Frame::try_from(&payload[..]).unwrap();
    assert_eq!(
        read_input_registers::Response::parse_from(frame),
        Err(Exception(exception::ILLEGAL_FUNCTION))
    );
    let payload = framed(&[0x00, 0x80 | RIR, exception::DEVICE_FAILURE]);
    let frame = Frame::try_from(&payload[..]).unwrap();
    assert_eq!(
        read_input_registers::Response::parse_from(frame),
        Err(Exception(exception::DEVICE_FAILURE))
    );
    let payload = framed(&[0x00, RIR, 4, 0x00, 0x00]);
    let frame = Frame::try_from(&payload[..]).unwrap();
    assert_eq!(read_input_registers::Response::parse_from(frame), Err(Exception(exception::ILLEGAL_DATA)));
}

#[test]
fn read_input_registers_test_request_build_response() {
    let payload = framed(&[0x00, RIR, 0x45, 0x59, 0x00, 0x0A]);
    let frame = Frame::try_from(&payload[..]).unwrap();
    let req = read_input_registers::Request::parse_from(frame).unwrap();
    let mut response_buffer = [0; 30];
    let regs = [0, 1, 2, 3, 4, 5, 6, 7, 8, 9];
    let response = req.build_response_from_regs(&mut response_buffer, frame.device(), &regs);
    assert_eq!(
        &[0, RIR, 20, 0, 0, 0, 1, 0, 2, 0, 3, 0, 4, 0, 5, 0, 6, 0, 7, 0, 8, 0, 9, 54, 43][..],
        response.rtu_bytes().to_vec()
    );
}

#[test]
fn write_holding_register_round_trip() {
    let payload = framed(&[0x11, 6, 0x00, 0x01, 0x00, 0x03]);
    let frame = Frame::try_from(&payload[..]).unwrap();
    let req = write_holding_register::Request::parse_from(frame).unwrap();
    assert_eq!(req.register_location(), 1);
    assert_eq!(req.register_value(), 3);
    assert_eq!(req.registers().collect(), [3]);
    let mut out = [0u8; 8];
    let resp = req.build_response(&mut out, req.device());
    assert_eq!(resp.raw_bytes(), [0x11, 6, 0x00, 0x01, 0x00, 0x03, 0x9A, 0x9B]);
    let parsed = write_holding_register::Response::parse_from(resp).unwrap();
    assert_eq!(parsed.address(), 1);
    assert_eq!(parsed.value(), 3);
    let short = framed(&[0x11, 6, 0x00, 0x01, 0x00]);
    let frame = Frame::try_from(&short[..]).unwrap();
    assert_eq!(write_holding_register::Request::parse_from(frame), Err(Exception(exception::ILLEGAL_DATA)));
}

#[test]
fn write_holding_registers_round_trip() {
    let payload = framed(&[0x11, 0x10, 0x00, 0x01, 0x00, 0x02, 0x04, 0x00, 0x0A, 0x01, 0x02]);
    let frame = Frame::try_from(&payload[..]).unwrap();
    let req = write_holding_registers::Request::parse_from(frame).unwrap();
    assert_eq!(req.address(), 1);
    assert_eq!(req.register_count(), 2);
    assert_eq!(req.data_byte_count(), 4);
    assert_eq!(req.registers().collect(), [0x000A, 0x0102]);
    let mut out = [0u8; 8];
    let resp = req.build_response(&mut out, frame.device());
    let parsed = write_holding_registers::Response::parse_from(resp).unwrap();
    assert_eq!(parsed.address(), 1);
    assert_eq!(parsed.register_count(), 2);
    let mismatch = framed(&[0x11, 0x10, 0x00, 0x01, 0x00, 0x03, 0x04, 0x00, 0x0A, 0x01, 0x02]);
    let frame = Frame::try_from(&mismatch[..]).unwrap();
    assert_eq!(
        write_holding_registers::Request::parse_from(frame),
        Err(Exception(exception::ILLEGAL_DATA))
    );
    let ex = framed(&[0x11, 0x90, exception::ILLEGAL_ADDRESS]);
    let frame = Frame::try_from(&ex[..]).unwrap();
    assert_eq!(
        write_holding_registers::Response::parse_from(frame),
        Err(Exception(exception::ILLEGAL_ADDRESS))
    );
}
