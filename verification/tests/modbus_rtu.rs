use daly_bms::modbus::{build_fc03, build_fc04, build_fc06, crc16, parse_read_response, regs_to_i32, response_len, ModbusError};

#[test]
fn test_crc16_known_value() {
    let data = [0x01u8, 0x03, 0x00, 0x00, 0x00, 0x01];
    let crc = crc16(&data);
    assert_eq!(crc, 0x840A, "CRC Modbus RTU incorrect");
}

#[test]
fn test_build_fc04_pralran() {
    let frame = build_fc04(0x05, 0x0000, 1);
    assert_eq!(frame[0], 0x05);
    assert_eq!(frame[1], 0x04);
    assert_eq!(frame[2], 0x00);
    assert_eq!(frame[3], 0x00);
    assert_eq!(frame[4], 0x00);
    assert_eq!(frame[5], 0x01);
    let crc = crc16(&frame[..6]);
    assert_eq!(frame[6], crc as u8);
    assert_eq!(frame[7], (crc >> 8) as u8);
}

#[test]
fn test_response_len() {
    assert_eq!(response_len(1), 7);
    assert_eq!(response_len(2), 9);
    assert_eq!(response_len(16), 37);
}

#[test]
fn test_parse_read_response_valid() {
    let value: u16 = 334;
    let data_hi = (value >> 8) as u8;
    let data_lo = value as u8;
    let raw = [0x05u8, 0x04, 0x02, data_hi, data_lo, 0x00, 0x00];
    let mut buf = raw;
    let crc = crc16(&buf[..5]);
    buf[5] = crc as u8;
    buf[6] = (crc >> 8) as u8;

    let regs = parse_read_response(0x05, 0x04, &buf).unwrap();
    assert_eq!(regs.len(), 1);
    assert_eq!(regs[0], 334);
}

#[test]
fn test_parse_read_response_bad_crc() {
    let buf = [0x05u8, 0x04, 0x02, 0x01, 0x4E, 0xFF, 0xFF];
    assert!(parse_read_response(0x05, 0x04, &buf).is_err());
}

#[test]
fn crc16_of_empty_is_initial_value() {
    assert_eq!(crc16(&[]), 0xFFFF);
}

#[test]
fn fc03_and_fc06_frames() {
    let f = build_fc03(0x02, 0x0100, 2);
    assert_eq!(&f[..6], &[0x02, 0x03, 0x01, 0x00, 0x00, 0x02]);
    let crc = crc16(&f[..6]);
    assert_eq!(f[6], crc as u8);
    assert_eq!(f[7], (crc >> 8) as u8);
    let g = build_fc06(0x01, 0x2700, 0x0003);
    assert_eq!(&g[..6], &[0x01, 0x06, 0x27, 0x00, 0x00, 0x03]);
}

fn with_crc(mut v: Vec<u8>) -> Vec<u8> {
    let crc = crc16(&v);
    v.push(crc as u8);
    v.push((crc >> 8) as u8);
    v
}

#[test]
fn parse_read_response_error_kinds() {
    assert_eq!(parse_read_response(5, 4, &[5, 4, 0, 0]), Err(ModbusError::TooShort { len: 4 }));
    let b = with_crc(vec![6, 4, 2, 0, 1]);
    assert_eq!(parse_read_response(5, 4, &b), Err(ModbusError::UnexpectedAddress { expected: 5, actual: 6 }));
    let b = with_crc(vec![5, 0x84, 2]);
    assert_eq!(parse_read_response(5, 4, &b), Err(ModbusError::Exception { fc: 4, code: 2 }));
    let b = with_crc(vec![5, 3, 2, 0, 1]);
    assert_eq!(parse_read_response(5, 4, &b), Err(ModbusError::UnexpectedFunction { expected: 4, actual: 3 }));
    let b = with_crc(vec![5, 4, 4, 0, 1]);
    assert_eq!(
        parse_read_response(5, 4, &b),
        Err(ModbusError::ByteCountMismatch { byte_count: 4, len: 7, expected: 2 })
    );
}

#[test]
fn parse_two_registers_in_order() {
    let b = with_crc(vec![1, 3, 4, 0x12, 0x34, 0xAB, 0xCD]);
    assert_eq!(parse_read_response(1, 3, &b).unwrap(), vec![0x1234, 0xABCD]);
}

#[test]
fn regs_to_i32_low_word_first() {
    assert_eq!(regs_to_i32(0x0001, 0x0000), 1);
    assert_eq!(regs_to_i32(0xFFFF, 0xFFFF), -1);
    assert_eq!(regs_to_i32(0x0000, 0x0001), 65536);
}

#[test]
fn odd_byte_count_is_refused() {
    let mut buf = [0x05u8, 0x04, 0x01, 0x2A, 0x00, 0x00];
    let crc = crc16(&buf[..4]);
    buf[4] = crc as u8;
    buf[5] = (crc >> 8) as u8;
    assert_eq!(parse_read_response(0x05, 0x04, &buf), Err(ModbusError::OddByteCount { byte_count: 1 }));
}
