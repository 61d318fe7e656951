use daly_bms::protocol::{checksum, pc_address_for, DataId, RequestFrame, ResponseFrame, DATA_LEN, START_FLAG};
use daly_bms::error::DalyError;

#[test]
fn test_checksum_pack_status() {
    let req = RequestFrame::read(0x01, DataId::PackStatus);
    let expected = checksum(&req.bytes[..12]);
    assert_eq!(req.bytes[12], expected);
}

#[test]
fn test_request_frame_checksum() {
    let frame = RequestFrame::read(0x01, DataId::PackStatus);
    assert_eq!(frame.bytes[0], START_FLAG);
    assert_eq!(frame.bytes[1], 0x40);
    assert_eq!(frame.bytes[2], 0x90);
    assert_eq!(frame.bytes[3], DATA_LEN);
    assert_eq!(frame.bytes[4], 0x00);
    assert_eq!(frame.bytes[12], 0x7D);

    let frame2 = RequestFrame::read(0x02, DataId::PackStatus);
    assert_eq!(frame2.bytes[1], 0x41);
    assert_eq!(frame2.bytes[4], 0x00);
    assert_eq!(frame2.bytes[12], 0x7E);
}

#[test]
fn test_pc_address_for() {
    assert_eq!(pc_address_for(1), 0x40);
    assert_eq!(pc_address_for(2), 0x41);
    assert_eq!(pc_address_for(3), 0x42);
}

#[test]
fn checksum_is_low_byte_of_sum() {
    assert_eq!(checksum(&[]), 0);
    assert_eq!(checksum(&[0xA5, 0x40, 0x90, 0x08]), 0x7D);
    assert_eq!(checksum(&[0xFF, 0xFF]), 0xFE);
}

#[test]
fn data_id_round_trip() {
    for v in 0u16..=255 {
        let v = v as u8;
        if let Some(id) = DataId::from_u8(v) {
            assert_eq!(id.code(), v);
        }
    }
    assert_eq!(DataId::from_u8(0x90), Some(DataId::PackStatus));
    assert_eq!(DataId::from_u8(0x42), None);
}

#[test]
fn write_commands_are_flagged() {
    assert!(DataId::SetChargeMos.is_write());
    assert!(DataId::SetDischargeMos.is_write());
    assert!(DataId::SetSoc.is_write());
    assert!(DataId::Reset.is_write());
    assert!(!DataId::PackStatus.is_write());
}

#[test]
fn write_byte_frame_carries_value() {
    let f = RequestFrame::write_byte(0x01, DataId::SetChargeMos, 1);
    assert_eq!(f.bytes[2], 0xDA);
    assert_eq!(f.bytes[4], 1);
    assert_eq!(f.bytes[12], checksum(&f.bytes[..12]));
    assert_eq!(f.as_bytes().len(), 13);
}

#[test]
fn write_soc_frame_is_big_endian() {
    let f = RequestFrame::write_soc(0x01, 805);
    assert_eq!(f.bytes[2], 0x21);
    assert_eq!(&f.bytes[4..10], &[0, 0, 0, 0, 0, 0]);
    assert_eq!(f.bytes[10], 0x03);
    assert_eq!(f.bytes[11], 0x25);
}

fn answer(addr: u8, cmd: u8, data: [u8; 8]) -> Vec<u8> {
    let mut v = vec![START_FLAG, addr, cmd, DATA_LEN];
    v.extend_from_slice(&data);
    let c = checksum(&v);
    v.push(c);
    v
}

#[test]
fn response_parse_and_validate() {
    let raw = answer(0x01, 0x90, [0x02, 0x0D, 0, 0, 0x75, 0x30, 0x03, 0xE8]);
    let frame = ResponseFrame::parse(&raw).unwrap();
    assert_eq!(frame.address(), 0x01);
    assert_eq!(frame.data_id(), 0x90);
    assert_eq!(frame.data(), [0x02, 0x0D, 0, 0, 0x75, 0x30, 0x03, 0xE8]);
    assert!(frame.validate_for(0x01, DataId::PackStatus).is_ok());
    assert!(matches!(
        frame.validate_for(0x02, DataId::PackStatus),
        Err(DalyError::UnexpectedAddress { expected: 0x02, actual: 0x01 })
    ));
    assert!(matches!(
        frame.validate_for(0x01, DataId::CellVoltageMinMax),
        Err(DalyError::UnexpectedDataId { .. })
    ));
}

#[test]
fn response_parse_errors() {
    assert!(matches!(ResponseFrame::parse(&[0xA5, 0x01]), Err(DalyError::InvalidFrame { len: 2, .. })));
    let mut raw = answer(0x01, 0x90, [0; 8]);
    raw[0] = 0x5A;
    assert!(matches!(ResponseFrame::parse(&raw), Err(DalyError::InvalidStartFlag(0x5A))));
    let mut raw = answer(0x01, 0x90, [0; 8]);
    raw[12] = raw[12].wrapping_add(1);
    assert!(matches!(ResponseFrame::parse(&raw), Err(DalyError::Checksum { .. })));
}
