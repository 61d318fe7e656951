use daly_bms::cli::{parse_raw_command, probe_decode, HexError, ProbeDetail, RawCommandError};
use daly_bms::protocol::{checksum, DataId};

#[test]
fn raw_command_with_data() {
    let (cmd, data) = parse_raw_command("A5 40 DA 08 01 00 00 00 00 00 00 00 C8").unwrap();
    assert_eq!(cmd, DataId::SetChargeMos);
    assert_eq!(data, [1, 0, 0, 0, 0, 0, 0, 0]);
}

#[test]
fn raw_command_short_frame_has_zero_data() {
    let (cmd, data) = parse_raw_command("A54090").unwrap();
    assert_eq!(cmd, DataId::PackStatus);
    assert_eq!(data, [0; 8]);
}

#[test]
fn raw_command_errors() {
    assert_eq!(parse_raw_command("A540"), Err(RawCommandError::TooShort));
    assert_eq!(parse_raw_command("A5409"), Err(RawCommandError::InvalidHex(HexError::OddLength)));
    assert_eq!(
        parse_raw_command("A5 4G 90"),
        Err(RawCommandError::InvalidHex(HexError::InvalidHexCharacter { c: 'G', index: 3 }))
    );
    assert_eq!(parse_raw_command("A54042"), Err(RawCommandError::UnknownDataId(0x42)));
}

fn frame(cmd: u8, data: [u8; 8]) -> Vec<u8> {
    let mut v = vec![0xA5, 0x01, cmd, 0x08];
    v.extend_from_slice(&data);
    let c = checksum(&v);
    v.push(c);
    v
}

#[test]
fn probe_reads_pack_status() {
    let f = frame(0x90, [0x02, 0x0D, 0, 0, 0x75, 0x30, 0x03, 0xE8]);
    let r = probe_decode(&f).unwrap();
    assert_eq!(r.bms_address, 1);
    assert!(r.checksum_ok);
    assert_eq!(r.detail, ProbeDetail::PackStatus { voltage_dv: 525, current_raw: 30000, soc_permille: 1000 });
}

#[test]
fn probe_reads_mos_and_status() {
    let r = probe_decode(&frame(0x93, [1, 1, 0, 5, 0, 5, 0x7E, 0x40])).unwrap();
    assert_eq!(r.detail, ProbeDetail::MosStatus { state: 1, charge_mos: 1, discharge_mos: 0, cycles: 5, capacity_mah: 360_000 });
    let s = probe_decode(&frame(0x94, [16, 4, 1, 0, 0, 0x01, 0x02, 0])).unwrap();
    assert_eq!(s.detail, ProbeDetail::StatusInfo { cells: 16, temp_sensors: 4, charger: 1, load: 0, cycles: 258 });
    let o = probe_decode(&frame(0x97, [0; 8])).unwrap();
    assert_eq!(o.detail, ProbeDetail::Other);
}

#[test]
fn probe_rejects_bad_frames() {
    assert!(probe_decode(&[0xA5, 1, 2]).is_none());
    let mut f = frame(0x90, [0; 8]);
    f[0] = 0x5A;
    assert!(probe_decode(&f).is_none());
    let mut g = frame(0x90, [0; 8]);
    g[12] ^= 0xFF;
    assert!(!probe_decode(&g).unwrap().checksum_ok);
}
