use daly_bms::text::hex_words;
use daly_bms::chint::{
    build_frame, calculate_crc, check_undervoltage_setting, command_write, decode_baud, decode_operation_mode, decode_parity,
    decode_power_register, decode_source_state, decode_switch_register, model_from_probe, monitor_register, retry_delay_ms,
    any_value_read, model_reading_label, parse_raw_frame, phase_limits_label, reading_label, ReadingUnit, read_answer_value, setting_register, settings_allowed, split_frequencies, status_read_ok, status_register_plan,
    write_answer_ok, AtsCommand, AtsConfig, AtsModel, AtsSetting, OperationMode, Parity, SettingError, SourceState,
    SwitchFault,
};

#[test]
fn ats_crc_is_the_modbus_register() {
    assert_eq!(calculate_crc(&[0x01, 0x03, 0x00, 0x00, 0x00, 0x01]), 0x0A84);
    assert_eq!(calculate_crc(b"123456789"), 0x4B37);
}

#[test]
fn ats_frames() {
    let f = build_frame(6, 0x03, 0x0050, None);
    assert_eq!(f.len(), 8);
    assert_eq!(&f[..6], &[6, 0x03, 0x00, 0x50, 0x00, 0x01]);
    let crc = calculate_crc(&f[..6]);
    assert_eq!((f[6], f[7]), (crc as u8, (crc >> 8) as u8));
    let w = build_frame(6, 0x06, 0x2800, Some(4));
    assert_eq!(&w[..6], &[6, 0x06, 0x28, 0x00, 0x00, 0x04]);
    let bare = build_frame(6, 0x06, 0x2800, None);
    assert_eq!(bare.len(), 6);
}

#[test]
fn model_detection_and_monitoring() {
    assert_eq!(model_from_probe(Some(170)), AtsModel::MN);
    assert_eq!(model_from_probe(None), AtsModel::BN);
    assert_eq!(monitor_register(AtsModel::MN), 0x2065);
    assert_eq!(monitor_register(AtsModel::BN), 0x0050);
}

#[test]
fn retry_delays_double_then_cap() {
    assert_eq!(retry_delay_ms(0), 50);
    assert_eq!(retry_delay_ms(1), 100);
    assert_eq!(retry_delay_ms(4), 800);
    assert_eq!(retry_delay_ms(5), 1600);
    assert_eq!(retry_delay_ms(9), 1600);
}

#[test]
fn source_states() {
    assert_eq!(decode_source_state(0b01 << 8, 8), SourceState::Undervoltage);
    assert_eq!(decode_source_state(0b10 << 2, 2), SourceState::Overvoltage);
    assert_eq!(decode_source_state(0b11, 0), SourceState::Error);
    let (s1, s2) = decode_power_register(0x0100 | 0x0002 << 2);
    assert_eq!(s1, [SourceState::Undervoltage, SourceState::Normal, SourceState::Normal]);
    assert_eq!(s2, [SourceState::Normal, SourceState::Overvoltage, SourceState::Normal]);
}

#[test]
fn switch_register() {
    let s = decode_switch_register(0x0100 | 0x0030 | 0x02 | 0x01);
    assert!(s.switch1_closed && !s.switch2_closed && s.auto_mode && s.remote_enabled);
    assert_eq!(s.fault, SwitchFault::SourceITrip);
    assert_eq!(decode_switch_register(0x0070).fault, SwitchFault::PhaseSequenceII);
    assert_eq!(decode_switch_register(0).fault, SwitchFault::NoFault);
}

#[test]
fn modes_and_link_settings() {
    assert_eq!(decode_operation_mode(2), OperationMode::MutualBackup);
    assert_eq!(decode_operation_mode(9), OperationMode::Unknown);
    assert_eq!(decode_baud(1), Some(9600));
    assert_eq!(decode_baud(4), None);
    assert_eq!(decode_parity(2), Some(Parity::Even));
    assert_eq!(decode_parity(3), None);
    assert_eq!(split_frequencies(0x3232), (50, 50));
    assert_eq!(split_frequencies(0x3C32), (60, 50));
}

#[test]
fn status_plan_depends_on_model() {
    let bn = status_register_plan(AtsModel::BN);
    let mn = status_register_plan(AtsModel::MN);
    assert_eq!(bn.len(), 24);
    assert_eq!(mn.len(), 31);
    assert!(!bn.contains(&0x2065) && mn.contains(&0x2065));
    assert_eq!(bn[0], 0x0006);
    assert_eq!(*bn.last().unwrap(), 0x000E);
    assert!(status_read_ok(&vec![None, Some(3), None]));
    assert!(!status_read_ok(&vec![None, None]));
}

#[test]
fn commands_and_settings() {
    assert_eq!(command_write(AtsCommand::RemoteOn), (0x2800, 0x0004));
    assert_eq!(command_write(AtsCommand::ForceSource2), (0x2700, 0x00AA));
    assert_eq!(setting_register(AtsSetting::Overvoltage2), 0x2068);
    assert!(settings_allowed(AtsModel::MN) && !settings_allowed(AtsModel::BN));
    assert_eq!(check_undervoltage_setting(AtsModel::BN, Some(0x0100), 170), Err(SettingError::NotAvailable));
    assert_eq!(check_undervoltage_setting(AtsModel::MN, Some(0x0000), 170), Err(SettingError::RemoteDisabled));
    assert_eq!(check_undervoltage_setting(AtsModel::MN, None, 170), Err(SettingError::RemoteDisabled));
    assert_eq!(check_undervoltage_setting(AtsModel::MN, Some(0x0100), 149), Err(SettingError::OutOfRange));
    assert_eq!(check_undervoltage_setting(AtsModel::MN, Some(0x0100), 201), Err(SettingError::OutOfRange));
    assert_eq!(check_undervoltage_setting(AtsModel::MN, Some(0x0100), 150), Ok(()));
}

#[test]
fn ats_answers() {
    assert_eq!(read_answer_value(&[6, 0x03, 2, 0x00, 0xAA, 0, 0]), Some(0x00AA));
    assert_eq!(read_answer_value(&[6, 0x83, 2, 0, 0]), None);
    assert_eq!(read_answer_value(&[6, 0x04, 2, 0, 1]), None);
    assert_eq!(read_answer_value(&[6, 0x03, 2, 0]), None);
    assert!(write_answer_ok(&[6, 0x06, 0x28, 0, 0, 4]));
    assert!(!write_answer_ok(&[6, 0x86, 2]));
    assert!(write_answer_ok(&[6]));
    assert!(!write_answer_ok(&[]));
}

#[test]
fn ats_settings_from_environment() {
    let d = AtsConfig::from_values(None, None, None, None, None, None, None);
    assert_eq!(d.port_name, "COM5");
    assert_eq!(d.baud_rate, 9600);
    assert_eq!(d.parity, Parity::Even);
    assert_eq!(d.modbus_addr, 6);
    assert_eq!(d.host, "127.0.0.1");
    assert_eq!(d.port_http, 5000);
    assert!(!d.debug_enabled);
    let s = |v: &str| Some(v.to_string());
    let c = AtsConfig::from_values(s("/dev/ttyUSB1"), s("19200"), s("None"), s("7"), s("0.0.0.0"), s("8081"), s("true"));
    assert_eq!(c.port_name, "/dev/ttyUSB1");
    assert_eq!(c.baud_rate, 19200);
    assert_eq!(c.parity, Parity::NoParity);
    assert_eq!(c.modbus_addr, 7);
    assert_eq!(c.port_http, 8081);
    assert!(c.debug_enabled);
    let bad = AtsConfig::from_values(None, s("fast"), s("Odd"), s("300"), None, s("70000"), s("TRUE"));
    assert_eq!(bad.baud_rate, 9600);
    assert_eq!(bad.parity, Parity::Odd);
    assert_eq!(bad.modbus_addr, 6);
    assert_eq!(bad.port_http, 5000);
    assert!(!bad.debug_enabled);
}

#[test]
fn raw_frames_typed_in_hexadecimal() {
    assert_eq!(parse_raw_frame("01 03 00 4F 00 01"), Some(vec![0x01, 0x03, 0x00, 0x4F, 0x00, 0x01]));
    assert_eq!(parse_raw_frame("  0a\t+ff \n 000B  "), Some(vec![0x0A, 0xFF, 0x0B]));
    assert_eq!(parse_raw_frame(""), Some(vec![]));
    assert_eq!(parse_raw_frame("01 1G"), None);
    assert_eq!(parse_raw_frame("100"), None);
    assert_eq!(parse_raw_frame("+"), None);
    assert_eq!(parse_raw_frame("-1"), None);
    assert_eq!(parse_raw_frame("01,03"), None);
}

#[test]
fn frames_written_in_hexadecimal() {
    assert_eq!(hex_words(&[0x01, 0x0A, 0xFF]), "01 0A FF");
    assert_eq!(hex_words(&[0x00]), "00");
    assert_eq!(hex_words(&[]), "");
}

#[test]
fn raw_frame_read_back_from_its_text() {
    let frame = vec![0x01, 0x03, 0x20, 0x65, 0x00, 0x01, 0x9E, 0x1F];
    assert_eq!(parse_raw_frame(&hex_words(&frame)), Some(frame));
}

#[test]
fn labels_of_register_values() {
    assert_eq!(reading_label(ReadingUnit::Volts, Some(230)), "230 V");
    assert_eq!(reading_label(ReadingUnit::Seconds, Some(5)), "5 s");
    assert_eq!(reading_label(ReadingUnit::Hours, Some(1200)), "1200 h");
    assert_eq!(reading_label(ReadingUnit::Hertz, Some(50)), "50 Hz");
    assert_eq!(reading_label(ReadingUnit::Count, Some(17)), "17");
    assert_eq!(reading_label(ReadingUnit::Version, Some(123)), "1.23");
    assert_eq!(reading_label(ReadingUnit::Version, Some(105)), "1.05");
    assert_eq!(reading_label(ReadingUnit::Version, Some(7)), "0.07");
    assert_eq!(reading_label(ReadingUnit::Version, Some(65535)), "655.35");
    assert_eq!(reading_label(ReadingUnit::Volts, None), "---");
    assert_eq!(model_reading_label(AtsModel::BN, ReadingUnit::Volts, Some(180)), "N/A");
    assert_eq!(model_reading_label(AtsModel::MN, ReadingUnit::Volts, Some(180)), "180 V");
    assert_eq!(model_reading_label(AtsModel::MN, ReadingUnit::Seconds, None), "---");
    assert_eq!(phase_limits_label(Some(260), Some(261), Some(262)), Some("260 V/261 V/262 V".to_string()));
    assert_eq!(phase_limits_label(Some(260), None, Some(262)), None);
    assert!(!any_value_read(&vec!["---".to_string(), "N/A".to_string()]));
    assert!(any_value_read(&vec!["---".to_string(), "230 V".to_string()]));
    assert!(!any_value_read(&Vec::new()));
}
