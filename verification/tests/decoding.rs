use daly_bms::commands::{
    any_balancing, cell_voltage_frame_count, decode_alarm_frame, decode_balance_flags, decode_cell_voltage_minmax,
    decode_cell_voltages, decode_mos_status, decode_pack_status, decode_status_info, decode_temperature_minmax,
    decode_temperatures, frame_request_data, parse_alarm_flags, temperature_celsius, temperature_frame_count,
};
use daly_bms::types::Alarms;

#[test]
fn temperature_offset_is_forty() {
    assert_eq!(temperature_celsius(64), 24);
    assert_eq!(temperature_celsius(35), -5);
    assert_eq!(temperature_celsius(0), -40);
}

#[test]
fn pack_status_fields() {
    let s = decode_pack_status(&[0x02, 0x0D, 0x75, 0x20, 0x03, 0x25, 0, 0]);
    assert_eq!(s.voltage_dv, 525);
    assert_eq!(s.current_raw, 29984);
    assert_eq!(s.soc_permille, 805);
}

#[test]
fn cell_voltage_extremes() {
    let r = decode_cell_voltage_minmax(&[0x0D, 0x4D, 3, 0x0C, 0xE4, 7, 0, 0]);
    assert_eq!(r, (3300, 7, 3405, 3));
}

#[test]
fn temperature_extremes() {
    let r = decode_temperature_minmax(&[64, 2, 35, 4, 0, 0, 0, 0]);
    assert_eq!(r, (-5, 4, 24, 2));
}

#[test]
fn mos_status_bits() {
    let m = decode_mos_status(&[0x02, 9, 0x01, 0x2C, 0x00, 0x05, 0x7E, 0x40]);
    assert!(m.charge_mos);
    assert!(!m.discharge_mos);
    assert_eq!(m.bms_life, 9);
    assert_eq!(m.charge_cycles, 300);
    assert_eq!(m.residual_capacity_mah, 360_000);
}

#[test]
fn status_info_fields() {
    let s = decode_status_info(&[16, 4, 1, 0, 0x0F, 0x01, 0x02, 0]);
    assert_eq!(s.cell_count, 16);
    assert_eq!(s.temp_sensor_count, 4);
    assert_eq!(s.charger_status, 1);
    assert_eq!(s.load_status, 0);
    assert_eq!(s.dio_states, 0x0F);
    assert_eq!(s.cycle_count, 258);
}

#[test]
fn alarm_frame_split() {
    let (c, d, bytes) = decode_alarm_frame(&[0x03, 1, 2, 3, 4, 5, 6, 7]);
    assert!(c && d);
    assert_eq!(bytes, [1, 2, 3, 4, 5, 6, 7]);
}

#[test]
fn alarm_bits_map_to_fields() {
    let a = parse_alarm_flags(&[0b0000_0101, 0b0000_0110, 0b0000_0010, 0b0000_0001, 0, 0b0010_0000, 0]);
    assert_eq!(a.high_voltage, 1);
    assert_eq!(a.low_voltage, 0);
    assert_eq!(a.low_cell_voltage, 0);
    assert_eq!(a.high_charge_temperature, 0);
    assert_eq!(a.low_charge_temperature, 1);
    assert_eq!(a.high_temperature, 1);
    assert_eq!(a.low_temperature, 0);
    assert_eq!(a.high_charge_current, 0);
    assert_eq!(a.high_discharge_current, 1);
    assert_eq!(a.high_current, 1);
    assert_eq!(a.cell_imbalance, 1);
    assert_eq!(a.fuse_blown, 1);
    assert_eq!(a.low_soc, 0);
    assert!(a.any_active());
}

#[test]
fn no_alarm_bits_means_no_alarm() {
    let a = parse_alarm_flags(&[0; 7]);
    assert_eq!(a, Alarms::default());
    assert!(!a.any_active());
}

#[test]
fn frame_counts() {
    assert_eq!(cell_voltage_frame_count(16), 6);
    assert_eq!(cell_voltage_frame_count(0), 0);
    assert_eq!(temperature_frame_count(4), 1);
    assert_eq!(temperature_frame_count(8), 2);
    assert_eq!(frame_request_data(0), [1, 0, 0, 0, 0, 0, 0, 0]);
    assert_eq!(frame_request_data(5), [6, 0, 0, 0, 0, 0, 0, 0]);
    assert_eq!(frame_request_data(255), [0, 0, 0, 0, 0, 0, 0, 0]);
    assert_eq!(frame_request_data(300), [45, 0, 0, 0, 0, 0, 0, 0]);
}

#[test]
fn cell_voltages_across_frames() {
    let frames = vec![
        [1, 0x0D, 0x4D, 0x0D, 0x4E, 0x0D, 0x4F, 0],
        [2, 0x0D, 0x50, 0x0D, 0x51, 0, 0, 0],
    ];
    assert_eq!(decode_cell_voltages(&frames, 5), vec![3405, 3406, 3407, 3408, 3409]);
}

#[test]
fn temperatures_across_frames() {
    let frames = vec![[1, 60, 61, 62, 63, 64, 65, 66], [2, 40, 0, 0, 0, 0, 0, 0]];
    assert_eq!(decode_temperatures(&frames, 8), vec![20, 21, 22, 23, 24, 25, 26, 0]);
}

#[test]
fn balance_flags_by_bit() {
    let b = decode_balance_flags(&[0b0000_0101, 0b1000_0000, 0, 0, 0, 0, 0, 0], 16);
    assert_eq!(b.flags.len(), 16);
    assert!(b.flags[0] && !b.flags[1] && b.flags[2] && b.flags[15]);
    assert!(any_balancing(&b));
    let none = decode_balance_flags(&[0; 8], 4);
    assert!(!any_balancing(&none));
    let named = b.to_named_map();
    let names: Vec<&str> = named.iter().map(|(n, _)| n.as_str()).collect();
    assert_eq!(
        names,
        vec![
            "Cell1", "Cell10", "Cell11", "Cell12", "Cell13", "Cell14", "Cell15", "Cell16", "Cell2", "Cell3", "Cell4", "Cell5",
            "Cell6", "Cell7", "Cell8", "Cell9"
        ]
    );
    assert_eq!(named[0], ("Cell1".to_string(), 1));
    assert_eq!(named[7], ("Cell16".to_string(), 1));
    assert_eq!(named[8], ("Cell2".to_string(), 0));
    assert_eq!(named[9], ("Cell3".to_string(), 1));
    let expected: std::collections::BTreeMap<String, u8> =
        b.flags.iter().enumerate().map(|(i, &f)| (format!("Cell{}", i + 1), u8::from(f))).collect();
    assert_eq!(named, expected.into_iter().collect::<Vec<_>>());
}

#[test]
fn balance_flags_beyond_48_cells_are_off() {
    let b = decode_balance_flags(&[0xFF; 8], 60);
    assert!(b.flags[47]);
    assert!(!b.flags[48]);
    assert!(!b.flags[59]);
}
