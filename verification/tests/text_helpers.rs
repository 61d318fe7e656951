use daly_bms::text::{
    address_hex, cell_id_to_int, cell_key, chars_eq, fmt_frame, format_time_to_go, parse_addr, parse_address_list, parse_addresses,
    pluralize, short_cell_id, split_chars, str_eq,
};

#[test]
fn addresses_in_decimal_or_hex() {
    assert_eq!(parse_addr("0x28"), Some(0x28));
    assert_eq!(parse_addr("0X2a"), Some(0x2A));
    assert_eq!(parse_addr(" 40 "), Some(40));
    assert_eq!(parse_addr("01"), Some(1));
    assert_eq!(parse_addr("+7"), Some(7));
    assert_eq!(parse_addr("256"), None);
    assert_eq!(parse_addr("0x100"), None);
    assert_eq!(parse_addr("0x"), None);
    assert_eq!(parse_addr(""), None);
    assert_eq!(parse_addr("-1"), None);
}

#[test]
fn address_lists() {
    assert_eq!(parse_addresses("0x01,0x02"), vec![1, 2]);
    assert_eq!(parse_addresses("1, 2,,x, 0x10"), vec![1, 2, 16]);
    assert_eq!(parse_addresses(""), Vec::<u8>::new());
    assert_eq!(parse_address_list(&vec!["3".to_string(), "bad".to_string(), "0x04".to_string()]), vec![3, 4]);
}

#[test]
fn cell_identifiers() {
    assert_eq!(cell_id_to_int("C3"), 3);
    assert_eq!(cell_id_to_int("Cell12"), 12);
    assert_eq!(cell_id_to_int("CellC7"), 7);
    assert_eq!(cell_id_to_int("x"), 0);
    assert_eq!(cell_id_to_int(""), 0);
    assert_eq!(cell_key(16), "Cell16");
    assert_eq!(short_cell_id(0), "C0");
    assert_eq!(short_cell_id(255), "C255");
}

#[test]
fn labels() {
    assert_eq!(pluralize(1), "");
    assert_eq!(pluralize(0), "s");
    assert_eq!(pluralize(2), "s");
    assert_eq!(format_time_to_go(0), "0:00");
    assert_eq!(format_time_to_go(-5), "0:00");
    assert_eq!(format_time_to_go(3660), "1:01");
    assert_eq!(format_time_to_go(36_000 + 59 * 60 + 59), "10:59");
    assert_eq!(address_hex(0x01), "0x01");
    assert_eq!(address_hex(0x2A), "0x2a");
    assert_eq!(address_hex(0xFF), "0xff");
    assert_eq!(address_hex(0x01), format!("{:#04x}", 0x01u8));
}

#[test]
fn frames_in_hex() {
    assert_eq!(fmt_frame(&[0xA5, 0x40, 0x90]), "[A5, 40, 90]");
    assert_eq!(fmt_frame(&[]), "[]");
    assert_eq!(fmt_frame(&[0x0F]), format!("{:02X?}", [0x0Fu8]));
}

#[test]
fn splitting_and_comparing() {
    let parts = split_chars("tele/plug1/SENSOR", '/');
    let parts: Vec<String> = parts.into_iter().map(|p| p.into_iter().collect()).collect();
    assert_eq!(parts, vec!["tele", "plug1", "SENSOR"]);
    assert_eq!(split_chars("", '/').len(), 1);
    assert_eq!(split_chars("a//b", '/').len(), 3);
    assert!(str_eq("abc", "abc"));
    assert!(!str_eq("abc", "abd"));
    assert!(chars_eq(&vec!['o', 'k'], "ok"));
    assert!(!chars_eq(&vec!['o'], "ok"));
}

#[test]
fn cell_identifiers_read_back() {
    for n in [0u8, 1, 9, 10, 16, 99, 255] {
        assert_eq!(cell_id_to_int(&short_cell_id(n)), n as u32);
    }
    for n in [0usize, 7, 48, 1000, 4_294_967_295] {
        assert_eq!(cell_id_to_int(&cell_key(n)), n as u32);
    }
}

#[test]
fn string_order() {
    use_order();
}

fn use_order() {
    assert!(daly_bms::text::str_lt("Cell10", "Cell2"));
    assert!(daly_bms::text::str_lt("Cell1", "Cell10"));
    assert!(!daly_bms::text::str_lt("Cell2", "Cell2"));
    assert!(daly_bms::text::str_lt("", "a"));
    assert!(!daly_bms::text::str_lt("b", "a"));
}
