use daly_bms::text::extract_mqtt_index;

#[test]
fn test_extract_index() {
    assert_eq!(extract_mqtt_index("santuario/bms/1/venus", "santuario/bms"), Some(1));
    assert_eq!(extract_mqtt_index("santuario/bms/2/venus", "santuario/bms"), Some(2));
    assert_eq!(extract_mqtt_index("santuario/bms/2/status", "santuario/bms"), None);
    assert_eq!(extract_mqtt_index("other/1/venus", "santuario/bms"), None);
    assert_eq!(extract_mqtt_index("santuario/bms/255/venus", "santuario/bms"), Some(255));
}

#[test]
fn mqtt_source_test_extract_index() {
    assert_eq!(extract_mqtt_index("santuario/bms/1/venus", "santuario/bms"), Some(1));
    assert_eq!(extract_mqtt_index("santuario/bms/2/venus", "santuario/bms"), Some(2));
    assert_eq!(extract_mqtt_index("santuario/bms/2/status", "santuario/bms"), None);
    assert_eq!(extract_mqtt_index("other/1/venus", "santuario/bms"), None);
    assert_eq!(extract_mqtt_index("santuario/bms/255/venus", "santuario/bms"), Some(255));
    assert_eq!(extract_mqtt_index("santuario/heat/1/venus", "santuario/heat"), Some(1));
    assert_eq!(extract_mqtt_index("santuario/heat/2/venus", "santuario/heat"), Some(2));
}

#[test]
fn extract_index_rejects_overflow_and_garbage() {
    assert_eq!(extract_mqtt_index("santuario/bms/256/venus", "santuario/bms"), None);
    assert_eq!(extract_mqtt_index("santuario/bms/x/venus", "santuario/bms"), None);
    assert_eq!(extract_mqtt_index("santuario/bms/1/2/venus", "santuario/bms"), None);
}
