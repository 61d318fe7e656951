use daly_bms::venus::{device_instance_for, name_or_default, NameField};
use daly_bms::config::{ApiConfig, HeatConfig, HeatpumpConfig, HeatpumpRef, LoggingConfig, MeteoConfig, ReadOnlyConfig, SensorRef, SerialConfig, VenusConfig};

#[test]
fn serial_defaults() {
    let c = SerialConfig::default();
    assert_eq!(c.port, "/dev/ttyUSB0");
    assert_eq!(c.baud, 9600);
    assert_eq!(c.poll_interval_ms, 1000);
    assert_eq!(c.default_cell_count, 16);
    assert_eq!(c.default_temp_sensors, 4);
    assert_eq!(c.ring_buffer_size, 3600);
    assert!(!c.auto_discover);
    assert_eq!((c.auto_discover_start, c.auto_discover_end), (1, 16));
    assert_eq!(c.addresses, vec!["0x01".to_string()]);
    assert_eq!(c.bms_addresses(), vec![1]);
}

#[test]
fn configured_addresses_skip_invalid_entries() {
    let mut c = SerialConfig::default();
    c.addresses = vec!["0x28".to_string(), "oops".to_string(), " 41 ".to_string(), "0X2A".to_string(), "300".to_string()];
    assert_eq!(c.bms_addresses(), vec![0x28, 41, 0x2A]);
}

#[test]
fn other_server_defaults() {
    let a = ApiConfig::default();
    assert_eq!(a.bind, "0.0.0.0:8000");
    assert!(a.api_key.is_empty());
    assert!(a.cors_allow_all);
    let l = LoggingConfig::default();
    assert_eq!((l.level.as_str(), l.format.as_str()), ("info", "pretty"));
    assert!(!ReadOnlyConfig::default().enabled);
}

#[test]
fn venus_defaults() {
    let v = VenusConfig::default();
    assert!(v.enabled);
    assert_eq!(v.dbus_bus, "system");
    assert_eq!(v.service_prefix, "mqtt");
    assert_eq!((v.watchdog_sec, v.republish_sec), (30, 25));
    assert_eq!(HeatConfig::default().topic_prefix, "santuario/heat");
    assert_eq!(HeatpumpConfig::default().topic_prefix, "santuario/heatpump");
    let m = MeteoConfig::default();
    assert_eq!(m.topic, "santuario/meteo/venus");
    assert_eq!(m.product_name, "Irradiance Sensor");
    assert_eq!(m.device_instance, 30);
    let s = SensorRef::default();
    assert!(s.mqtt_index.is_none() && s.name.is_none() && s.temperature_type.is_none() && s.device_instance.is_none());
    let h = HeatpumpRef::default();
    assert!(h.mqtt_index.is_none() && h.name.is_none() && h.device_instance.is_none());
}

#[test]
fn sensor_and_heatpump_entries_feed_the_lookups() {
    let sensors = vec![
        SensorRef { mqtt_index: Some(1), name: Some("Outdoor".to_string()), temperature_type: Some(4), device_instance: Some(25) },
        SensorRef { mqtt_index: None, name: None, temperature_type: None, device_instance: None },
    ];
    let refs: Vec<_> = sensors.iter().map(|s| s.device_ref()).collect();
    assert_eq!(device_instance_for(&refs, 1), 25);
    assert_eq!(device_instance_for(&refs, 2), 2);
    assert_eq!(name_or_default(&refs, 1, NameField::Name, "Temperature"), "Outdoor");
    assert_eq!(name_or_default(&refs, 2, NameField::Name, "Temperature"), "Temperature 2");
    let pumps = vec![HeatpumpRef { mqtt_index: Some(3), name: None, device_instance: Some(40) }];
    let prefs: Vec<_> = pumps.iter().map(|p| p.device_ref()).collect();
    assert_eq!(device_instance_for(&prefs, 3), 40);
    assert_eq!(name_or_default(&prefs, 3, NameField::Name, "Heat Pump"), "Heat Pump 3");
}
