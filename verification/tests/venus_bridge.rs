use daly_bms::payload::{venus_alarms, venus_io};
use daly_bms::types::{Alarms, IoData};
use daly_bms::venus::{configured_text, device_instance_for, labelled_index, name_or_default, service_suffix, topic_base, watchdog_action, DeviceRef, NameField, WatchdogAction};

fn dev(idx: Option<u8>, inst: Option<u32>, name: Option<&str>) -> DeviceRef {
    DeviceRef { mqtt_index: idx, device_instance: inst, name: name.map(|s| s.to_string()), custom_name: None, service_type: None }
}

#[test]
fn device_instance_lookup() {
    let refs = vec![dev(Some(1), Some(141), None), dev(None, None, None), dev(Some(5), None, None)];
    assert_eq!(device_instance_for(&refs, 1), 141);
    assert_eq!(device_instance_for(&refs, 2), 2);
    assert_eq!(device_instance_for(&refs, 5), 5);
    assert_eq!(device_instance_for(&refs, 9), 9);
}

#[test]
fn names_and_defaults() {
    let mut refs = vec![dev(Some(3), None, None), dev(Some(3), None, Some("Pack B"))];
    refs[0].service_type = Some("acload".to_string());
    assert_eq!(configured_text(&refs, 3, NameField::Name), Some("Pack B".to_string()));
    assert_eq!(configured_text(&refs, 3, NameField::ServiceType), Some("acload".to_string()));
    assert_eq!(configured_text(&refs, 4, NameField::Name), None);
    assert_eq!(name_or_default(&refs, 4, NameField::Name, "Daly BMS"), "Daly BMS 4");
    assert_eq!(labelled_index("Energy Meter", 12), "Energy Meter 12");
    refs[1].custom_name = Some("Garage".to_string());
    assert_eq!(name_or_default(&refs, 3, NameField::CustomOrName, "PV Inverter"), "Garage");
}

#[test]
fn service_names_and_topics() {
    assert_eq!(service_suffix("mqtt", 2), "mqtt_2");
    assert_eq!(topic_base("santuario/bms"), "santuario");
    assert_eq!(topic_base("a/b/c"), "a/b");
    assert_eq!(topic_base("flat"), "santuario");
}

#[test]
fn watchdog() {
    assert_eq!(watchdog_action(100_000, 60_000, 30_000), WatchdogAction::Disconnect);
    assert_eq!(watchdog_action(100_000, 70_000, 30_000), WatchdogAction::Republish);
    assert_eq!(watchdog_action(10, 20, 0), WatchdogAction::Republish);
}

#[test]
fn payload_alarm_levels_and_io() {
    let a = Alarms { low_voltage: 2, fuse_blown: 1, ..Default::default() };
    let p = venus_alarms(&a);
    assert_eq!(p.low_voltage, 2);
    assert_eq!(p.fuse_blown, 1);
    assert_eq!(p.high_voltage, 0);
    let io = IoData { allow_to_charge: 0, allow_to_discharge: 0, allow_to_balance: 1, allow_to_heat: 0, external_relay: 1 };
    let q = venus_io(&io);
    assert_eq!((q.allow_to_charge, q.allow_to_discharge, q.allow_to_balance, q.external_relay), (1, 1, 1, 1));
}
