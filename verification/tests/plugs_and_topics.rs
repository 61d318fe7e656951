use daly_bms::topics::{classify_subscribed_topic, sensor_instance, sensor_name, temperature_type_name, SubscribedTopic};
use daly_bms::influx::{bridge_enabled, should_flush, InfluxEvent};
use daly_bms::tasmota::{classify_message, payload_says_on, PowerStates, TasmotaDevice, TasmotaMessage};
use daly_bms::topics::{et112_target, et112_topic, irradiance_topic, join_topic, tasmota_target, tasmota_topic, topic_id_for, Et112Device};
use std::collections::HashMap;
use daly_bms::text::extract_mqtt_index;

fn plug(id: u8, tasmota_id: &str) -> TasmotaDevice {
    TasmotaDevice { id, name: format!("Plug {}", id), tasmota_id: tasmota_id.to_string(), mqtt_index: Some(id), service_type: "switch".to_string() }
}

#[test]
fn tasmota_messages() {
    let devs = vec![plug(1, "prise_salon"), plug(2, "prise_garage"), plug(3, "prise_salon")];
    assert_eq!(classify_message("stat/prise_salon/POWER", "ON", &devs), Some(TasmotaMessage::Power { id: 1, on: true }));
    assert_eq!(classify_message("stat/prise_garage/POWER", " off ", &devs), Some(TasmotaMessage::Power { id: 2, on: false }));
    assert_eq!(classify_message("tele/prise_garage/SENSOR", "{}", &devs), Some(TasmotaMessage::Sensor { id: 2 }));
    assert_eq!(classify_message("tele/unknown/SENSOR", "{}", &devs), None);
    assert_eq!(classify_message("tele/prise_salon/STATE", "{}", &devs), None);
    assert_eq!(classify_message("tele/prise_salon/SENSOR/x", "{}", &devs), None);
    assert_eq!(classify_message("prise_salon/SENSOR", "{}", &devs), None);
}

#[test]
fn on_payloads() {
    assert!(payload_says_on("ON"));
    assert!(payload_says_on(" on\n"));
    assert!(payload_says_on("oN"));
    assert!(!payload_says_on("OFF"));
    assert!(!payload_says_on("ONE"));
    assert!(!payload_says_on(""));
}

#[test]
fn relay_state_read_after_write() {
    let mut s = PowerStates::new();
    assert!(s.power_on_for(4));
    s.record(4, false);
    assert!(!s.power_on_for(4));
    assert!(s.power_on_for(5));
    s.record(4, true);
    assert!(s.power_on_for(4));
}

#[test]
fn published_topics() {
    let mut map = HashMap::new();
    map.insert(0x28u8, "1".to_string());
    assert_eq!(topic_id_for(&map, 0x28), "1");
    assert_eq!(topic_id_for(&map, 0x29), "41");
    assert_eq!(join_topic("santuario/bms", "1"), "santuario/bms/1");
    assert_eq!(et112_topic("santuario", "acload", 3), "santuario/grid/3/venus");
    assert_eq!(et112_topic("santuario", "heatpump", 4), "santuario/heatpump/4/venus");
    assert_eq!(et112_topic("santuario", "pvinverter", 5), "santuario/pvinverter/5/venus");
    assert_eq!(et112_topic("santuario", "other", 6), "santuario/pvinverter/6/venus");
    assert_eq!(tasmota_topic("santuario", "acload", 1), "santuario/grid/1/venus");
    assert_eq!(tasmota_topic("santuario", "switch", 2), "santuario/switch/2/venus");
    assert_eq!(irradiance_topic("santuario"), "santuario/irradiance/raw");
}

#[test]
fn influx_batches() {
    assert!(!should_flush(InfluxEvent::Snapshots, 49, 50));
    assert!(should_flush(InfluxEvent::Snapshots, 50, 50));
    assert!(should_flush(InfluxEvent::FlushTick, 1, 50));
    assert!(!should_flush(InfluxEvent::MeterTick, 0, 50));
    assert!(should_flush(InfluxEvent::PlugTick, 3, 50));
    assert!(bridge_enabled(true, "t"));
    assert!(!bridge_enabled(true, ""));
}

#[test]
fn venus_topics_heard_by_the_server() {
    assert_eq!(classify_subscribed_topic("santuario/meteo/venus"), Some(SubscribedTopic::Meteo));
    assert_eq!(classify_subscribed_topic("santuario/heat/2/venus"), Some(SubscribedTopic::Heat));
    assert_eq!(classify_subscribed_topic("santuario/heatpump/1/venus"), Some(SubscribedTopic::Heatpump));
    assert_eq!(classify_subscribed_topic("santuario/system/venus"), Some(SubscribedTopic::System));
    assert_eq!(classify_subscribed_topic("santuario/heat/2/status"), None);
    assert_eq!(classify_subscribed_topic("santuario/bms/1/venus"), None);
    assert_eq!(temperature_type_name(Some(4)), "Outdoor");
    assert_eq!(temperature_type_name(Some(9)), "Generic");
    assert_eq!(temperature_type_name(None), "Generic");
    assert_eq!(sensor_instance(None), 1);
    assert_eq!(sensor_instance(Some(25)), 25);
    assert_eq!(sensor_instance(Some(0x1_0000_0005)), 5);
    assert_eq!(sensor_name(25), "Temperature 25");
}

#[test]
fn published_topics_read_back_by_the_bridge() {
    for idx in [0u8, 3, 42, 255] {
        assert_eq!(extract_mqtt_index(&et112_topic("santuario", "acload", idx), "santuario/grid"), Some(idx));
        assert_eq!(extract_mqtt_index(&et112_topic("santuario", "pv", idx), "santuario/pvinverter"), Some(idx));
        assert_eq!(extract_mqtt_index(&tasmota_topic("santuario", "switch", idx), "santuario/switch"), Some(idx));
    }
}

#[test]
fn bms_topics_read_back_by_the_bridge() {
    let map: HashMap<u8, String> = HashMap::new();
    for addr in [1u8, 2, 40, 255] {
        let topic = join_topic(&join_topic("santuario/bms", &topic_id_for(&map, addr)), "venus");
        assert_eq!(extract_mqtt_index(&topic, "santuario/bms"), Some(addr));
    }
}

fn meter(address: u8, mqtt_index: Option<u8>, position: u8, service_type: &str) -> Et112Device {
    Et112Device { address, mqtt_index, position, service_type: service_type.to_string() }
}

#[test]
fn et112_publication_targets() {
    let devs = vec![meter(1, Some(5), 0, "acload"), meter(2, None, 2, "heatpump"), meter(1, Some(9), 1, "pvinverter")];
    assert_eq!(et112_target(&devs, 1), (5, 0, "acload".to_string()));
    assert_eq!(et112_target(&devs, 2), (2, 2, "heatpump".to_string()));
    assert_eq!(et112_target(&devs, 7), (7, 1, "pvinverter".to_string()));
    assert_eq!(et112_target(&Vec::new(), 3), (3, 1, "pvinverter".to_string()));
}

fn forwarded_plug(id: u8, mqtt_index: Option<u8>, service_type: &str) -> TasmotaDevice {
    TasmotaDevice { id, name: format!("plug {}", id), tasmota_id: format!("tasmota_{}", id), mqtt_index, service_type: service_type.to_string() }
}

#[test]
fn tasmota_forwarding_targets() {
    let devs = vec![forwarded_plug(1, Some(4), "switch"), forwarded_plug(2, None, "acload"), forwarded_plug(1, Some(8), "acload")];
    assert_eq!(tasmota_target(&devs, 1), Some((4, "switch".to_string())));
    assert_eq!(tasmota_target(&devs, 2), None);
    assert_eq!(tasmota_target(&devs, 3), None);
}
