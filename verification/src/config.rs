//! The sections of the configuration file and their defaults.
//!
//! Reading and parsing the TOML file is the application's job; the library
//! holds the sections as plain values and says what a missing section means.

use vstd::prelude::*;
use crate::text::{parse_address_list, parsed_addresses};
use crate::venus::DeviceRef;

verus! {

/// `[serial]`: the RS485 port and the polling of the BMS on it.
#[derive(Debug, Clone)]
pub struct SerialConfig {
    /// Path of the serial port (for example `/dev/ttyUSB0`).
    pub port: String,
    /// Baud rate (Daly: 9600).
    pub baud: u32,
    /// Interval between two polling cycles, in milliseconds.
    pub poll_interval_ms: u64,
    /// Number of cells assumed when a BMS does not say.
    pub default_cell_count: u8,
    /// Number of temperature sensors assumed when a BMS does not say.
    pub default_temp_sensors: u8,
    /// Number of snapshots kept in memory per BMS.
    pub ring_buffer_size: usize,
    /// Scan the bus for BMS at start-up.
    pub auto_discover: bool,
    /// First address scanned.
    pub auto_discover_start: u8,
    /// Last address scanned.
    pub auto_discover_end: u8,
    /// Explicit BMS addresses (`"0x01"`, `"40"`, ...).
    pub addresses: Vec<String>,
}

impl Default for SerialConfig {
    /// The Linux defaults: `/dev/ttyUSB0` at 9600 baud, one poll per second,
    /// 16 cells, 4 sensors, 3600 snapshots kept, no discovery (range 1..=16),
    /// and the single address `0x01`.
    fn default() -> (c: Self)
        ensures
            c.port@ == "/dev/ttyUSB0"@,
            c.baud == 9600,
            c.poll_interval_ms == 1000,
            c.default_cell_count == 16,
            c.default_temp_sensors == 4,
            c.ring_buffer_size == 3600,
            !c.auto_discover,
            c.auto_discover_start == 1,
            c.auto_discover_end == 16,
            c.addresses@.len() == 1,
            c.addresses@[0]@ == "0x01"@,
    {
        SerialConfig {
            port: String::from_str("/dev/ttyUSB0"),
            baud: 9600,
            poll_interval_ms: 1000,
            default_cell_count: 16,
            default_temp_sensors: 4,
            ring_buffer_size: 3600,
            auto_discover: false,
            auto_discover_start: 1,
            auto_discover_end: 16,
            addresses: vec![String::from_str("0x01")],
        }
    }
}

impl SerialConfig {
    /// The configured BMS addresses that parse, in the order written; the
    /// others are skipped.
    pub fn bms_addresses(&self) -> (r: Vec<u8>)
        ensures
            r@ == parsed_addresses(self.addresses@.map_values(|a: String| a@)),
    {
        parse_address_list(&self.addresses)
    }
}

/// `[api]`: the HTTP server.
#[derive(Debug, Clone)]
pub struct ApiConfig {
    /// Bind address (for example `0.0.0.0:8000`).
    pub bind: String,
    /// Key of the write endpoints (empty: no authentication).
    pub api_key: String,
    /// Allow CORS from every origin.
    pub cors_allow_all: bool,
}

impl Default for ApiConfig {
    /// Bind to `0.0.0.0:8000`, no key, CORS open.
    fn default() -> (c: Self)
        ensures
            c.bind@ == "0.0.0.0:8000"@,
            c.api_key@ == Seq::<char>::empty(),
            c.cors_allow_all,
    {
        ApiConfig { bind: String::from_str("0.0.0.0:8000"), api_key: String::new(), cors_allow_all: true }
    }
}

/// `[logging]`.
#[derive(Debug, Clone)]
pub struct LoggingConfig {
    /// Level (trace, debug, info, warn, error).
    pub level: String,
    /// Format (`pretty` or `json`).
    pub format: String,
}

impl Default for LoggingConfig {
    /// Level `info`, format `pretty`.
    fn default() -> (c: Self)
        ensures
            c.level@ == "info"@,
            c.format@ == "pretty"@,
    {
        LoggingConfig { level: String::from_str("info"), format: String::from_str("pretty") }
    }
}

/// `[read_only]`: when enabled, every write to a BMS is refused.
#[derive(Debug, Clone, Copy)]
pub struct ReadOnlyConfig {
    pub enabled: bool,
}

impl Default for ReadOnlyConfig {
    /// Writes allowed.
    fn default() -> (c: Self)
        ensures
            !c.enabled,
    {
        ReadOnlyConfig { enabled: false }
    }
}

// =============================================================================
// Venus OS bridge
// =============================================================================

/// The MQTT broker the bridge subscribes to.
#[derive(Debug, Clone)]
pub struct MqttRef {
    pub host: String,
    pub port: u16,
    /// Prefix of the BMS topics (`{prefix}/{index}/venus`).
    pub topic_prefix: String,
    pub username: Option<String>,
    pub password: Option<String>,
}

/// `[venus]`: the D-Bus side of the bridge.
#[derive(Debug, Clone)]
pub struct VenusConfig {
    /// Run the service at all.
    pub enabled: bool,
    /// `system` (Venus OS) or `session` (development).
    pub dbus_bus: String,
    /// Prefix of the D-Bus service names (`com.victronenergy.battery.{prefix}_{index}`).
    pub service_prefix: String,
    /// Seconds without MQTT data after which `/Connected` drops to 0.
    pub watchdog_sec: u64,
    /// Seconds between two forced republications.
    pub republish_sec: u64,
}

impl Default for VenusConfig {
    /// Enabled, on the system bus, prefix `mqtt`, a 30 s watchdog and a
    /// republication every 25 s.
    fn default() -> (c: Self)
        ensures
            c.enabled,
            c.dbus_bus@ == "system"@,
            c.service_prefix@ == "mqtt"@,
            c.watchdog_sec == 30,
            c.republish_sec == 25,
    {
        VenusConfig {
            enabled: true,
            dbus_bus: String::from_str("system"),
            service_prefix: String::from_str("mqtt"),
            watchdog_sec: 30,
            republish_sec: 25,
        }
    }
}

/// `[heat]`: prefix of the temperature sensor topics.
#[derive(Debug, Clone)]
pub struct HeatConfig {
    pub topic_prefix: String,
}

impl Default for HeatConfig {
    /// `santuario/heat`.
    fn default() -> (c: Self)
        ensures
            c.topic_prefix@ == "santuario/heat"@,
    {
        HeatConfig { topic_prefix: String::from_str("santuario/heat") }
    }
}

/// `[[sensors]]`: one temperature sensor.
#[derive(Debug, Clone)]
pub struct SensorRef {
    /// Index in the MQTT topic.
    pub mqtt_index: Option<u8>,
    /// Name shown in Venus OS.
    pub name: Option<String>,
    /// Temperature type used when the payload has none (0 battery, 1 fridge,
    /// 2 generic, 3 room, 4 outdoor, 5 water heater, 6 freezer).
    pub temperature_type: Option<i32>,
    /// D-Bus `DeviceInstance` (else the MQTT index).
    pub device_instance: Option<u32>,
}

impl Default for SensorRef {
    /// Nothing configured.
    fn default() -> (c: Self)
        ensures
            c.mqtt_index is None,
            c.name is None,
            c.temperature_type is None,
            c.device_instance is None,
    {
        SensorRef { mqtt_index: None, name: None, temperature_type: None, device_instance: None }
    }
}

/// A copy of an optional name.
fn copy_name(n: &Option<String>) -> (r: Option<String>)
    ensures
        r == *n,
{
    match n {
        Some(s) => Some(s.clone()),
        None => None,
    }
}

impl SensorRef {
    /// This sensor as an entry of the device lookups (index, instance, name).
    pub fn device_ref(&self) -> (d: DeviceRef)
        ensures
            d.mqtt_index == self.mqtt_index,
            d.device_instance == self.device_instance,
            d.name == self.name,
            d.custom_name is None,
            d.service_type is None,
    {
        DeviceRef {
            mqtt_index: self.mqtt_index,
            device_instance: self.device_instance,
            name: copy_name(&self.name),
            custom_name: None,
            service_type: None,
        }
    }
}

/// `[heatpump]`: prefix of the heat pump topics.
#[derive(Debug, Clone)]
pub struct HeatpumpConfig {
    pub topic_prefix: String,
}

impl Default for HeatpumpConfig {
    /// `santuario/heatpump`.
    fn default() -> (c: Self)
        ensures
            c.topic_prefix@ == "santuario/heatpump"@,
    {
        HeatpumpConfig { topic_prefix: String::from_str("santuario/heatpump") }
    }
}

/// `[[heatpumps]]`: one heat pump or water heater.
#[derive(Debug, Clone)]
pub struct HeatpumpRef {
    pub mqtt_index: Option<u8>,
    pub name: Option<String>,
    pub device_instance: Option<u32>,
}

impl Default for HeatpumpRef {
    /// Nothing configured.
    fn default() -> (c: Self)
        ensures
            c.mqtt_index is None,
            c.name is None,
            c.device_instance is None,
    {
        HeatpumpRef { mqtt_index: None, name: None, device_instance: None }
    }
}

impl HeatpumpRef {
    /// This heat pump as an entry of the device lookups (index, instance, name).
    pub fn device_ref(&self) -> (d: DeviceRef)
        ensures
            d.mqtt_index == self.mqtt_index,
            d.device_instance == self.device_instance,
            d.name == self.name,
            d.custom_name is None,
            d.service_type is None,
    {
        DeviceRef {
            mqtt_index: self.mqtt_index,
            device_instance: self.device_instance,
            name: copy_name(&self.name),
            custom_name: None,
            service_type: None,
        }
    }
}

/// `[meteo]`: the irradiance sensor service.
#[derive(Debug, Clone)]
pub struct MeteoConfig {
    /// Fixed MQTT topic of the sensor.
    pub topic: String,
    /// Name shown in Venus OS.
    pub product_name: String,
    /// D-Bus `DeviceInstance`.
    pub device_instance: u32,
}

impl Default for MeteoConfig {
    /// Topic `santuario/meteo/venus`, name `Irradiance Sensor`, instance 30.
    fn default() -> (c: Self)
        ensures
            c.topic@ == "santuario/meteo/venus"@,
            c.product_name@ == "Irradiance Sensor"@,
            c.device_instance == 30,
    {
        MeteoConfig {
            topic: String::from_str("santuario/meteo/venus"),
            product_name: String::from_str("Irradiance Sensor"),
            device_instance: 30,
        }
    }
}

} // verus!
