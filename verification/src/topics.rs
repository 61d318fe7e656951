//! The MQTT topics the server publishes on.

use vstd::prelude::*;
use std::collections::HashMap;
use crate::tasmota::TasmotaDevice;
use crate::text::{
    chars_of, decimal, lemma_decimal_digits, lemma_find_char_index, mqtt_index_spec, parse_uint, push_decimal, str_eq, venus_word,
};

verus! {

broadcast use vstd::std_specs::hash::group_hash_axioms;

/// The topic identifier of the BMS at `addr`: its entry in `addr_map`, or
/// its address in decimal.
pub fn topic_id_for(addr_map: &HashMap<u8, String>, addr: u8) -> (s: String)
    ensures
        addr_map@.contains_key(addr) ==> s@ == addr_map@[addr]@,
        !addr_map@.contains_key(addr) ==> s@ == decimal(addr as nat),
{
    match addr_map.get(&addr) {
        Some(t) => t.clone(),
        None => {
            let mut s = String::new();
            push_decimal(&mut s, addr as u64);
            s
        },
    }
}

/// `parent/child`.
pub fn join_topic(parent: &str, child: &str) -> (t: String)
    ensures
        t@ == parent@ + seq!['/'] + child@,
{
    let mut t = String::from_str(parent);
    t.append("/");
    proof {
        reveal_strlit("/");
    }
    t.append(child);
    t
}

/// `{base}/{family}/{idx}/venus`.
pub open spec fn venus_topic(base: Seq<char>, family: Seq<char>, idx: u8) -> Seq<char> {
    base + "/"@ + family + "/"@ + decimal(idx as nat) + "/venus"@
}

/// Writes `venus_topic(base, family, idx)`.
fn write_venus_topic(base: &str, family: &str, idx: u8) -> (t: String)
    ensures
        t@ == venus_topic(base@, family@, idx),
{
    let mut t = String::from_str(base);
    t.append("/");
    t.append(family);
    t.append("/");
    push_decimal(&mut t, idx as u64);
    t.append("/venus");
    t
}

/// The Venus OS family an ET112 meter is published as: `grid` for an AC
/// load, `heatpump` for a heat pump, `pvinverter` otherwise.
pub open spec fn et112_family(service_type: Seq<char>) -> Seq<char> {
    if service_type == "acload"@ {
        "grid"@
    } else if service_type == "heatpump"@ {
        "heatpump"@
    } else {
        "pvinverter"@
    }
}

/// The topic of an ET112 meter with MQTT index `idx`.
pub fn et112_topic(base: &str, service_type: &str, idx: u8) -> (t: String)
    ensures
        t@ == venus_topic(base@, et112_family(service_type@), idx),
{
    let family = if str_eq(service_type, "acload") {
        "grid"
    } else if str_eq(service_type, "heatpump") {
        "heatpump"
    } else {
        "pvinverter"
    };
    write_venus_topic(base, family, idx)
}

/// The Venus OS family a Tasmota plug is published as: `grid` for an AC
/// load, `switch` otherwise.
pub open spec fn tasmota_family(service_type: Seq<char>) -> Seq<char> {
    if service_type == "acload"@ {
        "grid"@
    } else {
        "switch"@
    }
}

/// The topic of a Tasmota plug with MQTT index `idx`.
pub fn tasmota_topic(base: &str, service_type: &str, idx: u8) -> (t: String)
    ensures
        t@ == venus_topic(base@, tasmota_family(service_type@), idx),
{
    let family = if str_eq(service_type, "acload") {
        "grid"
    } else {
        "switch"
    };
    write_venus_topic(base, family, idx)
}

/// A topic `{prefix}/{n}/venus` reads back as `n` under `prefix`: this is
/// the shape of the BMS topics (`join_topic` of the prefix, the decimal
/// identifier that `topic_id_for` gives an unmapped address, and `venus`).
pub proof fn lemma_index_topic_read_back(prefix: Seq<char>, idx: u8)
    ensures
        mqtt_index_spec(prefix + seq!['/'] + decimal(idx as nat) + seq!['/'] + venus_word(), prefix) == Some(idx),
{
    let d = decimal(idx as nat);
    lemma_decimal_digits(idx as nat);
    let t = prefix + seq!['/'] + d + seq!['/'] + venus_word();
    assert(t.subrange(0, prefix.len() as int) =~= prefix);
    let rest0 = t.subrange(prefix.len() as int, t.len() as int);
    assert(rest0 =~= seq!['/'] + d + seq!['/'] + venus_word());
    let rest = rest0.drop_first();
    assert(rest =~= d + seq!['/'] + venus_word());
    assert forall|k: int| 0 <= k < d.len() implies #[trigger] rest[k] != '/' by {
        assert(rest[k] == d[k]);
        assert(crate::text::digit_value(d[k], 10) is Some);
    }
    assert(rest[d.len() as int] == '/');
    lemma_find_char_index(rest, '/', d.len() as int);
    assert(rest.subrange(d.len() as int + 1, rest.len() as int) =~= venus_word());
    assert(rest.subrange(0, d.len() as int) =~= d);
    assert(d[0] != '+');
    assert(parse_uint(d, 10, 255) == Some(idx as nat));
}

/// What the Venus OS bridge reads of what the server publishes: in a topic
/// written by `et112_topic` or `tasmota_topic`, `extract_mqtt_index` under
/// the prefix `{base}/{family}` finds the index the topic was written with.
pub proof fn lemma_topic_index_read_back(base: Seq<char>, family: Seq<char>, idx: u8)
    ensures
        mqtt_index_spec(venus_topic(base, family, idx), base + "/"@ + family) == Some(idx),
{
    reveal_strlit("/");
    reveal_strlit("/venus");
    let prefix = base + "/"@ + family;
    assert(venus_topic(base, family, idx) =~= prefix + seq!['/'] + decimal(idx as nat) + seq!['/'] + venus_word());
    lemma_index_topic_read_back(prefix, idx);
}

/// What the MQTT bridge reads of a configured ET112 meter.
#[derive(Debug, Clone)]
pub struct Et112Device {
    /// Modbus address of the meter.
    pub address: u8,
    /// Index of its Venus OS topic, if configured.
    pub mqtt_index: Option<u8>,
    /// Position of the meter (Venus OS `Position`).
    pub position: u8,
    /// `pvinverter`, `acload` or `heatpump`.
    pub service_type: String,
}

/// The position of the first of `devs` with address `addr`, if any.
pub open spec fn first_et112(devs: Seq<Et112Device>, addr: u8) -> Option<int>
    decreases devs.len(),
{
    if devs.len() == 0 {
        None
    } else if devs[0].address == addr {
        Some(0)
    } else {
        match first_et112(devs.drop_first(), addr) {
            Some(k) => Some(k + 1),
            None => None,
        }
    }
}

/// Where a reading of the ET112 meter at `addr` is published: the MQTT index
/// (the configured one, else the address), the position (else 1) and the
/// service type (else `pvinverter`), taken from the first configured meter
/// with that address.
pub fn et112_target(devs: &Vec<Et112Device>, addr: u8) -> (r: (u8, u8, String))
    ensures
        match first_et112(devs@, addr) {
            Some(k) => {
                &&& r.0 == (match devs@[k].mqtt_index {
                    Some(i) => i,
                    None => addr,
                })
                &&& r.1 == devs@[k].position
                &&& r.2@ == devs@[k].service_type@
            },
            None => r.0 == addr && r.1 == 1 && r.2@ == "pvinverter"@,
        },
{
    let mut i: usize = 0;
    while i < devs.len()
        invariant
            i <= devs@.len(),
            forall|j: int| 0 <= j < i ==> (#[trigger] devs@[j]).address != addr,
        decreases devs.len() - i,
    {
        if devs[i].address == addr {
            proof {
                lemma_first_et112_at(devs@, addr, i as int);
            }
            let idx = match devs[i].mqtt_index {
                Some(x) => x,
                None => addr,
            };
            return (idx, devs[i].position, devs[i].service_type.clone());
        }
        i = i + 1;
    }
    proof {
        lemma_first_et112_at(devs@, addr, devs@.len() as int);
    }
    (addr, 1, String::from_str("pvinverter"))
}

proof fn lemma_first_et112_at(devs: Seq<Et112Device>, addr: u8, i: int)
    requires
        0 <= i <= devs.len(),
        forall|j: int| 0 <= j < i ==> (#[trigger] devs[j]).address != addr,
        i < devs.len() ==> devs[i].address == addr,
    ensures
        i < devs.len() ==> first_et112(devs, addr) == Some(i),
        i == devs.len() ==> first_et112(devs, addr) is None,
    decreases i,
{
    if i > 0 {
        let t = devs.drop_first();
        assert forall|j: int| 0 <= j < i - 1 implies (#[trigger] t[j]).address != addr by {
            assert(t[j] == devs[j + 1]);
        }
        if i < devs.len() {
            assert(t[i - 1] == devs[i]);
        }
        lemma_first_et112_at(t, addr, i - 1);
        assert(devs[0].address != addr);
    }
}

/// The position of the first of `devs` with identifier `id`, if any.
pub open spec fn first_plug(devs: Seq<TasmotaDevice>, id: u8) -> Option<int>
    decreases devs.len(),
{
    if devs.len() == 0 {
        None
    } else if devs[0].id == id {
        Some(0)
    } else {
        match first_plug(devs.drop_first(), id) {
            Some(k) => Some(k + 1),
            None => None,
        }
    }
}

/// Where a reading of the Tasmota plug `id` is forwarded to Venus OS: the
/// MQTT index and service type of the first configured plug with that
/// identifier, when it has an index; nothing otherwise.
pub fn tasmota_target(devs: &Vec<TasmotaDevice>, id: u8) -> (r: Option<(u8, String)>)
    ensures
        match first_plug(devs@, id) {
            Some(k) => match devs@[k].mqtt_index {
                Some(i) => r matches Some(t) && t.0 == i && t.1@ == devs@[k].service_type@,
                None => r is None,
            },
            None => r is None,
        },
{
    let mut i: usize = 0;
    while i < devs.len()
        invariant
            i <= devs@.len(),
            forall|j: int| 0 <= j < i ==> (#[trigger] devs@[j]).id != id,
        decreases devs.len() - i,
    {
        if devs[i].id == id {
            proof {
                lemma_first_plug_at(devs@, id, i as int);
            }
            return match devs[i].mqtt_index {
                Some(x) => Some((x, devs[i].service_type.clone())),
                None => None,
            };
        }
        i = i + 1;
    }
    proof {
        lemma_first_plug_at(devs@, id, devs@.len() as int);
    }
    None
}

proof fn lemma_first_plug_at(devs: Seq<TasmotaDevice>, id: u8, i: int)
    requires
        0 <= i <= devs.len(),
        forall|j: int| 0 <= j < i ==> (#[trigger] devs[j]).id != id,
        i < devs.len() ==> devs[i].id == id,
    ensures
        i < devs.len() ==> first_plug(devs, id) == Some(i),
        i == devs.len() ==> first_plug(devs, id) is None,
    decreases i,
{
    if i > 0 {
        let t = devs.drop_first();
        assert forall|j: int| 0 <= j < i - 1 implies (#[trigger] t[j]).id != id by {
            assert(t[j] == devs[j + 1]);
        }
        if i < devs.len() {
            assert(t[i - 1] == devs[i]);
        }
        lemma_first_plug_at(t, id, i - 1);
        assert(devs[0].id != id);
    }
}

/// The topic of the irradiance value: `{base}/irradiance/raw`.
pub fn irradiance_topic(base: &str) -> (t: String)
    ensures
        t@ == base@ + "/irradiance/raw"@,
{
    let mut t = String::from_str(base);
    t.append("/irradiance/raw");
    t
}

// =============================================================================
// Topics the server subscribes to
// =============================================================================

/// The Venus OS topics the server listens to.
#[derive(Debug, Clone, Copy, PartialEq, Eq, Structural)]
pub enum SubscribedTopic {
    /// `santuario/meteo/venus`: solar charger production.
    Meteo,
    /// `santuario/heat/{n}/venus`: a temperature sensor.
    Heat,
    /// `santuario/heatpump/{n}/venus`: a heat pump.
    Heatpump,
    /// `santuario/system/venus`: the battery monitor.
    System,
}

/// `true` when `s` starts with `p`.
pub open spec fn starts_with(s: Seq<char>, p: Seq<char>) -> bool {
    p.len() <= s.len() && s.subrange(0, p.len() as int) == p
}

/// `true` when `s` ends with `p`.
pub open spec fn ends_with(s: Seq<char>, p: Seq<char>) -> bool {
    p.len() <= s.len() && s.subrange(s.len() - p.len(), s.len() as int) == p
}

/// Which subscribed topic `t` is, if any.
pub open spec fn subscribed_topic(t: Seq<char>) -> Option<SubscribedTopic> {
    if t == "santuario/meteo/venus"@ {
        Some(SubscribedTopic::Meteo)
    } else if starts_with(t, "santuario/heat/"@) && ends_with(t, "/venus"@) {
        Some(SubscribedTopic::Heat)
    } else if starts_with(t, "santuario/heatpump/"@) && ends_with(t, "/venus"@) {
        Some(SubscribedTopic::Heatpump)
    } else if t == "santuario/system/venus"@ {
        Some(SubscribedTopic::System)
    } else {
        None
    }
}

/// `true` when `v` starts with the characters of `p`.
fn has_prefix(v: &Vec<char>, p: &str) -> (b: bool)
    ensures
        b == starts_with(v@, p@),
{
    let q = chars_of(p);
    if q.len() > v.len() {
        return false;
    }
    let mut i: usize = 0;
    while i < q.len()
        invariant
            i <= q@.len() <= v@.len(),
            q@ == p@,
            forall|k: int| 0 <= k < i ==> v@[k] == q@[k],
        decreases q.len() - i,
    {
        if v[i] != q[i] {
            assert(v@.subrange(0, q@.len() as int)[i as int] != q@[i as int]);
            return false;
        }
        i = i + 1;
    }
    assert(v@.subrange(0, q@.len() as int) =~= q@);
    true
}

/// `true` when `v` ends with the characters of `p`.
fn has_suffix(v: &Vec<char>, p: &str) -> (b: bool)
    ensures
        b == ends_with(v@, p@),
{
    let q = chars_of(p);
    if q.len() > v.len() {
        return false;
    }
    let off = v.len() - q.len();
    let mut i: usize = 0;
    while i < q.len()
        invariant
            i <= q@.len(),
            off + q.len() == v.len(),
            q@ == p@,
            forall|k: int| 0 <= k < i ==> v@[off + k] == q@[k],
        decreases q.len() - i,
    {
        if v[off + i] != q[i] {
            assert(v@.subrange(off as int, v@.len() as int)[i as int] != q@[i as int]);
            return false;
        }
        i = i + 1;
    }
    assert(v@.subrange(off as int, v@.len() as int) =~= q@);
    true
}

/// Which subscribed topic a received message is on (see `subscribed_topic`).
pub fn classify_subscribed_topic(topic: &str) -> (k: Option<SubscribedTopic>)
    ensures
        k == subscribed_topic(topic@),
{
    let v = chars_of(topic);
    if str_eq(topic, "santuario/meteo/venus") {
        Some(SubscribedTopic::Meteo)
    } else if has_prefix(&v, "santuario/heat/") && has_suffix(&v, "/venus") {
        Some(SubscribedTopic::Heat)
    } else if has_prefix(&v, "santuario/heatpump/") && has_suffix(&v, "/venus") {
        Some(SubscribedTopic::Heatpump)
    } else if str_eq(topic, "santuario/system/venus") {
        Some(SubscribedTopic::System)
    } else {
        None
    }
}

/// The name of a temperature type code (0 battery ... 6 freezer); `Generic`
/// when the code is missing or unknown.
pub open spec fn temperature_type_text(code: Option<u64>) -> Seq<char> {
    match code {
        Some(0) => "Battery"@,
        Some(1) => "Fridge"@,
        Some(2) => "Generic"@,
        Some(3) => "Room"@,
        Some(4) => "Outdoor"@,
        Some(5) => "WaterHeater"@,
        Some(6) => "Freezer"@,
        _ => "Generic"@,
    }
}

/// Each Venus OS temperature type code names its own type (0 Battery,
/// 1 Fridge, 2 Generic, 3 Room, 4 Outdoor, 5 WaterHeater, 6 Freezer), two
/// different codes from 0 to 6 never share a name, and a missing or unknown
/// code reads as Generic.
pub proof fn lemma_temperature_types(c1: u64, c2: u64)
    ensures
        temperature_type_text(Some(0u64)) == "Battery"@,
        temperature_type_text(Some(1u64)) == "Fridge"@,
        temperature_type_text(Some(2u64)) == "Generic"@,
        temperature_type_text(Some(3u64)) == "Room"@,
        temperature_type_text(Some(4u64)) == "Outdoor"@,
        temperature_type_text(Some(5u64)) == "WaterHeater"@,
        temperature_type_text(Some(6u64)) == "Freezer"@,
        temperature_type_text(None) == "Generic"@,
        c1 > 6 ==> temperature_type_text(Some(c1)) == "Generic"@,
        c1 <= 6 && c2 <= 6 && c1 != c2 ==> temperature_type_text(Some(c1)) != temperature_type_text(Some(c2)),
{
    reveal_strlit("Battery");
    reveal_strlit("Fridge");
    reveal_strlit("Generic");
    reveal_strlit("Room");
    reveal_strlit("Outdoor");
    reveal_strlit("WaterHeater");
    reveal_strlit("Freezer");
    if c1 <= 6 && c2 <= 6 && c1 != c2 {
        let a = temperature_type_text(Some(c1));
        let b = temperature_type_text(Some(c2));
        if a == b {
            assert(a.len() == b.len());
            assert(a[0] == b[0]);
            assert(a[1] == b[1]);
        }
    }
}

/// The name of the temperature type of a sensor reading.
pub fn temperature_type_name(code: Option<u64>) -> (s: &'static str)
    ensures
        s@ == temperature_type_text(code),
        code == Some(0u64) ==> s@ == "Battery"@,
        code == Some(1u64) ==> s@ == "Fridge"@,
        code == Some(2u64) ==> s@ == "Generic"@,
        code == Some(3u64) ==> s@ == "Room"@,
        code == Some(4u64) ==> s@ == "Outdoor"@,
        code == Some(5u64) ==> s@ == "WaterHeater"@,
        code == Some(6u64) ==> s@ == "Freezer"@,
        (code is None || code->0 > 6) ==> s@ == "Generic"@,
{
    match code {
        Some(0) => "Battery",
        Some(1) => "Fridge",
        Some(2) => "Generic",
        Some(3) => "Room",
        Some(4) => "Outdoor",
        Some(5) => "WaterHeater",
        Some(6) => "Freezer",
        _ => "Generic",
    }
}

/// The instance of a temperature reading: its `DeviceInstance` (kept to its
/// low 32 bits), 1 when it has none.
pub fn sensor_instance(device_instance: Option<u64>) -> (i: u32)
    ensures
        i == (match device_instance {
            Some(d) => d % 0x1_0000_0000,
            None => 1,
        }),
{
    match device_instance {
        Some(d) => (d % 0x1_0000_0000) as u32,
        None => 1,
    }
}

/// The name of a temperature reading: `Temperature {instance}`.
pub fn sensor_name(instance: u32) -> (s: String)
    ensures
        s@ == "Temperature "@ + decimal(instance as nat),
{
    let mut s = String::from_str("Temperature ");
    push_decimal(&mut s, instance as u64);
    s
}

} // verus!
