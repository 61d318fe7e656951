//! Decisions of the MQTT -> D-Bus (Venus OS) bridge: which configured device
//! an MQTT index designates, the names and instances of the D-Bus services,
//! the watchdog, and the MQTT topics the server publishes on.

use vstd::prelude::*;
use crate::text::{chars_of, decimal, push_decimal};

verus! {

/// Configuration of one bridged device (battery, sensor, meter, ...).
#[derive(Debug, Clone)]
pub struct DeviceRef {
    /// Index in the MQTT topic (`{prefix}/{index}/venus`); when absent, the
    /// 1-based position of the entry in the configuration.
    pub mqtt_index: Option<u8>,
    /// Venus OS D-Bus `DeviceInstance`; when absent, the MQTT index.
    pub device_instance: Option<u32>,
    /// Product name shown in Venus OS.
    pub name: Option<String>,
    /// Custom name shown in Venus OS.
    pub custom_name: Option<String>,
    /// D-Bus service type (`grid`, `acload`, ...).
    pub service_type: Option<String>,
}

/// The MQTT index of the entry at position `pos` (0-based): its own index, or
/// `pos + 1` (as a byte, wrapping).
pub open spec fn effective_index(pos: int, r: DeviceRef) -> u8 {
    match r.mqtt_index {
        Some(i) => i,
        None => ((pos + 1) % 256) as u8,
    }
}

/// The MQTT index of entry `pos`.
fn entry_index(pos: usize, r: &DeviceRef) -> (i: u8)
    ensures
        i == effective_index(pos as int, *r),
{
    match r.mqtt_index {
        Some(i) => i,
        None => ((pos % 256 + 1) % 256) as u8,
    }
}

/// `true` when no entry before `end` has MQTT index `idx`.
pub open spec fn no_match_before(refs: Seq<DeviceRef>, idx: u8, end: int) -> bool {
    forall|p: int| 0 <= p < end ==> effective_index(p, #[trigger] refs[p]) != idx
}

/// The `DeviceInstance` of the device with MQTT index `idx`: that of the first
/// entry with this index (its configured instance, or the index), or the index
/// itself when no entry has it.
pub fn device_instance_for(refs: &Vec<DeviceRef>, idx: u8) -> (d: u32)
    ensures
        no_match_before(refs@, idx, refs@.len() as int) ==> d == idx,
        forall|p: int|
            0 <= p < refs@.len() && effective_index(p, #[trigger] refs@[p]) == idx && no_match_before(
                refs@,
                idx,
                p,
            ) ==> d == match refs@[p].device_instance {
                Some(x) => x,
                None => idx as u32,
            },
{
    let mut pos: usize = 0;
    while pos < refs.len()
        invariant
            pos <= refs@.len(),
            no_match_before(refs@, idx, pos as int),
        decreases refs.len() - pos,
    {
        let r = &refs[pos];
        if entry_index(pos, r) == idx {
            return match r.device_instance {
                Some(x) => x,
                None => idx as u32,
            };
        }
        pos = pos + 1;
    }
    idx as u32
}

/// Which text field of an entry a name lookup uses.
#[derive(Debug, Clone, Copy, PartialEq, Eq, Structural)]
pub enum NameField {
    /// The product name.
    Name,
    /// The custom name, or else the product name.
    CustomOrName,
    /// The service type.
    ServiceType,
}

/// The text that field `f` of entry `r` offers, if any.
pub open spec fn field_of(r: DeviceRef, f: NameField) -> Option<String> {
    match f {
        NameField::Name => r.name,
        NameField::CustomOrName => if r.custom_name is Some {
            r.custom_name
        } else {
            r.name
        },
        NameField::ServiceType => r.service_type,
    }
}

/// `true` when no entry before `end` has MQTT index `idx` and offers field `f`.
pub open spec fn no_named_match_before(refs: Seq<DeviceRef>, idx: u8, f: NameField, end: int) -> bool {
    forall|p: int|
        0 <= p < end ==> !(effective_index(p, #[trigger] refs[p]) == idx && field_of(refs[p], f) is Some)
}

/// The text of field `f` of the first entry with MQTT index `idx` that offers
/// it (entries with this index but without the field are skipped).
pub fn configured_text(refs: &Vec<DeviceRef>, idx: u8, f: NameField) -> (r: Option<String>)
    ensures
        r is None <==> no_named_match_before(refs@, idx, f, refs@.len() as int),
        r is Some ==> exists|p: int|
            0 <= p < refs@.len() && effective_index(p, #[trigger] refs@[p]) == idx && field_of(refs@[p], f)
                is Some && no_named_match_before(refs@, idx, f, p) && (field_of(refs@[p], f)->0)@ == (
            r->0)@,
{
    let mut pos: usize = 0;
    while pos < refs.len()
        invariant
            pos <= refs@.len(),
            no_named_match_before(refs@, idx, f, pos as int),
        decreases refs.len() - pos,
    {
        let r = &refs[pos];
        if entry_index(pos, r) == idx {
            let t: Option<&String> = match f {
                NameField::Name => r.name.as_ref(),
                NameField::CustomOrName => if r.custom_name.is_some() {
                    r.custom_name.as_ref()
                } else {
                    r.name.as_ref()
                },
                NameField::ServiceType => r.service_type.as_ref(),
            };
            match t {
                Some(s) => {
                    let c = s.clone();
                    assert(effective_index(pos as int, refs@[pos as int]) == idx);
                    return Some(c);
                },
                None => {},
            }
        }
        pos = pos + 1;
    }
    None
}

/// `label`, a space, and `idx` in decimal (for instance `"Daly BMS 1"`).
pub fn labelled_index(label: &str, idx: u8) -> (s: String)
    ensures
        s@ == label@ + seq![' '] + decimal(idx as nat),
{
    let mut s = String::from_str(label);
    s.append(" ");
    proof {
        reveal_strlit(" ");
    }
    push_decimal(&mut s, idx as u64);
    s
}

/// The text of field `f` for MQTT index `idx`, or `"{label} {idx}"` when no
/// entry with that index offers it.
pub fn name_or_default(refs: &Vec<DeviceRef>, idx: u8, f: NameField, label: &str) -> (s: String)
    ensures
        no_named_match_before(refs@, idx, f, refs@.len() as int) ==> s@ == label@ + seq![' '] + decimal(
            idx as nat,
        ),
        !no_named_match_before(refs@, idx, f, refs@.len() as int) ==> exists|p: int|
            0 <= p < refs@.len() && effective_index(p, #[trigger] refs@[p]) == idx && field_of(refs@[p], f)
                is Some && no_named_match_before(refs@, idx, f, p) && (field_of(refs@[p], f)->0)@ == s@,
{
    match configured_text(refs, idx, f) {
        Some(t) => t,
        None => labelled_index(label, idx),
    }
}

/// D-Bus service suffix `{prefix}_{idx}`.
pub fn service_suffix(prefix: &str, idx: u8) -> (s: String)
    ensures
        s@ == prefix@ + seq!['_'] + decimal(idx as nat),
{
    let mut s = String::from_str(prefix);
    s.append("_");
    proof {
        reveal_strlit("_");
    }
    push_decimal(&mut s, idx as u64);
    s
}

/// What the periodic keepalive does with a service.
#[derive(Debug, Clone, Copy, PartialEq, Eq, Structural)]
pub enum WatchdogAction {
    /// No data for longer than the watchdog delay: mark it disconnected.
    Disconnect,
    /// Publish its values again.
    Republish,
}

/// The keepalive decision for a service last updated at `last_update_ms`:
/// disconnected when strictly more than `watchdog_ms` elapsed (a last update
/// in the future counts as no time elapsed), republished otherwise.
pub open spec fn watchdog_decision(now_ms: u64, last_update_ms: u64, watchdog_ms: u64) -> WatchdogAction {
    if (if now_ms >= last_update_ms { now_ms - last_update_ms } else { 0 }) > watchdog_ms {
        WatchdogAction::Disconnect
    } else {
        WatchdogAction::Republish
    }
}

/// The keepalive decision (see `watchdog_decision`).
pub fn watchdog_action(now_ms: u64, last_update_ms: u64, watchdog_ms: u64) -> (a: WatchdogAction)
    ensures
        a == watchdog_decision(now_ms, last_update_ms, watchdog_ms),
{
    let elapsed = if now_ms >= last_update_ms { now_ms - last_update_ms } else { 0 };
    if elapsed > watchdog_ms {
        WatchdogAction::Disconnect
    } else {
        WatchdogAction::Republish
    }
}

/// A service found stale stays stale as time goes on without an update: if
/// it is disconnected at `now_ms`, it is at every later time too; and a
/// service updated at the current time is always republished.
pub proof fn lemma_watchdog_stays_disconnected(now_ms: u64, later_ms: u64, last_update_ms: u64, watchdog_ms: u64)
    requires
        now_ms <= later_ms,
    ensures
        watchdog_decision(now_ms, last_update_ms, watchdog_ms) == WatchdogAction::Disconnect
            ==> watchdog_decision(later_ms, last_update_ms, watchdog_ms) == WatchdogAction::Disconnect,
        watchdog_decision(now_ms, now_ms, watchdog_ms) == WatchdogAction::Republish,
{
}

// =============================================================================
// Topics published by the server
// =============================================================================

/// Position of the last `c` in `s`, if any.
pub open spec fn rfind_char(s: Seq<char>, c: char) -> Option<int>
    decreases s.len(),
{
    if s.len() == 0 {
        None
    } else if s.last() == c {
        Some(s.len() - 1)
    } else {
        rfind_char(s.drop_last(), c)
    }
}

/// `"santuario"`.
pub open spec fn default_base() -> Seq<char> {
    seq!['s', 'a', 'n', 't', 'u', 'a', 'r', 'i', 'o']
}

/// The topic base: the topic prefix up to its last `/` (`"santuario/bms"`
/// gives `"santuario"`), or `"santuario"` when it has no `/`.
pub open spec fn topic_base_spec(prefix: Seq<char>) -> Seq<char> {
    match rfind_char(prefix, '/') {
        Some(k) => prefix.subrange(0, k),
        None => default_base(),
    }
}

/// The base of the topics derived from the BMS topic prefix.
pub fn topic_base(topic_prefix: &str) -> (s: String)
    ensures
        s@ == topic_base_spec(topic_prefix@),
{
    let v = chars_of(topic_prefix);
    let mut k = v.len();
    assert(v@.subrange(0, k as int) =~= v@);
    while k > 0 && v[k - 1] != '/'
        invariant
            k <= v@.len(),
            v@ == topic_prefix@,
            rfind_char(v@, '/') == rfind_char(v@.subrange(0, k as int), '/'),
        decreases k,
    {
        proof {
            let t = v@.subrange(0, k as int);
            assert(t.drop_last() =~= v@.subrange(0, k - 1));
        }
        k = k - 1;
    }
    if k == 0 {
        assert(v@.subrange(0, 0) =~= Seq::<char>::empty());
        proof {
            reveal_strlit("santuario");
        }
        String::from_str("santuario")
    } else {
        proof {
            let t = v@.subrange(0, k as int);
            assert(t.last() == '/');
        }
        String::from_str(topic_prefix.substring_char(0, k - 1))
    }
}

} // verus!
