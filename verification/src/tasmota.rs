//! Tasmota smart plugs seen through their native MQTT topics
//! (`tele/{name}/SENSOR`, `stat/{name}/POWER`): which configured plug a
//! message is about, what it says, and the relay state remembered between
//! messages.

use vstd::prelude::*;
use std::collections::HashMap;
use crate::text::{chars_eq, chars_of, split_chars, split_on, trim, trim_bounds};

verus! {

broadcast use vstd::std_specs::hash::group_hash_axioms;

/// A configured Tasmota plug.
#[derive(Debug, Clone)]
pub struct TasmotaDevice {
    /// Identifier used by the server (key of its buffers).
    pub id: u8,
    /// Name shown to users.
    pub name: String,
    /// Name of the plug in its MQTT topics.
    pub tasmota_id: String,
    /// Index of the Venus OS topic it is forwarded to, if any.
    pub mqtt_index: Option<u8>,
    /// `switch` or `acload`.
    pub service_type: String,
}

/// What a Tasmota message reports.
#[derive(Debug, Clone, Copy, PartialEq, Eq, Structural)]
pub enum TasmotaMessage {
    /// `stat/{name}/POWER`: the relay of plug `id` is on or off.
    Power { id: u8, on: bool },
    /// `tele/{name}/SENSOR`: new energy readings of plug `id`.
    Sensor { id: u8 },
}

/// `true` when `p` says `ON`, ignoring ASCII case and white space around it.
pub open spec fn says_on(p: Seq<char>) -> bool {
    let t = trim(p);
    &&& t.len() == 2
    &&& (t[0] == 'o' || t[0] == 'O')
    &&& (t[1] == 'n' || t[1] == 'N')
}

/// `true` when `p` is the position of the first plug named `name`.
pub open spec fn is_first_named(devs: Seq<TasmotaDevice>, name: Seq<char>, p: int) -> bool {
    &&& 0 <= p < devs.len()
    &&& devs[p].tasmota_id@ == name
    &&& forall|q: int| 0 <= q < p ==> (#[trigger] devs[q]).tasmota_id@ != name
}

/// The position of the first plug named `name`, if any.
pub open spec fn first_named(devs: Seq<TasmotaDevice>, name: Seq<char>) -> Option<int> {
    if exists|p: int| is_first_named(devs, name, p) {
        Some(choose|p: int| is_first_named(devs, name, p))
    } else {
        None
    }
}

/// What the message on `topic` with text `payload` reports: the topic must
/// have three parts, the middle one naming a configured plug, the last one
/// `POWER` or `SENSOR`; every other message is ignored.
pub open spec fn tasmota_message(topic: Seq<char>, payload: Seq<char>, devs: Seq<TasmotaDevice>) -> Option<TasmotaMessage> {
    let parts = split_on(topic, '/');
    if parts.len() != 3 {
        None
    } else {
        match first_named(devs, parts[1]) {
            None => None,
            Some(p) => if parts[2] == "POWER"@ {
                Some(TasmotaMessage::Power { id: devs[p].id, on: says_on(payload) })
            } else if parts[2] == "SENSOR"@ {
                Some(TasmotaMessage::Sensor { id: devs[p].id })
            } else {
                None
            },
        }
    }
}

proof fn lemma_first_named_unique(devs: Seq<TasmotaDevice>, name: Seq<char>, p: int)
    requires
        is_first_named(devs, name, p),
    ensures
        first_named(devs, name) == Some(p),
{
    let c = choose|q: int| is_first_named(devs, name, q);
    assert(is_first_named(devs, name, c));
    if c < p {
        assert(devs[c].tasmota_id@ != name);
    } else if c > p {
        assert(devs[p].tasmota_id@ != name);
    }
}

/// `true` when `p` says `ON` (ignoring case and surrounding white space).
pub fn payload_says_on(p: &str) -> (b: bool)
    ensures
        b == says_on(p@),
{
    let v = chars_of(p);
    let (a, e) = trim_bounds(&v);
    if e - a != 2 {
        return false;
    }
    let c0 = v[a];
    let c1 = v[a + 1];
    (c0 == 'o' || c0 == 'O') && (c1 == 'n' || c1 == 'N')
}

/// The position of the first plug whose topic name is `name`.
fn find_named(devs: &Vec<TasmotaDevice>, name: &Vec<char>) -> (r: Option<usize>)
    ensures
        r is None ==> first_named(devs@, name@) is None,
        r matches Some(p) ==> first_named(devs@, name@) == Some(p as int),
{
    let mut p: usize = 0;
    while p < devs.len()
        invariant
            p <= devs@.len(),
            forall|q: int| 0 <= q < p ==> (#[trigger] devs@[q]).tasmota_id@ != name@,
        decreases devs.len() - p,
    {
        if chars_eq(name, devs[p].tasmota_id.as_str()) {
            proof {
                lemma_first_named_unique(devs@, name@, p as int);
            }
            return Some(p);
        }
        p = p + 1;
    }
    proof {
        if exists|q: int| is_first_named(devs@, name@, q) {
            let q = choose|q: int| is_first_named(devs@, name@, q);
            assert(devs@[q].tasmota_id@ == name@);
        }
    }
    None
}

/// Reads a Tasmota message (see `tasmota_message`).
pub fn classify_message(topic: &str, payload: &str, devs: &Vec<TasmotaDevice>) -> (m: Option<TasmotaMessage>)
    ensures
        m == tasmota_message(topic@, payload@, devs@),
{
    let parts = split_chars(topic, '/');
    proof {
        assert(parts@.map_values(|p: Vec<char>| p@).len() == parts@.len());
    }
    if parts.len() != 3 {
        return None;
    }
    proof {
        assert(parts@.map_values(|p: Vec<char>| p@)[1] == parts@[1]@);
        assert(parts@.map_values(|p: Vec<char>| p@)[2] == parts@[2]@);
    }
    let p = match find_named(devs, &parts[1]) {
        Some(p) => p,
        None => {
            return None;
        },
    };
    let id = devs[p].id;
    if chars_eq(&parts[2], "POWER") {
        Some(TasmotaMessage::Power { id, on: payload_says_on(payload) })
    } else if chars_eq(&parts[2], "SENSOR") {
        Some(TasmotaMessage::Sensor { id })
    } else {
        None
    }
}

/// The relay state last reported by each plug.
pub struct PowerStates {
    states: HashMap<u8, bool>,
}

impl View for PowerStates {
    type V = Map<u8, bool>;

    closed spec fn view(&self) -> Map<u8, bool> {
        self.states@
    }
}

impl PowerStates {
    /// No state known.
    pub fn new() -> (s: Self)
        ensures
            s@ == Map::<u8, bool>::empty(),
    {
        PowerStates { states: HashMap::new() }
    }

    /// Records that the relay of plug `id` is `on`.
    pub fn record(&mut self, id: u8, on: bool)
        ensures
            final(self)@ == old(self)@.insert(id, on),
    {
        self.states.insert(id, on);
    }

    /// The relay state given to new energy readings of plug `id`: the last
    /// one reported, or on when none was.
    pub fn power_on_for(&self, id: u8) -> (on: bool)
        ensures
            on == (if self@.contains_key(id) { self@[id] } else { true }),
    {
        match self.states.get(&id) {
            Some(b) => *b,
            None => true,
        }
    }
}

/// The relay state given to readings is the last one reported: after
/// recording `on` for plug `id`, readings of `id` carry `on`, and those of
/// any other plug carry what they carried before.
pub proof fn lemma_power_state_read_after_write(states: Map<u8, bool>, id: u8, on: bool, other: u8)
    requires
        other != id,
    ensures
        ({
            let after = states.insert(id, on);
            &&& after.contains_key(id) && after[id] == on
            &&& (if after.contains_key(other) { after[other] } else { true }) == (if states.contains_key(
                other,
            ) {
                states[other]
            } else {
                true
            })
        }),
{
}

} // verus!
