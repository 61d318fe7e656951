//! Data structures decoded from the answers of a Daly BMS.
//!
//! Physical quantities are kept in the integer units of the protocol
//! (millivolts, decivolts, tenths of a percent, degrees Celsius).

use vstd::prelude::*;

verus! {

/// RS485 address of a BMS (0x01-0xFF).
pub type BmsAddress = u8;

/// Protection alarms (0 = OK, 1 = alarm active).
#[derive(Debug, Clone, Copy, PartialEq, Eq, Default, Structural)]
pub struct Alarms {
    /// Pack or cell under-voltage
    pub low_voltage: u8,
    /// Pack or cell over-voltage
    pub high_voltage: u8,
    /// SOC too low
    pub low_soc: u8,
    /// Charge over-current
    pub high_charge_current: u8,
    /// Discharge over-current
    pub high_discharge_current: u8,
    /// Generic over-current
    pub high_current: u8,
    /// Cell imbalance
    pub cell_imbalance: u8,
    /// Charge over-temperature
    pub high_charge_temperature: u8,
    /// Charge under-temperature
    pub low_charge_temperature: u8,
    /// Cell under-voltage
    pub low_cell_voltage: u8,
    /// Global under-temperature
    pub low_temperature: u8,
    /// Global over-temperature
    pub high_temperature: u8,
    /// Blown fuse
    pub fuse_blown: u8,
}

impl Alarms {
    /// `true` when at least one alarm field is non-zero.
    pub open spec fn spec_any_active(&self) -> bool {
        ||| self.low_voltage != 0
        ||| self.high_voltage != 0
        ||| self.low_soc != 0
        ||| self.high_charge_current != 0
        ||| self.high_discharge_current != 0
        ||| self.high_current != 0
        ||| self.cell_imbalance != 0
        ||| self.high_charge_temperature != 0
        ||| self.low_charge_temperature != 0
        ||| self.low_cell_voltage != 0
        ||| self.low_temperature != 0
        ||| self.high_temperature != 0
        ||| self.fuse_blown != 0
    }

    /// Returns `true` if at least one alarm is active.
    pub fn any_active(&self) -> (b: bool)
        ensures
            b == self.spec_any_active(),
    {
        let a = self.low_voltage | self.high_voltage | self.low_soc | self.high_charge_current
            | self.high_discharge_current | self.high_current | self.cell_imbalance
            | self.high_charge_temperature | self.low_charge_temperature | self.low_cell_voltage
            | self.low_temperature | self.high_temperature;
        let r = a | self.fuse_blown;
        proof {
            lemma_or_nonzero(self.low_voltage, self.high_voltage);
            let a1 = self.low_voltage | self.high_voltage;
            lemma_or_nonzero(a1, self.low_soc);
            let a2 = a1 | self.low_soc;
            lemma_or_nonzero(a2, self.high_charge_current);
            let a3 = a2 | self.high_charge_current;
            lemma_or_nonzero(a3, self.high_discharge_current);
            let a4 = a3 | self.high_discharge_current;
            lemma_or_nonzero(a4, self.high_current);
            let a5 = a4 | self.high_current;
            lemma_or_nonzero(a5, self.cell_imbalance);
            let a6 = a5 | self.cell_imbalance;
            lemma_or_nonzero(a6, self.high_charge_temperature);
            let a7 = a6 | self.high_charge_temperature;
            lemma_or_nonzero(a7, self.low_charge_temperature);
            let a8 = a7 | self.low_charge_temperature;
            lemma_or_nonzero(a8, self.low_cell_voltage);
            let a9 = a8 | self.low_cell_voltage;
            lemma_or_nonzero(a9, self.low_temperature);
            let a10 = a9 | self.low_temperature;
            lemma_or_nonzero(a10, self.high_temperature);
            lemma_or_nonzero(a, self.fuse_blown);
        }
        r != 0
    }
}

/// A bitwise or is non-zero exactly when one of its operands is.
proof fn lemma_or_nonzero(a: u8, b: u8)
    ensures
        (a | b) != 0 <==> (a != 0 || b != 0),
{
    assert((a | b) != 0 <==> (a != 0 || b != 0)) by (bit_vector);
}

/// Operation permissions reported by the BMS.
#[derive(Debug, Clone, Copy, PartialEq, Eq, Default, Structural)]
pub struct IoData {
    /// Charge allowed (0/1)
    pub allow_to_charge: u8,
    /// Discharge allowed (0/1)
    pub allow_to_discharge: u8,
    /// Balancing allowed (0/1)
    pub allow_to_balance: u8,
    /// Heating allowed (0/1)
    pub allow_to_heat: u8,
    /// External relay (0/1)
    pub external_relay: u8,
}

/// Result of command 0x97: balancing flag of each cell (index 0 = cell 1).
#[derive(Debug, Clone, Default)]
pub struct BalanceFlags {
    /// Balancing state per cell; `true` = balancing.
    pub flags: Vec<bool>,
}

/// The entries of named maps as (name, value) pairs of character sequences.
pub open spec fn named_view(m: Seq<(String, u8)>) -> Seq<(Seq<char>, u8)> {
    m.map_values(|e: (String, u8)| (e.0@, e.1))
}

/// The entry of cell `k` (0-based): `("Cell{k+1}", 1 or 0)`.
pub open spec fn flag_entry(flags: Seq<bool>, k: int) -> (Seq<char>, u8) {
    (crate::text::cell_name(k + 1), if flags[k] { 1u8 } else { 0u8 })
}

/// The names of `v` are in strictly increasing string order.
pub open spec fn sorted_by_name(v: Seq<(Seq<char>, u8)>) -> bool {
    forall|a: int, b: int| 0 <= a < b < v.len() ==> crate::text::lex_lt(#[trigger] v[a].0, #[trigger] v[b].0)
}

/// `v` has `n` entries, among them the entry of each of the first `n` cells.
pub open spec fn holds_entries(v: Seq<(Seq<char>, u8)>, flags: Seq<bool>, n: int) -> bool {
    &&& v.len() == n
    &&& forall|k: int|
        #![trigger flag_entry(flags, k)]
        0 <= k < n ==> exists|p: int| #![trigger v[p]] 0 <= p < v.len() && v[p] == flag_entry(flags, k)
}

/// Every name in `v` is the name of one of the first `n` cells.
pub open spec fn names_below(v: Seq<(Seq<char>, u8)>, n: int) -> bool {
    forall|q: int|
        #![trigger v[q]]
        0 <= q < v.len() ==> exists|j: int|
            #![trigger crate::text::cell_name(j + 1)]
            0 <= j < n && v[q].0 == crate::text::cell_name(j + 1)
}

proof fn lemma_cell_names_differ(k: int, j: int)
    requires
        0 <= k,
        0 <= j,
        k != j,
    ensures
        crate::text::cell_name(k + 1) != crate::text::cell_name(j + 1),
{
    let a = crate::text::cell_name(k + 1);
    let b = crate::text::cell_name(j + 1);
    if a == b {
        let w = crate::text::cell_word();
        assert(a.subrange(4, a.len() as int) =~= crate::text::decimal((k + 1) as nat));
        assert(b.subrange(4, b.len() as int) =~= crate::text::decimal((j + 1) as nat));
        crate::text::lemma_decimal_injective((k + 1) as nat, (j + 1) as nat);
    }
}

proof fn lemma_insert_entry(v: Seq<(Seq<char>, u8)>, flags: Seq<bool>, i: int, p: int, e: (Seq<char>, u8))
    requires
        0 <= i < flags.len(),
        sorted_by_name(v),
        holds_entries(v, flags, i),
        0 <= p <= v.len(),
        e == flag_entry(flags, i),
        names_below(v, i),
        forall|q: int| 0 <= q < p ==> crate::text::lex_lt(#[trigger] v[q].0, e.0),
        p < v.len() ==> crate::text::lex_lt(e.0, v[p].0),
    ensures
        sorted_by_name(v.insert(p, e)),
        holds_entries(v.insert(p, e), flags, i + 1),
        names_below(v.insert(p, e), i + 1),
{
    lemma_insert_sorted(v, p, e);
    lemma_insert_entries(v, flags, i, p, e);
}

proof fn lemma_insert_sorted(v: Seq<(Seq<char>, u8)>, p: int, e: (Seq<char>, u8))
    requires
        sorted_by_name(v),
        0 <= p <= v.len(),
        forall|q: int| 0 <= q < p ==> crate::text::lex_lt(#[trigger] v[q].0, e.0),
        p < v.len() ==> crate::text::lex_lt(e.0, v[p].0),
    ensures
        sorted_by_name(v.insert(p, e)),
{
    let w = v.insert(p, e);
    assert forall|a: int, b: int| 0 <= a < b < w.len() implies crate::text::lex_lt(#[trigger] w[a].0, #[trigger] w[b].0) by {
        if b < p {
            assert(w[a] == v[a] && w[b] == v[b]);
        } else if b == p {
            assert(w[a] == v[a]);
        } else if a == p {
            assert(w[b] == v[b - 1]);
            if b - 1 > p {
                assert(crate::text::lex_lt(v[p].0, v[b - 1].0));
                crate::text::lemma_lex_lt_transitive(e.0, v[p].0, v[b - 1].0);
            }
        } else if a < p {
            assert(w[a] == v[a] && w[b] == v[b - 1]);
            if a < b - 1 {
                assert(crate::text::lex_lt(v[a].0, v[b - 1].0));
            } else {
                assert(crate::text::lex_lt(v[a].0, e.0));
                crate::text::lemma_lex_lt_transitive(v[a].0, e.0, v[p].0);
            }
        } else {
            assert(w[a] == v[a - 1] && w[b] == v[b - 1]);
            assert(crate::text::lex_lt(v[a - 1].0, v[b - 1].0));
        }
    }
}

proof fn lemma_insert_entries(v: Seq<(Seq<char>, u8)>, flags: Seq<bool>, i: int, p: int, e: (Seq<char>, u8))
    requires
        0 <= i,
        holds_entries(v, flags, i),
        names_below(v, i),
        0 <= p <= v.len(),
        e == flag_entry(flags, i),
    ensures
        holds_entries(v.insert(p, e), flags, i + 1),
        names_below(v.insert(p, e), i + 1),
{
    let w = v.insert(p, e);
    assert forall|k: int| #![trigger flag_entry(flags, k)] 0 <= k < i + 1 implies exists|q: int| #![trigger w[q]] 0 <= q < w.len() && w[q] == flag_entry(flags, k) by {
        if k == i {
            assert(w[p] == e);
        } else {
            let q = choose|q: int| #![trigger v[q]] 0 <= q < v.len() && v[q] == flag_entry(flags, k);
            if q < p {
                assert(w[q] == v[q]);
            } else {
                assert(w[q + 1] == v[q]);
            }
        }
    }
    assert forall|q: int| #![trigger w[q]] 0 <= q < w.len() implies exists|j: int| #![trigger crate::text::cell_name(j + 1)] 0 <= j < i + 1 && w[q].0 == crate::text::cell_name(j + 1) by {
        if q == p {
            assert(w[q].0 == crate::text::cell_name(i + 1));
        } else if q < p {
            assert(w[q] == v[q]);
            let j = choose|j: int| #![trigger crate::text::cell_name(j + 1)] 0 <= j < i && v[q].0 == crate::text::cell_name(j + 1);
            assert(w[q].0 == crate::text::cell_name(j + 1));
        } else {
            assert(w[q] == v[q - 1]);
            let j = choose|j: int| #![trigger crate::text::cell_name(j + 1)] 0 <= j < i && v[q - 1].0 == crate::text::cell_name(j + 1);
            assert(w[q].0 == crate::text::cell_name(j + 1));
        }
    }
}

impl BalanceFlags {
    /// The named entries ("Cell1" -> 0/1, "Cell2" -> ...) of the flags, in the
    /// order of their names as strings (`Cell1`, `Cell10`, `Cell11`, ...,
    /// `Cell2`, ...), the order of a map keyed by the names.
    pub fn to_named_map(&self) -> (m: Vec<(String, u8)>)
        ensures
            sorted_by_name(named_view(m@)),
            holds_entries(named_view(m@), self.flags@, self.flags@.len() as int),
            names_below(named_view(m@), self.flags@.len() as int),
    {
        let mut m: Vec<(String, u8)> = Vec::new();
        let mut i: usize = 0;
        proof {
            assert(named_view(m@) =~= Seq::<(Seq<char>, u8)>::empty());
        }
        while i < self.flags.len()
            invariant
                i <= self.flags@.len(),
                sorted_by_name(named_view(m@)),
                holds_entries(named_view(m@), self.flags@, i as int),
                names_below(named_view(m@), i as int),
            decreases self.flags.len() - i,
        {
            let ghost flags = self.flags@;
            let name = crate::text::cell_key(i + 1);
            let bit: u8 = if self.flags[i] { 1 } else { 0 };
            let ghost e = flag_entry(flags, i as int);
            let ghost v = named_view(m@);
            let mut p: usize = 0;
            while p < m.len() && crate::text::str_lt(m[p].0.as_str(), name.as_str())
                invariant
                    p <= m@.len(),
                    v == named_view(m@),
                    name@ == e.0,
                    forall|q: int| 0 <= q < p ==> crate::text::lex_lt(#[trigger] v[q].0, e.0),
                decreases m.len() - p,
            {
                p = p + 1;
            }
            proof {
                if p < m.len() {
                    assert(!crate::text::lex_lt(v[p as int].0, e.0));
                    let k = choose|k: int| #![trigger crate::text::cell_name(k + 1)] 0 <= k < i && v[p as int].0 == crate::text::cell_name(k + 1);
                    lemma_cell_names_differ(k, i as int);
                    crate::text::lemma_lex_lt_total(v[p as int].0, e.0);
                    assert(crate::text::lex_lt(e.0, v[p as int].0));
                }
            }
            m.insert(p, (name, bit));
            proof {
                assert(named_view(m@) =~= v.insert(p as int, e));
                lemma_insert_entry(v, flags, i as int, p as int, e);
            }
            i = i + 1;
        }
        m
    }
}

/// Result of command 0x90 in protocol units.
#[derive(Debug, Clone, Copy, PartialEq, Eq, Default, Structural)]
pub struct SocRaw {
    /// Total voltage in tenths of a volt.
    pub voltage_dv: u16,
    /// Current as sent: tenths of an ampere offset by 30000 (above = charge).
    pub current_raw: u16,
    /// State of charge in tenths of a percent.
    pub soc_permille: u16,
}

/// Result of command 0x93: MOS state, cycles, residual capacity.
#[derive(Debug, Clone, Copy, PartialEq, Eq, Default, Structural)]
pub struct MosStatus {
    pub charge_mos: bool,
    pub discharge_mos: bool,
    pub bms_life: u8,
    pub residual_capacity_mah: u32,
    pub charge_cycles: u32,
}

/// Result of command 0x94: status information.
#[derive(Debug, Clone, Copy, PartialEq, Eq, Default, Structural)]
pub struct StatusInfo {
    pub cell_count: u8,
    pub temp_sensor_count: u8,
    pub charger_status: u8,
    pub load_status: u8,
    pub dio_states: u8,
    pub cycle_count: u16,
}

} // verus!
