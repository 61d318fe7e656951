//! The start-up decisions of the server: its command line, when it looks for
//! the serial port and the BMS by itself, and which BMS it simulates.

use vstd::prelude::*;
use crate::text::{
    address_hex, address_hex_text, all_digits, digit_value, digits_value, lower_hex_digit_char, parse_addr_spec, parse_addresses,
    parse_uint, parsed_addresses, split_on, str_eq, trim, trim_end, trim_start,
};

verus! {

/// Command line of the server.
#[derive(Debug, Clone)]
pub struct ServerArgs {
    /// `--simulate` or `-s`: simulated BMS instead of the serial bus.
    pub simulate: bool,
    /// `--sim-bms 1,2`: the simulated addresses.
    pub sim_addrs: Vec<u8>,
    /// `--port` or `-p`: the serial port.
    pub port: Option<String>,
    /// `--bms 0x01,0x02`: the addresses polled on the bus.
    pub bms_addrs: Vec<u8>,
}

/// The arguments as character sequences.
pub open spec fn arg_texts(args: Seq<String>) -> Seq<Seq<char>> {
    args.map_values(|a: String| a@)
}

/// `true` when argument `i` is `f1` or `f2` and another argument follows it.
pub open spec fn is_first_flag(args: Seq<Seq<char>>, f1: Seq<char>, f2: Seq<char>, i: int) -> bool {
    &&& 0 <= i && i + 1 < args.len()
    &&& (args[i] == f1 || args[i] == f2)
    &&& forall|k: int| 0 <= k < i ==> !(#[trigger] args[k] == f1 || args[k] == f2)
}

/// The argument that follows the first `f1` or `f2` (one that is not the
/// last argument), if any.
pub open spec fn flag_value(args: Seq<Seq<char>>, f1: Seq<char>, f2: Seq<char>) -> Option<Seq<char>> {
    if exists|i: int| is_first_flag(args, f1, f2, i) {
        Some(args[(choose|i: int| is_first_flag(args, f1, f2, i)) + 1])
    } else {
        None
    }
}

/// The addresses listed after flag `f`, or none.
pub open spec fn flag_addresses(args: Seq<Seq<char>>, f: Seq<char>) -> Seq<u8> {
    match flag_value(args, f, f) {
        Some(v) => parsed_addresses(split_on(v, ',')),
        None => Seq::empty(),
    }
}

proof fn lemma_first_flag_unique(args: Seq<Seq<char>>, f1: Seq<char>, f2: Seq<char>, i: int)
    requires
        is_first_flag(args, f1, f2, i),
    ensures
        flag_value(args, f1, f2) == Some(args[i + 1]),
{
    let c = choose|j: int| is_first_flag(args, f1, f2, j);
    assert(is_first_flag(args, f1, f2, c));
    if c < i {
        assert(!(args[c] == f1 || args[c] == f2));
    } else if c > i {
        assert(!(args[i] == f1 || args[i] == f2));
    }
}

/// The position of the argument that follows the first `f1` or `f2`.
fn find_flag_value(args: &Vec<String>, f1: &str, f2: &str) -> (r: Option<usize>)
    ensures
        r is None ==> flag_value(arg_texts(args@), f1@, f2@) is None,
        r matches Some(j) ==> j < args@.len() && flag_value(arg_texts(args@), f1@, f2@) == Some(args@[j as int]@),
{
    let ghost t = arg_texts(args@);
    let mut i: usize = 0;
    while i < args.len() && i + 1 < args.len()
        invariant
            i <= args@.len(),
            t == arg_texts(args@),
            forall|k: int| 0 <= k < i ==> !(#[trigger] t[k] == f1@ || t[k] == f2@),
        decreases args.len() - i,
    {
        let a = args[i].as_str();
        if str_eq(a, f1) || str_eq(a, f2) {
            proof {
                assert(t[i as int] == args@[i as int]@);
                lemma_first_flag_unique(t, f1@, f2@, i as int);
            }
            return Some(i + 1);
        }
        proof {
            assert(t[i as int] == args@[i as int]@);
        }
        i = i + 1;
    }
    proof {
        if exists|j: int| is_first_flag(t, f1@, f2@, j) {
            let j = choose|j: int| is_first_flag(t, f1@, f2@, j);
            assert(j < i || j + 1 >= args@.len());
        }
    }
    None
}

/// `true` when some argument is `f1` or `f2`.
fn has_flag(args: &Vec<String>, f1: &str, f2: &str) -> (b: bool)
    ensures
        b == exists|i: int| 0 <= i < args@.len() && (args@[i]@ == f1@ || args@[i]@ == f2@),
{
    let mut i: usize = 0;
    while i < args.len()
        invariant
            i <= args@.len(),
            forall|k: int| 0 <= k < i ==> !(#[trigger] args@[k]@ == f1@ || args@[k]@ == f2@),
        decreases args.len() - i,
    {
        if str_eq(args[i].as_str(), f1) || str_eq(args[i].as_str(), f2) {
            return true;
        }
        i = i + 1;
    }
    false
}

/// The addresses listed after flag `f`.
fn addresses_after(args: &Vec<String>, f: &str) -> (v: Vec<u8>)
    ensures
        v@ == flag_addresses(arg_texts(args@), f@),
{
    match find_flag_value(args, f, f) {
        Some(j) => parse_addresses(args[j].as_str()),
        None => Vec::new(),
    }
}

impl ServerArgs {
    /// Reads the command line `args` (the program name first). A flag that
    /// needs a value and is the last argument is ignored; only the first
    /// occurrence of a flag counts.
    pub fn from_args(args: &Vec<String>) -> (a: Self)
        ensures
            a.simulate == exists|i: int|
                0 <= i < args@.len() && (args@[i]@ == "--simulate"@ || args@[i]@ == "-s"@),
            a.sim_addrs@ == flag_addresses(arg_texts(args@), "--sim-bms"@),
            a.bms_addrs@ == flag_addresses(arg_texts(args@), "--bms"@),
            a.port is None <==> flag_value(arg_texts(args@), "--port"@, "-p"@) is None,
            a.port matches Some(p) ==> flag_value(arg_texts(args@), "--port"@, "-p"@) == Some(p@),
    {
        let simulate = has_flag(args, "--simulate", "-s");
        let sim_addrs = addresses_after(args, "--sim-bms");
        let port = match find_flag_value(args, "--port", "-p") {
            Some(j) => Some(args[j].clone()),
            None => None,
        };
        let bms_addrs = addresses_after(args, "--bms");
        ServerArgs { simulate, sim_addrs, port, bms_addrs }
    }

    /// Look for the serial port by itself: only in hardware mode, when no
    /// port was given and no configuration file was found.
    pub fn auto_detect_port(&self, config_from_file: bool) -> (b: bool)
        ensures
            b == (!self.simulate && self.port is None && !config_from_file),
    {
        !self.simulate && self.port.is_none() && !config_from_file
    }

    /// Scan the bus for BMS: only in hardware mode, when no address was given
    /// and no configuration file was found.
    pub fn auto_discover_addresses(&self, config_from_file: bool) -> (b: bool)
        ensures
            b == (!self.simulate && self.bms_addrs@.len() == 0 && !config_from_file),
    {
        !self.simulate && self.bms_addrs.len() == 0 && !config_from_file
    }

    /// The simulated BMS: those given with `--sim-bms`, else the configured
    /// ones, else 0x01 and 0x02.
    pub fn simulation_addresses(&self, configured: &Vec<u8>) -> (v: Vec<u8>)
        ensures
            v@ == (if self.sim_addrs@.len() > 0 {
                self.sim_addrs@
            } else if configured@.len() > 0 {
                configured@
            } else {
                seq![1u8, 2u8]
            }),
    {
        if self.sim_addrs.len() > 0 {
            self.sim_addrs.clone()
        } else if configured.len() > 0 {
            configured.clone()
        } else {
            let v: Vec<u8> = vec![1, 2];
            assert(v@ =~= seq![1u8, 2u8]);
            v
        }
    }
}

/// The addresses given on the command line, written `0x01` as in the
/// configuration file.
pub fn address_strings(addrs: &Vec<u8>) -> (v: Vec<String>)
    ensures
        v@.len() == addrs@.len(),
        forall|i: int| 0 <= i < addrs@.len() ==> (#[trigger] v@[i])@ == address_hex_text(addrs@[i]),
{
    let mut v: Vec<String> = Vec::new();
    let mut i: usize = 0;
    while i < addrs.len()
        invariant
            i <= addrs@.len(),
            v@.len() == i,
            forall|k: int| 0 <= k < i ==> (#[trigger] v@[k])@ == address_hex_text(addrs@[k]),
        decreases addrs.len() - i,
    {
        v.push(address_hex(addrs[i]));
        i = i + 1;
    }
    v
}

proof fn lemma_lower_hex_digit(d: nat)
    requires
        d < 16,
    ensures
        digit_value(lower_hex_digit_char(d), 16) == Some(d),
{
}

/// An address written as the configuration file writes it (`0x28`) reads
/// back as the same address.
pub proof fn lemma_address_hex_parses(a: u8)
    ensures
        parse_addr_spec(address_hex_text(a)) == Some(a),
{
    let t = address_hex_text(a);
    let hi = (a / 16) as nat;
    let lo = (a % 16) as nat;
    lemma_lower_hex_digit(hi);
    lemma_lower_hex_digit(lo);
    assert(trim_start(t) == t);
    assert(trim_end(t) == t);
    assert(trim(t) == t);
    let d = t.subrange(2, 4);
    assert(d =~= seq![lower_hex_digit_char(hi), lower_hex_digit_char(lo)]);
    assert(all_digits(d, 16));
    assert(d.drop_last() =~= seq![lower_hex_digit_char(hi)]);
    assert(d.drop_last().drop_last() =~= Seq::<char>::empty());
    assert(digits_value(d.drop_last().drop_last(), 16) == 0);
    assert(digits_value(d.drop_last(), 16) == hi);
    assert(digits_value(d, 16) == hi * 16 + lo);
    assert(parse_uint(d, 16, 255) == Some(a as nat));
}

/// The addresses given on the command line survive the way through the
/// configuration: written with `address_strings` and read back as the
/// configured addresses, they are the same addresses in the same order.
pub proof fn lemma_cli_addresses_roundtrip(addrs: Seq<u8>)
    ensures
        parsed_addresses(Seq::new(addrs.len(), |i: int| address_hex_text(addrs[i]))) == addrs,
    decreases addrs.len(),
{
    let texts = Seq::new(addrs.len(), |i: int| address_hex_text(addrs[i]));
    if addrs.len() > 0 {
        let init = addrs.drop_last();
        lemma_cli_addresses_roundtrip(init);
        assert(texts.drop_last() =~= Seq::new(init.len(), |i: int| address_hex_text(init[i])));
        lemma_address_hex_parses(addrs.last());
        assert(texts.last() == address_hex_text(addrs.last()));
        assert(parsed_addresses(texts) =~= init + seq![addrs.last()]);
        assert(init + seq![addrs.last()] =~= addrs);
    } else {
        assert(texts =~= Seq::<Seq<char>>::empty());
    }
}

} // verus!
