//! Text helpers: addresses written in decimal or hexadecimal, MQTT topics,
//! cell identifiers, and the short labels shown to users.
//!
//! Strings are handled through their sequence of characters (`s@`).

use vstd::prelude::*;

verus! {

// =============================================================================
// Characters
// =============================================================================

/// The characters of `s`, in order.
pub fn chars_of(s: &str) -> (v: Vec<char>)
    ensures
        v@ == s@,
{
    let mut v: Vec<char> = Vec::new();
    for c in it: s.chars()
        invariant
            v@ == it.seq().take(it.index() as int),
            it.seq() == s@,
    {
        v.push(c);
    }
    v
}

/// Unicode `White_Space` characters (what `char::is_whitespace` accepts).
pub open spec fn is_whitespace(c: char) -> bool {
    ||| c == ' '
    ||| ('\u{9}' <= c && c <= '\u{d}')
    ||| c == '\u{85}'
    ||| c == '\u{a0}'
    ||| c == '\u{1680}'
    ||| ('\u{2000}' <= c && c <= '\u{200a}')
    ||| c == '\u{2028}'
    ||| c == '\u{2029}'
    ||| c == '\u{202f}'
    ||| c == '\u{205f}'
    ||| c == '\u{3000}'
}

/// `char::is_whitespace`.
pub fn is_whitespace_char(c: char) -> (b: bool)
    ensures
        b == is_whitespace(c),
{
    c == ' ' || ('\u{9}' <= c && c <= '\u{d}') || c == '\u{85}' || c == '\u{a0}' || c == '\u{1680}'
        || ('\u{2000}' <= c && c <= '\u{200a}') || c == '\u{2028}' || c == '\u{2029}' || c
        == '\u{202f}' || c == '\u{205f}' || c == '\u{3000}'
}

/// `s` without its leading white space.
pub open spec fn trim_start(s: Seq<char>) -> Seq<char>
    decreases s.len(),
{
    if s.len() > 0 && is_whitespace(s[0]) {
        trim_start(s.drop_first())
    } else {
        s
    }
}

/// `s` without its trailing white space.
pub open spec fn trim_end(s: Seq<char>) -> Seq<char>
    decreases s.len(),
{
    if s.len() > 0 && is_whitespace(s.last()) {
        trim_end(s.drop_last())
    } else {
        s
    }
}

/// `s` without leading and trailing white space (`str::trim`).
pub open spec fn trim(s: Seq<char>) -> Seq<char> {
    trim_end(trim_start(s))
}

proof fn lemma_trim_start_index(s: Seq<char>, i: int)
    requires
        0 <= i <= s.len(),
        forall|k: int| 0 <= k < i ==> is_whitespace(#[trigger] s[k]),
        i == s.len() || !is_whitespace(s[i]),
    ensures
        trim_start(s) == s.subrange(i, s.len() as int),
    decreases i,
{
    if i == 0 {
        assert(s.subrange(0, s.len() as int) =~= s);
    } else {
        let t = s.drop_first();
        assert forall|k: int| 0 <= k < i - 1 implies is_whitespace(#[trigger] t[k]) by {
            assert(t[k] == s[k + 1]);
        }
        lemma_trim_start_index(t, i - 1);
        assert(t.subrange(i - 1, t.len() as int) =~= s.subrange(i, s.len() as int));
    }
}

proof fn lemma_trim_end_index(s: Seq<char>, j: int)
    requires
        0 <= j <= s.len(),
        forall|k: int| j <= k < s.len() ==> is_whitespace(#[trigger] s[k]),
        j == 0 || !is_whitespace(s[j - 1]),
    ensures
        trim_end(s) == s.subrange(0, j),
    decreases s.len() - j,
{
    if j == s.len() {
        assert(s.subrange(0, j) =~= s);
    } else {
        let t = s.drop_last();
        assert forall|k: int| j <= k < t.len() implies is_whitespace(#[trigger] t[k]) by {
            assert(t[k] == s[k]);
        }
        lemma_trim_end_index(t, j);
        assert(t.subrange(0, j) =~= s.subrange(0, j));
    }
}

/// The bounds `[a, b)` of `trim(v@)` inside `v`.
pub(crate) fn trim_bounds(v: &Vec<char>) -> (r: (usize, usize))
    ensures
        r.0 <= r.1 <= v@.len(),
        trim(v@) == v@.subrange(r.0 as int, r.1 as int),
{
    let n = v.len();
    let mut a: usize = 0;
    while a < n && is_whitespace_char(v[a])
        invariant
            a <= n,
            n == v@.len(),
            forall|k: int| 0 <= k < a ==> is_whitespace(#[trigger] v@[k]),
        decreases n - a,
    {
        a = a + 1;
    }
    proof {
        lemma_trim_start_index(v@, a as int);
    }
    let ghost t = v@.subrange(a as int, n as int);
    let mut b: usize = n;
    while b > a && is_whitespace_char(v[b - 1])
        invariant
            a <= b <= n,
            n == v@.len(),
            t == v@.subrange(a as int, n as int),
            forall|k: int| b <= k < n ==> is_whitespace(#[trigger] v@[k]),
        decreases b - a,
    {
        b = b - 1;
    }
    proof {
        assert forall|k: int| b - a <= k < t.len() implies is_whitespace(#[trigger] t[k]) by {
            assert(t[k] == v@[k + a]);
        }
        lemma_trim_end_index(t, b - a);
        assert(t.subrange(0, b - a) =~= v@.subrange(a as int, b as int));
    }
    (a, b)
}

// =============================================================================
// Unsigned integers (`str::parse` / `from_str_radix`)
// =============================================================================

/// The value of digit `c` in base `radix` (10 or 16), if it is one.
pub open spec fn digit_value(c: char, radix: nat) -> Option<nat> {
    if '0' <= c && c <= '9' {
        Some((c as nat - 48) as nat)
    } else if radix == 16 && 'a' <= c && c <= 'f' {
        Some((c as nat - 87) as nat)
    } else if radix == 16 && 'A' <= c && c <= 'F' {
        Some((c as nat - 55) as nat)
    } else {
        None
    }
}

/// `true` when every character of `s` is a digit in base `radix`.
pub open spec fn all_digits(s: Seq<char>, radix: nat) -> bool {
    forall|i: int| 0 <= i < s.len() ==> (#[trigger] digit_value(s[i], radix)) is Some
}

/// The number written by the digits `s` in base `radix`.
pub open spec fn digits_value(s: Seq<char>, radix: nat) -> nat
    decreases s.len(),
{
    if s.len() == 0 {
        0
    } else {
        digits_value(s.drop_last(), radix) * radix + digit_value(s.last(), radix).unwrap()
    }
}

/// What `from_str_radix` (for an unsigned type whose largest value is `max`)
/// makes of `s`: an optional `+` sign followed by at least one digit, with a
/// value that fits.
pub open spec fn parse_uint(s: Seq<char>, radix: nat, max: nat) -> Option<nat> {
    let d = if s.len() > 0 && s[0] == '+' {
        s.drop_first()
    } else {
        s
    };
    if d.len() == 0 || !all_digits(d, radix) || digits_value(d, radix) > max {
        None
    } else {
        Some(digits_value(d, radix))
    }
}

proof fn lemma_digits_value_prefix(s: Seq<char>, radix: nat, k: int)
    requires
        radix >= 1,
        0 <= k <= s.len(),
        all_digits(s, radix),
    ensures
        digits_value(s.subrange(0, k), radix) <= digits_value(s, radix),
    decreases s.len() - k,
{
    if k < s.len() {
        let t = s.drop_last();
        assert forall|i: int| 0 <= i < t.len() implies (#[trigger] digit_value(t[i], radix)) is Some by {
            assert(t[i] == s[i]);
        }
        lemma_digits_value_prefix(t, radix, k);
        assert(t.subrange(0, k) =~= s.subrange(0, k));
        assert(digit_value(s[s.len() - 1], radix) is Some);
        let x = digits_value(t, radix);
        assert(x * radix >= x) by (nonlinear_arith)
            requires
                radix >= 1,
        ;
    } else {
        assert(s.subrange(0, k) =~= s);
    }
}

/// Parses `v[start..end)` as an unsigned number in base `radix` no larger than `max`.
pub(crate) fn parse_uint_range(v: &Vec<char>, start: usize, end: usize, radix: u32, max: u32) -> (r: Option<u32>)
    requires
        start <= end <= v@.len(),
        radix == 10 || radix == 16,
    ensures
        match (r, parse_uint(v@.subrange(start as int, end as int), radix as nat, max as nat)) {
            (Some(a), Some(b)) => a as nat == b,
            (None, None) => true,
            _ => false,
        },
{
    let ghost s = v@.subrange(start as int, end as int);
    let mut i = start;
    if i < end && v[i] == '+' {
        i = i + 1;
    }
    let ghost d = v@.subrange(i as int, end as int);
    proof {
        if s.len() > 0 && s[0] == '+' {
            assert(d =~= s.drop_first());
        } else {
            assert(d =~= s);
        }
    }
    if i == end {
        return None;
    }
    let d_start = i;
    let mut acc: u64 = 0;
    while i < end
        invariant
            d_start <= i <= end <= v@.len(),
            d == v@.subrange(d_start as int, end as int),
            s == v@.subrange(start as int, end as int),
            d == (if s.len() > 0 && s[0] == '+' { s.drop_first() } else { s }),
            radix == 10 || radix == 16,
            acc <= max,
            all_digits(v@.subrange(d_start as int, i as int), radix as nat),
            acc == digits_value(v@.subrange(d_start as int, i as int), radix as nat),
        decreases end - i,
    {
        let c = v[i];
        let dv: u32 = if '0' <= c && c <= '9' {
            (c as u32) - 48
        } else if radix == 16 && 'a' <= c && c <= 'f' {
            (c as u32) - 87
        } else if radix == 16 && 'A' <= c && c <= 'F' {
            (c as u32) - 55
        } else {
            proof {
                assert(d[i - d_start] == c);
                assert(digit_value(d[i - d_start], radix as nat) is None);
            }
            return None;
        };
        let ghost pre = v@.subrange(d_start as int, i as int);
        let ghost next = v@.subrange(d_start as int, i + 1);
        proof {
            assert(next.drop_last() =~= pre);
            assert(next.last() == c);
            assert forall|k: int| 0 <= k < next.len() implies (#[trigger] digit_value(next[k], radix as nat)) is Some by {
                if k < pre.len() {
                    assert(next[k] == pre[k]);
                }
            }
        }
        assert(acc * (radix as u64) <= 0xFFFF_FFFFu64 * 16) by (nonlinear_arith)
            requires
                acc <= 0xFFFF_FFFFu64,
                radix <= 16,
        ;
        acc = acc * (radix as u64) + (dv as u64);
        if acc > max as u64 {
            proof {
                if all_digits(d, radix as nat) {
                    assert(next =~= d.subrange(0, i + 1 - d_start));
                    lemma_digits_value_prefix(d, radix as nat, i + 1 - d_start);
                }
            }
            return None;
        }
        i = i + 1;
    }
    assert(v@.subrange(d_start as int, i as int) =~= d);
    Some(acc as u32)
}

/// Parses `s` as an unsigned decimal number no larger than `max`
/// (`str::parse` of an unsigned type: an optional `+`, then digits; no white
/// space allowed).
pub fn parse_decimal(s: &str, max: u32) -> (r: Option<u32>)
    ensures
        r is None <==> parse_uint(s@, 10, max as nat) is None,
        r matches Some(v) ==> parse_uint(s@, 10, max as nat) == Some(v as nat),
{
    let v = chars_of(s);
    assert(v@.subrange(0, v@.len() as int) =~= s@);
    parse_uint_range(&v, 0, v.len(), 10, max)
}

/// The address written in `s`: white space around it is ignored; with a `0x`
/// or `0X` prefix the rest is hexadecimal, otherwise decimal.
pub open spec fn parse_addr_spec(s: Seq<char>) -> Option<u8> {
    let t = trim(s);
    let r = if t.len() >= 2 && t[0] == '0' && (t[1] == 'x' || t[1] == 'X') {
        parse_uint(t.subrange(2, t.len() as int), 16, 255)
    } else {
        parse_uint(t, 10, 255)
    };
    match r {
        Some(v) => Some(v as u8),
        None => None,
    }
}

/// Parses an address written `v[start..end)`.
fn parse_addr_range(v: &Vec<char>, start: usize, end: usize) -> (r: Option<u8>)
    requires
        start <= end <= v@.len(),
    ensures
        r == parse_addr_spec(v@.subrange(start as int, end as int)),
{
    let ghost s = v@.subrange(start as int, end as int);
    let piece = copy_range(v, start, end);
    let (a, b) = trim_bounds(&piece);
    proof {
        assert(piece@ =~= s);
    }
    let r = if b - a >= 2 && piece[a] == '0' && (piece[a + 1] == 'x' || piece[a + 1] == 'X') {
        proof {
            assert(piece@.subrange(a + 2, b as int) =~= trim(s).subrange(2, trim(s).len() as int));
        }
        parse_uint_range(&piece, a + 2, b, 16, 255)
    } else {
        parse_uint_range(&piece, a, b, 10, 255)
    };
    match r {
        Some(x) => Some(x as u8),
        None => None,
    }
}

/// Copies `v[start..end)`.
pub(crate) fn copy_range(v: &Vec<char>, start: usize, end: usize) -> (w: Vec<char>)
    requires
        start <= end <= v@.len(),
    ensures
        w@ == v@.subrange(start as int, end as int),
{
    let mut w: Vec<char> = Vec::new();
    let mut i = start;
    while i < end
        invariant
            start <= i <= end <= v@.len(),
            w@ == v@.subrange(start as int, i as int),
        decreases end - i,
    {
        w.push(v[i]);
        i = i + 1;
    }
    w
}

/// Parses a BMS address such as `"0x01"`, `"0X28"`, `"1"` or `" 40 "`;
/// `None` when it is not a valid `u8`.
pub fn parse_addr(s: &str) -> (r: Option<u8>)
    ensures
        r == parse_addr_spec(s@),
{
    let v = chars_of(s);
    let r = parse_addr_range(&v, 0, v.len());
    assert(v@.subrange(0, v@.len() as int) =~= s@);
    r
}

// =============================================================================
// Lists of addresses
// =============================================================================

/// Left-to-right scan of `s` split at `sep`: the pieces completed so far and
/// the piece being read.
pub open spec fn split_scan(s: Seq<char>, sep: char) -> (Seq<Seq<char>>, Seq<char>)
    decreases s.len(),
{
    if s.len() == 0 {
        (Seq::empty(), Seq::empty())
    } else {
        let (done, cur) = split_scan(s.drop_last(), sep);
        if s.last() == sep {
            (done.push(cur), Seq::empty())
        } else {
            (done, cur.push(s.last()))
        }
    }
}

/// The pieces of `s` between the separators `sep` (`str::split`).
pub open spec fn split_on(s: Seq<char>, sep: char) -> Seq<Seq<char>> {
    split_scan(s, sep).0.push(split_scan(s, sep).1)
}

/// The addresses among `pieces` that parse, in order.
pub open spec fn parsed_addresses(pieces: Seq<Seq<char>>) -> Seq<u8>
    decreases pieces.len(),
{
    if pieces.len() == 0 {
        Seq::empty()
    } else {
        parsed_addresses(pieces.drop_last()) + match parse_addr_spec(pieces.last()) {
            Some(a) => seq![a],
            None => Seq::empty(),
        }
    }
}

/// Parses a comma-separated list such as `"0x01,0x02"` or `"1, 2"`; entries that
/// are not valid addresses are skipped.
pub fn parse_addresses(s: &str) -> (r: Vec<u8>)
    ensures
        r@ == parsed_addresses(split_on(s@, ',')),
{
    let v = chars_of(s);
    let mut out: Vec<u8> = Vec::new();
    let mut piece_start: usize = 0;
    let mut i: usize = 0;
    while i < v.len()
        invariant
            piece_start <= i <= v@.len(),
            v@ == s@,
            out@ == parsed_addresses(split_scan(v@.subrange(0, i as int), ',').0),
            split_scan(v@.subrange(0, i as int), ',').1 == v@.subrange(piece_start as int, i as int),
        decreases v.len() - i,
    {
        let ghost pre = v@.subrange(0, i as int);
        let ghost next = v@.subrange(0, i + 1);
        proof {
            assert(next.drop_last() =~= pre);
        }
        if v[i] == ',' {
            let a = parse_addr_range(&v, piece_start, i);
            match a {
                Some(x) => {
                    out.push(x);
                },
                None => {},
            }
            proof {
                let done = split_scan(pre, ',').0.push(split_scan(pre, ',').1);
                assert(done.drop_last() =~= split_scan(pre, ',').0);
                assert(done.last() == split_scan(pre, ',').1);
            }
            piece_start = i + 1;
        } else {
            proof {
                assert(v@.subrange(piece_start as int, i + 1) =~= v@.subrange(piece_start as int, i as int).push(v@[i as int]));
            }
        }
        i = i + 1;
    }
    let a = parse_addr_range(&v, piece_start, v.len());
    match a {
        Some(x) => {
            out.push(x);
        },
        None => {},
    }
    proof {
        assert(v@.subrange(0, v@.len() as int) =~= s@);
        let pieces = split_on(s@, ',');
        assert(pieces.drop_last() =~= split_scan(s@, ',').0);
    }
    out
}

/// The board number written in `s`: decimal, white space around it ignored.
pub open spec fn parse_board_spec(s: Seq<char>) -> Option<u8> {
    match parse_uint(trim(s), 10, 255) {
        Some(v) => Some(v as u8),
        None => None,
    }
}

/// The board numbers among `pieces` that parse, in order.
pub open spec fn parsed_boards(pieces: Seq<Seq<char>>) -> Seq<u8>
    decreases pieces.len(),
{
    if pieces.len() == 0 {
        Seq::empty()
    } else {
        parsed_boards(pieces.drop_last()) + match parse_board_spec(pieces.last()) {
            Some(a) => seq![a],
            None => Seq::empty(),
        }
    }
}

/// Parses a board number written `v[start..end)`.
fn parse_board_range(v: &Vec<char>, start: usize, end: usize) -> (r: Option<u8>)
    requires
        start <= end <= v@.len(),
    ensures
        r == parse_board_spec(v@.subrange(start as int, end as int)),
{
    let ghost s = v@.subrange(start as int, end as int);
    let piece = copy_range(v, start, end);
    let (a, b) = trim_bounds(&piece);
    proof {
        assert(piece@ =~= s);
    }
    match parse_uint_range(&piece, a, b, 10, 255) {
        Some(x) => Some(x as u8),
        None => None,
    }
}

/// Parses a comma-separated list of decimal board numbers such as `"1,2"`;
/// entries that are not numbers from 0 to 255 are skipped.
pub fn parse_board_numbers(s: &str) -> (r: Vec<u8>)
    ensures
        r@ == parsed_boards(split_on(s@, ',')),
{
    let v = chars_of(s);
    let mut out: Vec<u8> = Vec::new();
    let mut piece_start: usize = 0;
    let mut i: usize = 0;
    while i < v.len()
        invariant
            piece_start <= i <= v@.len(),
            v@ == s@,
            out@ == parsed_boards(split_scan(v@.subrange(0, i as int), ',').0),
            split_scan(v@.subrange(0, i as int), ',').1 == v@.subrange(piece_start as int, i as int),
        decreases v.len() - i,
    {
        let ghost pre = v@.subrange(0, i as int);
        let ghost next = v@.subrange(0, i + 1);
        proof {
            assert(next.drop_last() =~= pre);
        }
        if v[i] == ',' {
            let a = parse_board_range(&v, piece_start, i);
            match a {
                Some(x) => {
                    out.push(x);
                },
                None => {},
            }
            proof {
                let done = split_scan(pre, ',').0.push(split_scan(pre, ',').1);
                assert(done.drop_last() =~= split_scan(pre, ',').0);
                assert(done.last() == split_scan(pre, ',').1);
            }
            piece_start = i + 1;
        } else {
            proof {
                assert(v@.subrange(piece_start as int, i + 1) =~= v@.subrange(piece_start as int, i as int).push(v@[i as int]));
            }
        }
        i = i + 1;
    }
    let a = parse_board_range(&v, piece_start, v.len());
    match a {
        Some(x) => {
            out.push(x);
        },
        None => {},
    }
    proof {
        assert(v@.subrange(0, v@.len() as int) =~= s@);
        let pieces = split_on(s@, ',');
        assert(pieces.drop_last() =~= split_scan(s@, ',').0);
    }
    out
}

/// The pieces of `s` between the separators `sep` (`str::split`), each as
/// its characters.
pub fn split_chars(s: &str, sep: char) -> (r: Vec<Vec<char>>)
    ensures
        r@.map_values(|p: Vec<char>| p@) == split_on(s@, sep),
{
    let v = chars_of(s);
    let mut out: Vec<Vec<char>> = Vec::new();
    let mut piece_start: usize = 0;
    let mut i: usize = 0;
    while i < v.len()
        invariant
            piece_start <= i <= v@.len(),
            v@ == s@,
            out@.map_values(|p: Vec<char>| p@) == split_scan(v@.subrange(0, i as int), sep).0,
            split_scan(v@.subrange(0, i as int), sep).1 == v@.subrange(piece_start as int, i as int),
        decreases v.len() - i,
    {
        let ghost pre = v@.subrange(0, i as int);
        let ghost next = v@.subrange(0, i + 1);
        proof {
            assert(next.drop_last() =~= pre);
        }
        if v[i] == sep {
            let piece = copy_range(&v, piece_start, i);
            let ghost before = out@;
            out.push(piece);
            proof {
                assert(out@.map_values(|p: Vec<char>| p@) =~= before.map_values(|p: Vec<char>| p@).push(piece@));
            }
            piece_start = i + 1;
        } else {
            proof {
                assert(v@.subrange(piece_start as int, i + 1) =~= v@.subrange(piece_start as int, i as int).push(v@[i as int]));
            }
        }
        i = i + 1;
    }
    let piece = copy_range(&v, piece_start, v.len());
    let ghost before = out@;
    out.push(piece);
    proof {
        assert(out@.map_values(|p: Vec<char>| p@) =~= before.map_values(|p: Vec<char>| p@).push(piece@));
        assert(v@.subrange(0, v@.len() as int) =~= s@);
    }
    out
}

/// Left-to-right scan of `s` split at white space: the words completed so
/// far and the word being read (empty between words).
pub open spec fn words_scan(s: Seq<char>) -> (Seq<Seq<char>>, Seq<char>)
    decreases s.len(),
{
    if s.len() == 0 {
        (Seq::empty(), Seq::empty())
    } else {
        let (done, cur) = words_scan(s.drop_last());
        if is_whitespace(s.last()) {
            if cur.len() > 0 {
                (done.push(cur), Seq::empty())
            } else {
                (done, Seq::empty())
            }
        } else {
            (done, cur.push(s.last()))
        }
    }
}

/// The non-empty runs of characters of `s` between white space
/// (`str::split_whitespace`).
pub open spec fn words(s: Seq<char>) -> Seq<Seq<char>> {
    if words_scan(s).1.len() > 0 {
        words_scan(s).0.push(words_scan(s).1)
    } else {
        words_scan(s).0
    }
}

/// `a` comes strictly before `b` in the order of `String`'s `Ord`
/// (character by character; a proper prefix comes first).
pub open spec fn lex_lt(a: Seq<char>, b: Seq<char>) -> bool
    decreases a.len(),
{
    if a.len() == 0 {
        b.len() > 0
    } else if b.len() == 0 {
        false
    } else if a[0] != b[0] {
        a[0] < b[0]
    } else {
        lex_lt(a.drop_first(), b.drop_first())
    }
}

/// `lex_lt` is transitive.
pub proof fn lemma_lex_lt_transitive(a: Seq<char>, b: Seq<char>, c: Seq<char>)
    requires
        lex_lt(a, b),
        lex_lt(b, c),
    ensures
        lex_lt(a, c),
    decreases a.len(),
{
    if a.len() > 0 && b.len() > 0 && c.len() > 0 && a[0] == b[0] && b[0] == c[0] {
        lemma_lex_lt_transitive(a.drop_first(), b.drop_first(), c.drop_first());
    }
}

/// Of two different sequences, exactly one comes before the other.
pub proof fn lemma_lex_lt_total(a: Seq<char>, b: Seq<char>)
    ensures
        a != b ==> (lex_lt(a, b) || lex_lt(b, a)),
        !(lex_lt(a, b) && lex_lt(b, a)),
        !lex_lt(a, a),
    decreases a.len(),
{
    if a.len() > 0 && b.len() > 0 && a[0] == b[0] {
        lemma_lex_lt_total(a.drop_first(), b.drop_first());
        if a != b {
            assert(a.drop_first() != b.drop_first()) by {
                if a.drop_first() == b.drop_first() {
                    assert forall|k: int| 0 <= k < a.len() implies a[k] == b[k] by {
                        if k > 0 {
                            assert(a[k] == a.drop_first()[k - 1]);
                            assert(b[k] == b.drop_first()[k - 1]);
                        }
                    }
                    assert(a =~= b);
                }
            }
        }
    } else if a.len() > 0 && b.len() > 0 {
    } else if a.len() == 0 && b.len() == 0 {
        assert(a =~= b);
    }
    if a.len() > 0 {
        lemma_lex_lt_total(a.drop_first(), a.drop_first());
    }
}

/// `true` when `a` comes strictly before `b` (`a < b` on strings).
pub fn str_lt(a: &str, b: &str) -> (r: bool)
    ensures
        r == lex_lt(a@, b@),
{
    let x = chars_of(a);
    let y = chars_of(b);
    let mut i: usize = 0;
    assert(x@.skip(0) =~= x@);
    assert(y@.skip(0) =~= y@);
    while i < x.len() && i < y.len() && x[i] == y[i]
        invariant
            i <= x@.len(),
            i <= y@.len(),
            x@ == a@,
            y@ == b@,
            lex_lt(a@, b@) == lex_lt(x@.skip(i as int), y@.skip(i as int)),
        decreases x.len() - i,
    {
        proof {
            assert(x@.skip(i as int).drop_first() =~= x@.skip(i + 1));
            assert(y@.skip(i as int).drop_first() =~= y@.skip(i + 1));
            assert(x@.skip(i as int)[0] == x@[i as int]);
            assert(y@.skip(i as int)[0] == y@[i as int]);
        }
        i = i + 1;
    }
    proof {
        if i < x.len() {
            assert(x@.skip(i as int)[0] == x@[i as int]);
        }
        if i < y.len() {
            assert(y@.skip(i as int)[0] == y@[i as int]);
        }
    }
    if i == x.len() {
        i < y.len()
    } else if i == y.len() {
        false
    } else {
        x[i] < y[i]
    }
}

/// Different numbers have different decimal writings.
pub proof fn lemma_decimal_injective(a: nat, b: nat)
    requires
        decimal(a) == decimal(b),
    ensures
        a == b,
{
    lemma_decimal_digits(a);
    lemma_decimal_digits(b);
}

/// `true` when `a` and `b` hold the same characters.
pub fn str_eq(a: &str, b: &str) -> (r: bool)
    ensures
        r == (a@ == b@),
{
    let x = String::from_str(a);
    let y = String::from_str(b);
    x == y
}

/// `true` when `v` holds the same characters as `b`.
pub fn chars_eq(v: &Vec<char>, b: &str) -> (r: bool)
    ensures
        r == (v@ == b@),
{
    let w = chars_of(b);
    if v.len() != w.len() {
        return false;
    }
    let mut i: usize = 0;
    while i < v.len()
        invariant
            i <= v@.len(),
            v@.len() == w@.len(),
            w@ == b@,
            forall|k: int| 0 <= k < i ==> v@[k] == w@[k],
        decreases v.len() - i,
    {
        if v[i] != w[i] {
            return false;
        }
        i = i + 1;
    }
    assert(v@ =~= w@);
    true
}

/// The configured addresses that parse, in order (entries that do not are skipped).
pub fn parse_address_list(addresses: &Vec<String>) -> (r: Vec<u8>)
    ensures
        r@ == parsed_addresses(addresses@.map_values(|a: String| a@)),
{
    let mut out: Vec<u8> = Vec::new();
    let mut i: usize = 0;
    while i < addresses.len()
        invariant
            i <= addresses@.len(),
            out@ == parsed_addresses(addresses@.map_values(|a: String| a@).subrange(0, i as int)),
        decreases addresses.len() - i,
    {
        let a = parse_addr(addresses[i].as_str());
        proof {
            let all = addresses@.map_values(|a: String| a@);
            assert(all.subrange(0, i + 1).drop_last() =~= all.subrange(0, i as int));
        }
        match a {
            Some(x) => {
                out.push(x);
            },
            None => {},
        }
        i = i + 1;
    }
    proof {
        let all = addresses@.map_values(|a: String| a@);
        assert(all.subrange(0, i as int) =~= all);
    }
    out
}

// =============================================================================
// MQTT topics
// =============================================================================

/// `"venus"`.
pub open spec fn venus_word() -> Seq<char> {
    seq!['v', 'e', 'n', 'u', 's']
}

/// Position of the first `c` in `s`, if any.
pub open spec fn find_char(s: Seq<char>, c: char) -> Option<int>
    decreases s.len(),
{
    if s.len() == 0 {
        None
    } else if s[0] == c {
        Some(0)
    } else {
        match find_char(s.drop_first(), c) {
            Some(k) => Some(k + 1),
            None => None,
        }
    }
}

pub(crate) proof fn lemma_find_char_index(s: Seq<char>, c: char, i: int)
    requires
        0 <= i <= s.len(),
        forall|k: int| 0 <= k < i ==> #[trigger] s[k] != c,
    ensures
        i < s.len() && s[i] == c ==> find_char(s, c) == Some(i),
        i == s.len() ==> find_char(s, c) is None,
    decreases i,
{
    if i > 0 {
        let t = s.drop_first();
        assert forall|k: int| 0 <= k < i - 1 implies #[trigger] t[k] != c by {
            assert(t[k] == s[k + 1]);
        }
        lemma_find_char_index(t, c, i - 1);
        assert(s[0] != c);
    }
}

/// The index in a topic `{prefix}/{index}/venus`, when `topic` has that shape
/// and the index is a valid `u8`.
pub open spec fn mqtt_index_spec(topic: Seq<char>, prefix: Seq<char>) -> Option<u8> {
    if topic.len() < prefix.len() || topic.subrange(0, prefix.len() as int) != prefix {
        None
    } else {
        let rest0 = topic.subrange(prefix.len() as int, topic.len() as int);
        if rest0.len() == 0 || rest0[0] != '/' {
            None
        } else {
            let rest = rest0.drop_first();
            match find_char(rest, '/') {
                None => None,
                Some(k) => if rest.subrange(k + 1, rest.len() as int) != venus_word() {
                    None
                } else {
                    match parse_uint(rest.subrange(0, k), 10, 255) {
                        Some(v) => Some(v as u8),
                        None => None,
                    }
                },
            }
        }
    }
}

proof fn lemma_find_char_found(s: Seq<char>, c: char)
    ensures
        find_char(s, c) matches Some(k) ==> 0 <= k < s.len() && s[k] == c
            && forall|j: int| 0 <= j < k ==> #[trigger] s[j] != c,
    decreases s.len(),
{
    if s.len() > 0 && s[0] != c {
        lemma_find_char_found(s.drop_first(), c);
        if let Some(k) = find_char(s, c) {
            assert forall|j: int| 0 <= j < k implies #[trigger] s[j] != c by {
                if j > 0 {
                    assert(s[j] == s.drop_first()[j - 1]);
                }
            }
        }
    }
}

/// The topics from which `extract_mqtt_index` reads an index are exactly of
/// the shape `{prefix}/{n}/venus`, where `n` holds no `/` and reads as that
/// index (an optional `+` then decimal digits, at most 255): any other topic,
/// such as one with another last level, an index above 255 or another start,
/// gives nothing.
pub proof fn lemma_mqtt_index_shape(topic: Seq<char>, prefix: Seq<char>, k: u8)
    requires
        mqtt_index_spec(topic, prefix) == Some(k),
    ensures
        exists|n: Seq<char>|
            #![trigger parse_uint(n, 10, 255)]
            topic == prefix + seq!['/'] + n + seq!['/'] + venus_word() && !n.contains('/') && parse_uint(n, 10, 255)
                == Some(k as nat),
{
    let rest0 = topic.subrange(prefix.len() as int, topic.len() as int);
    let rest = rest0.drop_first();
    lemma_find_char_found(rest, '/');
    let j = find_char(rest, '/').unwrap();
    let n = rest.subrange(0, j);
    assert(!n.contains('/')) by {
        if n.contains('/') {
            let i = choose|i: int| 0 <= i < n.len() && n[i] == '/';
            assert(rest[i] == '/');
        }
    }
    assert(topic =~= prefix + seq!['/'] + n + seq!['/'] + venus_word()) by {
        assert(topic =~= topic.subrange(0, prefix.len() as int) + rest0);
        assert(rest0 =~= seq!['/'] + rest);
        assert(rest =~= n + seq!['/'] + rest.subrange(j + 1, rest.len() as int));
    }
    match parse_uint(n, 10, 255) {
        Some(v) => {
            assert((v as u8) == k);
        },
        None => {},
    }
    assert(parse_uint(n, 10, 255) == Some(k as nat));
}

/// Extracts the index from a topic of the form `{prefix}/{index}/venus`:
/// `extract_mqtt_index("santuario/bms/2/venus", "santuario/bms")` is `Some(2)`.
pub fn extract_mqtt_index(topic: &str, prefix: &str) -> (r: Option<u8>)
    ensures
        r == mqtt_index_spec(topic@, prefix@),
{
    let t = chars_of(topic);
    let p = chars_of(prefix);
    let n = t.len();
    let pl = p.len();
    if n < pl {
        return None;
    }
    let mut i: usize = 0;
    while i < pl
        invariant
            i <= pl <= n,
            n == t@.len(),
            pl == p@.len(),
            t@ == topic@,
            p@ == prefix@,
            forall|k: int| 0 <= k < i ==> t@[k] == p@[k],
        decreases pl - i,
    {
        if t[i] != p[i] {
            proof {
                assert(t@.subrange(0, pl as int)[i as int] != p@[i as int]);
                assert(t@.subrange(0, pl as int) != p@);
                assert(topic@.subrange(0, prefix@.len() as int) != prefix@);
            }
            return None;
        }
        i = i + 1;
    }
    proof {
        assert(t@.subrange(0, pl as int) =~= p@);
    }
    let ghost rest0 = t@.subrange(pl as int, n as int);
    if pl == n || t[pl] != '/' {
        return None;
    }
    let rs = pl + 1;
    let ghost rest = rest0.drop_first();
    assert(rest =~= t@.subrange(rs as int, n as int));
    let mut j = rs;
    while j < n && t[j] != '/'
        invariant
            rs <= j <= n,
            n == t@.len(),
            t@ == topic@,
            rest == t@.subrange(rs as int, n as int),
            forall|k: int| 0 <= k < j - rs ==> #[trigger] rest[k] != '/',
        decreases n - j,
    {
        j = j + 1;
    }
    proof {
        lemma_find_char_index(rest, '/', j - rs);
    }
    if j == n {
        return None;
    }
    let ghost suffix = t@.subrange(j + 1, n as int);
    assert(rest.subrange(j - rs + 1, rest.len() as int) =~= suffix);
    let sl = n - (j + 1);
    if !(sl == 5 && t[j + 1] == 'v' && t[j + 2] == 'e' && t[j + 3] == 'n' && t[j + 4] == 'u' && t[j + 5] == 's') {
        proof {
            if suffix == venus_word() {
                assert(suffix[0] == 'v' && suffix[1] == 'e' && suffix[2] == 'n' && suffix[3] == 'u' && suffix[4] == 's');
            }
        }
        return None;
    }
    assert(suffix =~= venus_word());
    assert(rest.subrange(0, j - rs) =~= t@.subrange(rs as int, j as int));
    match parse_uint_range(&t, rs, j, 10, 255) {
        Some(x) => Some(x as u8),
        None => None,
    }
}

// =============================================================================
// Cell identifiers
// =============================================================================

/// `"Cell"`.
pub open spec fn cell_word() -> Seq<char> {
    seq!['C', 'e', 'l', 'l']
}

/// `s` without any number of repetitions of the non-empty prefix `p`
/// (`str::trim_start_matches`).
pub open spec fn strip_all_prefix(s: Seq<char>, p: Seq<char>) -> Seq<char>
    decreases s.len(),
{
    if p.len() > 0 && s.len() >= p.len() && s.subrange(0, p.len() as int) == p {
        strip_all_prefix(s.subrange(p.len() as int, s.len() as int), p)
    } else {
        s
    }
}

/// The number of a cell identifier (`"C3"` and `"Cell3"` give 3); 0 when there is none.
pub open spec fn cell_id_value(id: Seq<char>) -> u32 {
    match parse_uint(strip_all_prefix(strip_all_prefix(id, cell_word()), seq!['C']), 10, 0xFFFF_FFFF) {
        Some(v) => v as u32,
        None => 0,
    }
}

/// Start of the rest of `v` after removing repeated prefixes `p` from `v[start..]`.
fn strip_all_prefix_index(v: &Vec<char>, start: usize, p: &Vec<char>) -> (r: usize)
    requires
        start <= v@.len(),
        p@.len() > 0,
    ensures
        start <= r <= v@.len(),
        strip_all_prefix(v@.subrange(start as int, v@.len() as int), p@) == v@.subrange(
            r as int,
            v@.len() as int,
        ),
    decreases v@.len() - start,
{
    let n = v.len();
    let pl = p.len();
    if n - start < pl {
        return start;
    }
    let mut k: usize = 0;
    while k < pl
        invariant
            k <= pl,
            pl == p@.len(),
            start + pl <= n,
            n == v@.len(),
            forall|m: int| 0 <= m < k ==> v@[start + m] == p@[m],
        decreases pl - k,
    {
        if v[start + k] != p[k] {
            proof {
                assert(v@.subrange(start as int, n as int).subrange(0, pl as int)[k as int] != p@[k as int]);
            }
            return start;
        }
        k = k + 1;
    }
    proof {
        let s = v@.subrange(start as int, n as int);
        assert(s.subrange(0, pl as int) =~= p@);
        assert(s.subrange(pl as int, s.len() as int) =~= v@.subrange(start + pl, n as int));
    }
    strip_all_prefix_index(v, start + pl, p)
}

/// Extracts the number of a cell identifier (`"C3"` gives 3, `"Cell3"` gives 3);
/// 0 when it carries no valid number.
pub fn cell_id_to_int(id: &str) -> (n: u32)
    ensures
        n == cell_id_value(id@),
{
    let v = chars_of(id);
    let cell: Vec<char> = vec!['C', 'e', 'l', 'l'];
    let c: Vec<char> = vec!['C'];
    assert(cell@ =~= cell_word());
    assert(c@ =~= seq!['C']);
    assert(v@.subrange(0, v@.len() as int) =~= id@);
    let a = strip_all_prefix_index(&v, 0, &cell);
    let b = strip_all_prefix_index(&v, a, &c);
    match parse_uint_range(&v, b, v.len(), 10, 0xFFFF_FFFF) {
        Some(x) => x,
        None => 0,
    }
}

// =============================================================================
// Building strings
// =============================================================================

/// The character of decimal digit `d`.
pub open spec fn digit_char(d: nat) -> char {
    (48 + d) as char
}

/// The decimal writing of `n`, without leading zeros.
pub open spec fn decimal(n: nat) -> Seq<char>
    decreases n,
{
    if n < 10 {
        seq![digit_char(n)]
    } else {
        decimal(n / 10).push(digit_char(n % 10))
    }
}

/// The one-character string of decimal digit `d`.
fn digit_str(d: u64) -> (s: &'static str)
    requires
        d < 10,
    ensures
        s@ == seq![digit_char(d as nat)],
{
    let s = match d {
        0 => "0",
        1 => "1",
        2 => "2",
        3 => "3",
        4 => "4",
        5 => "5",
        6 => "6",
        7 => "7",
        8 => "8",
        _ => "9",
    };
    proof {
        reveal_strlit("0");
        reveal_strlit("1");
        reveal_strlit("2");
        reveal_strlit("3");
        reveal_strlit("4");
        reveal_strlit("5");
        reveal_strlit("6");
        reveal_strlit("7");
        reveal_strlit("8");
        reveal_strlit("9");
    }
    s
}

/// Appends the decimal writing of `n` to `s`.
pub fn push_decimal(s: &mut String, n: u64)
    ensures
        final(s)@ == old(s)@ + decimal(n as nat),
    decreases n,
{
    if n < 10 {
        s.append(digit_str(n));
    } else {
        push_decimal(s, n / 10);
        s.append(digit_str(n % 10));
    }
}

/// `"Cell"` followed by `n` in decimal.
pub open spec fn cell_name(n: int) -> Seq<char> {
    cell_word() + decimal(n as nat)
}

/// The key of cell `n` in the named maps: `"Cell{n}"`.
pub fn cell_key(n: usize) -> (s: String)
    ensures
        s@ == cell_name(n as int),
{
    let mut s = String::from_str("Cell");
    proof {
        reveal_strlit("Cell");
    }
    push_decimal(&mut s, n as u64);
    s
}

/// `"C"` followed by `n` in decimal, the identifier of a cell or sensor.
pub fn short_cell_id(n: u8) -> (s: String)
    ensures
        s@ == seq!['C'] + decimal(n as nat),
{
    let mut s = String::from_str("C");
    proof {
        reveal_strlit("C");
    }
    push_decimal(&mut s, n as u64);
    s
}

pub(crate) proof fn lemma_decimal_digits(n: nat)
    ensures
        decimal(n).len() > 0,
        all_digits(decimal(n), 10),
        digits_value(decimal(n), 10) == n,
        '0' <= decimal(n)[0] && decimal(n)[0] <= '9',
    decreases n,
{
    let d = decimal(n);
    if n < 10 {
        assert(d.drop_last() =~= Seq::<char>::empty());
        assert(digit_value(d[0], 10) == Some(n));
        assert(d.last() == d[0]);
        assert(digits_value(Seq::<char>::empty(), 10) == 0);
        assert(digits_value(d, 10) == 0 * 10 + n);
    } else {
        lemma_decimal_digits(n / 10);
        let p = decimal(n / 10);
        assert(d.drop_last() =~= p);
        assert(d[0] == p[0]);
        assert(digit_value(d.last(), 10) == Some(n % 10));
        assert(digits_value(d, 10) == digits_value(p, 10) * 10 + n % 10);
        assert((n / 10) * 10 + n % 10 == n);
        assert forall|i: int| 0 <= i < d.len() implies (#[trigger] digit_value(d[i], 10)) is Some by {
            if i < p.len() {
                assert(d[i] == p[i]);
            }
        }
    }
}

proof fn lemma_no_letter_prefix(d: Seq<char>, p: Seq<char>)
    requires
        d.len() > 0,
        p.len() > 0,
        '0' <= d[0] && d[0] <= '9',
        !('0' <= p[0] && p[0] <= '9'),
    ensures
        strip_all_prefix(d, p) == d,
{
    if d.len() >= p.len() {
        assert(d.subrange(0, p.len() as int)[0] != p[0]);
    }
}

/// Cell identifiers read back as their number: `cell_id_to_int` gives `n`
/// back from `short_cell_id`'s `"C{n}"` and from `cell_key`'s `"Cell{n}"`,
/// for every number that fits in 32 bits.
pub proof fn lemma_cell_ids_read_back(n: nat)
    requires
        n <= 0xFFFF_FFFF,
    ensures
        cell_id_value(seq!['C'] + decimal(n)) == n,
        cell_id_value(cell_name(n as int)) == n,
{
    let d = decimal(n);
    lemma_decimal_digits(n);
    assert(d[0] != '+');
    assert(parse_uint(d, 10, 0xFFFF_FFFF) == Some(n));
    lemma_no_letter_prefix(d, cell_word());
    lemma_no_letter_prefix(d, seq!['C']);
    // "C{n}": no "Cell" to strip, one "C".
    let c = seq!['C'] + d;
    if c.len() >= 4 {
        assert(c.subrange(0, 4)[1] == d[0]);
        assert(c.subrange(0, 4) != cell_word());
    }
    assert(strip_all_prefix(c, cell_word()) == c);
    assert(c.subrange(0, 1) =~= seq!['C']);
    assert(c.subrange(1, c.len() as int) =~= d);
    assert(strip_all_prefix(c, seq!['C']) == d);
    // "Cell{n}": one "Cell", no "C".
    let k = cell_name(n as int);
    assert(k.subrange(0, 4) =~= cell_word());
    assert(k.subrange(4, k.len() as int) =~= d);
    assert(strip_all_prefix(k, cell_word()) == d);
}

/// `"s"` unless `n` is 1, in which case the empty string.
pub fn pluralize(n: usize) -> (s: String)
    ensures
        s@ == (if n == 1 { Seq::<char>::empty() } else { seq!['s'] }),
{
    proof {
        reveal_strlit("");
        reveal_strlit("s");
    }
    if n == 1 {
        String::from_str("")
    } else {
        String::from_str("s")
    }
}

/// Two decimal digits, with a leading zero below 10.
pub open spec fn two_digits(n: nat) -> Seq<char> {
    seq![digit_char(n / 10), digit_char(n % 10)]
}

/// A duration in seconds written `h:mm`; `0:00` when it is not positive.
pub open spec fn time_to_go_text(secs: int) -> Seq<char> {
    if secs <= 0 {
        seq!['0', ':', '0', '0']
    } else {
        decimal((secs / 3600) as nat) + seq![':'] + two_digits(((secs % 3600) / 60) as nat)
    }
}

/// Writes a remaining time in seconds as `h:mm` (`"0:00"` when not positive).
pub fn format_time_to_go(secs: i64) -> (s: String)
    ensures
        s@ == time_to_go_text(secs as int),
{
    if secs <= 0 {
        proof {
            reveal_strlit("0:00");
        }
        return String::from_str("0:00");
    }
    let h = secs / 3600;
    let m = (secs % 3600) / 60;
    let mut s = String::new();
    push_decimal(&mut s, h as u64);
    s.append(":");
    proof {
        reveal_strlit(":");
    }
    s.append(digit_str((m / 10) as u64));
    s.append(digit_str((m % 10) as u64));
    assert(s@ =~= time_to_go_text(secs as int));
    s
}

/// The upper-case hexadecimal digit of `d` (0 to 15).
pub open spec fn hex_digit_char(d: nat) -> char {
    if d < 10 {
        (48 + d) as char
    } else {
        (55 + d) as char
    }
}

/// Two upper-case hexadecimal digits of a byte (`{:02X}`).
pub open spec fn hex_byte(b: u8) -> Seq<char> {
    seq![hex_digit_char((b / 16) as nat), hex_digit_char((b % 16) as nat)]
}

/// The bytes of `f` written `[A5, 40, 90]`.
pub open spec fn frame_text(f: Seq<u8>) -> Seq<char> {
    seq!['['] + hex_list(f) + seq![']']
}

/// The bytes of `f` in hexadecimal, separated by `", "`.
pub open spec fn hex_list(f: Seq<u8>) -> Seq<char>
    decreases f.len(),
{
    if f.len() == 0 {
        Seq::empty()
    } else if f.len() == 1 {
        hex_byte(f[0])
    } else {
        hex_list(f.drop_last()) + seq![',', ' '] + hex_byte(f.last())
    }
}

/// The one-character string of hexadecimal digit `d`.
fn hex_digit_str(d: u8) -> (s: &'static str)
    requires
        d < 16,
    ensures
        s@ == seq![hex_digit_char(d as nat)],
{
    if d < 10 {
        digit_str(d as u64)
    } else {
        let s = match d {
            10 => "A",
            11 => "B",
            12 => "C",
            13 => "D",
            14 => "E",
            _ => "F",
        };
        proof {
            reveal_strlit("A");
            reveal_strlit("B");
            reveal_strlit("C");
            reveal_strlit("D");
            reveal_strlit("E");
            reveal_strlit("F");
        }
        s
    }
}

/// Writes a frame as `[A5, 40, 90, ...]` (two upper-case hexadecimal digits per byte).
pub fn fmt_frame(f: &[u8]) -> (s: String)
    ensures
        s@ == frame_text(f@),
{
    let mut s = String::from_str("[");
    proof {
        reveal_strlit("[");
        reveal_strlit(", ");
        reveal_strlit("]");
    }
    let mut i: usize = 0;
    while i < f.len()
        invariant
            i <= f@.len(),
            s@ == seq!['['] + hex_list(f@.subrange(0, i as int)),
        decreases f.len() - i,
    {
        let ghost pre = f@.subrange(0, i as int);
        let ghost next = f@.subrange(0, i + 1);
        proof {
            assert(next.drop_last() =~= pre);
        }
        proof {
            reveal_strlit(", ");
        }
        if i > 0 {
            s.append(", ");
        }
        let b = f[i];
        s.append(hex_digit_str(b / 16));
        s.append(hex_digit_str(b % 16));
        proof {
            assert(next.last() == b);
            assert(hex_byte(b) =~= seq![hex_digit_char((b / 16) as nat), hex_digit_char((b % 16) as nat)]);
            if i == 0 {
                assert(next =~= seq![b]);
                assert(hex_list(next) == hex_byte(b));
            } else {
                assert(hex_list(next) == hex_list(pre) + seq![',', ' '] + hex_byte(b));
            }
            assert(s@ =~= seq!['['] + hex_list(next));
        }
        i = i + 1;
    }
    s.append("]");
    assert(f@.subrange(0, f@.len() as int) =~= f@);
    s
}

/// The bytes of `f` in hexadecimal, separated by single spaces.
pub open spec fn hex_words_text(f: Seq<u8>) -> Seq<char>
    decreases f.len(),
{
    if f.len() == 0 {
        Seq::empty()
    } else if f.len() == 1 {
        hex_byte(f[0])
    } else {
        hex_words_text(f.drop_last()) + seq![' '] + hex_byte(f.last())
    }
}

/// Writes bytes as `01 03 02 00 0A` (two upper-case hexadecimal digits per
/// byte, separated by spaces).
pub fn hex_words(f: &[u8]) -> (s: String)
    ensures
        s@ == hex_words_text(f@),
{
    let mut s = String::new();
    let mut i: usize = 0;
    while i < f.len()
        invariant
            i <= f@.len(),
            s@ == hex_words_text(f@.subrange(0, i as int)),
        decreases f.len() - i,
    {
        let ghost pre = f@.subrange(0, i as int);
        let ghost next = f@.subrange(0, i + 1);
        proof {
            assert(next.drop_last() =~= pre);
            reveal_strlit(" ");
        }
        if i > 0 {
            s.append(" ");
        }
        let b = f[i];
        s.append(hex_digit_str(b / 16));
        s.append(hex_digit_str(b % 16));
        proof {
            assert(next.last() == b);
            if i == 0 {
                assert(next =~= seq![b]);
                assert(hex_words_text(next) == hex_byte(b));
            } else {
                assert(hex_words_text(next) == hex_words_text(pre) + seq![' '] + hex_byte(b));
            }
            assert(s@ =~= hex_words_text(next));
        }
        i = i + 1;
    }
    assert(f@.subrange(0, f@.len() as int) =~= f@);
    s
}

/// The lower-case hexadecimal digit of `d` (0 to 15).
pub open spec fn lower_hex_digit_char(d: nat) -> char {
    if d < 10 {
        (48 + d) as char
    } else {
        (87 + d) as char
    }
}

/// `0x` followed by two lower-case hexadecimal digits: a byte written `{:#04x}`.
pub open spec fn address_hex_text(a: u8) -> Seq<char> {
    seq!['0', 'x', lower_hex_digit_char((a / 16) as nat), lower_hex_digit_char((a % 16) as nat)]
}

/// The one-character string of lower-case hexadecimal digit `d`.
fn lower_hex_digit_str(d: u8) -> (s: &'static str)
    requires
        d < 16,
    ensures
        s@ == seq![lower_hex_digit_char(d as nat)],
{
    if d < 10 {
        digit_str(d as u64)
    } else {
        let s = match d {
            10 => "a",
            11 => "b",
            12 => "c",
            13 => "d",
            14 => "e",
            _ => "f",
        };
        proof {
            reveal_strlit("a");
            reveal_strlit("b");
            reveal_strlit("c");
            reveal_strlit("d");
            reveal_strlit("e");
            reveal_strlit("f");
        }
        s
    }
}

/// Writes a BMS address as `0x01`, `0x28`, `0xff`.
pub fn address_hex(a: u8) -> (s: String)
    ensures
        s@ == address_hex_text(a),
{
    let mut s = String::from_str("0x");
    proof {
        reveal_strlit("0x");
    }
    s.append(lower_hex_digit_str(a / 16));
    s.append(lower_hex_digit_str(a % 16));
    assert(s@ =~= address_hex_text(a));
    s
}

} // verus!
