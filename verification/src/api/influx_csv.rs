//! The CSV answers of InfluxDB to the chart queries: which columns hold the
//! time and the value, and the rows read from them.
//!
//! An answer is a series of tables, each one a header line naming the columns
//! followed by data lines; a blank line or an annotation line (starting with
//! `#`) ends a table.

use vstd::prelude::*;
use vstd::string::StringSliceAdditionalSpecFns;
use crate::text::{chars_of, split_on, split_scan};

verus! {

/// `s` without its trailing carriage returns.
pub open spec fn trim_end_cr(s: Seq<char>) -> Seq<char>
    decreases s.len(),
{
    if s.len() > 0 && s.last() == '\r' {
        trim_end_cr(s.drop_last())
    } else {
        s
    }
}

/// The lines of `csv` (`str::lines`: split at `\n`, no empty line after a
/// final line break).
pub open spec fn csv_lines(csv: Seq<char>) -> Seq<Seq<char>> {
    if split_scan(csv, '\n').1.len() > 0 {
        split_scan(csv, '\n').0.push(split_scan(csv, '\n').1)
    } else {
        split_scan(csv, '\n').0
    }
}

/// `"_time"`.
pub open spec fn time_column() -> Seq<char> {
    seq!['_', 't', 'i', 'm', 'e']
}

/// `"_value"`.
pub open spec fn value_column() -> Seq<char> {
    seq!['_', 'v', 'a', 'l', 'u', 'e']
}

/// The position of the last of `fields` equal to `name`; `prev` when none is.
pub open spec fn column_of(fields: Seq<Seq<char>>, name: Seq<char>, prev: Option<int>) -> Option<int>
    decreases fields.len(),
{
    if fields.len() == 0 {
        prev
    } else if fields.last() == name {
        Some(fields.len() - 1)
    } else {
        column_of(fields.drop_last(), name, prev)
    }
}

/// The reading of an answer after some of its lines: the rows found (time
/// field, value field), the columns of time and value, and whether the header
/// of the current table has been read.
pub open spec fn csv_step(
    st: (Seq<(Seq<char>, Seq<char>)>, Option<int>, Option<int>, bool),
    raw: Seq<char>,
) -> (Seq<(Seq<char>, Seq<char>)>, Option<int>, Option<int>, bool) {
    let line = trim_end_cr(raw);
    if line.len() == 0 || line[0] == '#' {
        (st.0, None, None, false)
    } else {
        let fields = split_on(line, ',');
        if !st.3 {
            (st.0, column_of(fields, time_column(), st.1), column_of(fields, value_column(), st.2), true)
        } else {
            match (st.1, st.2) {
                (Some(a), Some(b)) => if 0 <= a < fields.len() && 0 <= b < fields.len() {
                    (st.0.push((fields[a], fields[b])), st.1, st.2, st.3)
                } else {
                    st
                },
                _ => st,
            }
        }
    }
}

/// The reading after `lines`, from the start of an answer.
pub open spec fn csv_scan(lines: Seq<Seq<char>>) -> (Seq<(Seq<char>, Seq<char>)>, Option<int>, Option<int>, bool)
    decreases lines.len(),
{
    if lines.len() == 0 {
        (Seq::empty(), None, None, false)
    } else {
        csv_step(csv_scan(lines.drop_last()), lines.last())
    }
}

/// The (time, value) fields of the data lines of `csv`, in order.
pub open spec fn csv_rows(csv: Seq<char>) -> Seq<(Seq<char>, Seq<char>)> {
    csv_scan(csv_lines(csv)).0
}

/// The bounds of the pieces of `v[a..b)` between commas.
fn field_bounds(v: &Vec<char>, a: usize, b: usize) -> (r: Vec<(usize, usize)>)
    requires
        a <= b <= v@.len(),
    ensures
        forall|k: int| 0 <= k < r@.len() ==> a <= (#[trigger] r@[k]).0 <= r@[k].1 <= b,
        r@.map_values(|p: (usize, usize)| v@.subrange(p.0 as int, p.1 as int)) == split_on(v@.subrange(a as int, b as int), ','),
{
    let mut r: Vec<(usize, usize)> = Vec::new();
    let mut start: usize = a;
    let mut i: usize = a;
    while i < b
        invariant
            a <= start <= i <= b <= v@.len(),
            forall|k: int| 0 <= k < r@.len() ==> a <= (#[trigger] r@[k]).0 <= r@[k].1 <= b,
            r@.map_values(|p: (usize, usize)| v@.subrange(p.0 as int, p.1 as int)) == split_scan(v@.subrange(a as int, i as int), ',').0,
            split_scan(v@.subrange(a as int, i as int), ',').1 == v@.subrange(start as int, i as int),
        decreases b - i,
    {
        let ghost pre = v@.subrange(a as int, i as int);
        let ghost next = v@.subrange(a as int, i + 1);
        proof {
            assert(next.drop_last() =~= pre);
            assert(next.last() == v@[i as int]);
        }
        if v[i] == ',' {
            let ghost before = r@;
            r.push((start, i));
            proof {
                assert(r@.map_values(|p: (usize, usize)| v@.subrange(p.0 as int, p.1 as int)) =~= before.map_values(
                    |p: (usize, usize)| v@.subrange(p.0 as int, p.1 as int),
                ).push(v@.subrange(start as int, i as int)));
            }
            start = i + 1;
            proof {
                assert(v@.subrange(start as int, i + 1) =~= Seq::<char>::empty());
            }
        } else {
            proof {
                assert(v@.subrange(start as int, i + 1) =~= v@.subrange(start as int, i as int).push(v@[i as int]));
            }
        }
        i = i + 1;
    }
    let ghost before = r@;
    r.push((start, b));
    proof {
        assert(r@.map_values(|p: (usize, usize)| v@.subrange(p.0 as int, p.1 as int)) =~= before.map_values(
            |p: (usize, usize)| v@.subrange(p.0 as int, p.1 as int),
        ).push(v@.subrange(start as int, b as int)));
    }
    r
}

/// `true` when `v[x..y)` holds the characters of `name`.
fn range_is(v: &Vec<char>, x: usize, y: usize, name: &str) -> (r: bool)
    requires
        x <= y <= v@.len(),
    ensures
        r == (v@.subrange(x as int, y as int) == name@),
{
    let w = chars_of(name);
    if y - x != w.len() {
        return false;
    }
    let mut k: usize = 0;
    while k < w.len()
        invariant
            x <= y <= v@.len(),
            y - x == w@.len(),
            w@ == name@,
            k <= w@.len(),
            forall|j: int| 0 <= j < k ==> v@[x + j] == w@[j],
        decreases w.len() - k,
    {
        if v[x + k] != w[k] {
            proof {
                assert(v@.subrange(x as int, y as int)[k as int] == v@[x + k]);
            }
            return false;
        }
        k = k + 1;
    }
    assert(v@.subrange(x as int, y as int) =~= w@);
    true
}

proof fn lemma_trim_end_cr_index(s: Seq<char>, j: int)
    requires
        0 <= j <= s.len(),
        forall|k: int| j <= k < s.len() ==> #[trigger] s[k] == '\r',
        j == 0 || s[j - 1] != '\r',
    ensures
        trim_end_cr(s) == s.subrange(0, j),
    decreases s.len() - j,
{
    if j == s.len() {
        assert(s.subrange(0, j) =~= s);
    } else {
        let t = s.drop_last();
        assert forall|k: int| j <= k < t.len() implies #[trigger] t[k] == '\r' by {
            assert(t[k] == s[k]);
        }
        lemma_trim_end_cr_index(t, j);
        assert(t.subrange(0, j) =~= s.subrange(0, j));
    }
}

/// The reading of an answer in progress.
struct CsvReader {
    rows: Vec<(String, String)>,
    time_col: Option<usize>,
    value_col: Option<usize>,
    in_header: bool,
}

/// A column position as a mathematical integer.
pub open spec fn col_view(c: Option<usize>) -> Option<int> {
    match c {
        Some(x) => Some(x as int),
        None => None,
    }
}

/// The rows as pairs of character sequences.
pub open spec fn rows_view(rows: Seq<(String, String)>) -> Seq<(Seq<char>, Seq<char>)> {
    rows.map_values(|r: (String, String)| (r.0@, r.1@))
}

impl CsvReader {
    spec fn view(&self) -> (Seq<(Seq<char>, Seq<char>)>, Option<int>, Option<int>, bool) {
        (rows_view(self.rows@), col_view(self.time_col), col_view(self.value_col), self.in_header)
    }

    /// Reads line `v[ls..le)` of `csv` (whose characters are `v`).
    fn read_line(&mut self, csv: &str, v: &Vec<char>, ls: usize, le: usize)
        requires
            ls <= le <= v@.len(),
            v@ == csv@,
        ensures
            final(self).view() == csv_step(old(self).view(), v@.subrange(ls as int, le as int)),
    {
        let mut e = le;
        while e > ls && v[e - 1] == '\r'
            invariant
                ls <= e <= le <= v@.len(),
                forall|k: int| e <= k < le ==> #[trigger] v@[k] == '\r',
            decreases e - ls,
        {
            e = e - 1;
        }
        let ghost raw = v@.subrange(ls as int, le as int);
        proof {
            assert forall|k: int| e - ls <= k < raw.len() implies #[trigger] raw[k] == '\r' by {
                assert(raw[k] == v@[ls + k]);
            }
            if e > ls {
                assert(raw[e - ls - 1] == v@[e - 1]);
            }
            lemma_trim_end_cr_index(raw, e - ls);
            assert(raw.subrange(0, e - ls) =~= v@.subrange(ls as int, e as int));
        }
        let ghost line = v@.subrange(ls as int, e as int);
        if e == ls || v[ls] == '#' {
            proof {
                if e > ls {
                    assert(line[0] == v@[ls as int]);
                }
            }
            self.time_col = None;
            self.value_col = None;
            self.in_header = false;
            return;
        }
        proof {
            assert(line[0] == v@[ls as int]);
        }
        let bounds = field_bounds(v, ls, e);
        let ghost fields = split_on(line, ',');
        proof {
            assert(fields.len() == bounds@.len());
        }
        if !self.in_header {
            let ghost prev_t = col_view(self.time_col);
            let ghost prev_v = col_view(self.value_col);
            let mut k: usize = 0;
            while k < bounds.len()
                invariant
                    k <= bounds@.len(),
                    bounds@.len() == fields.len(),
                    v@ == csv@,
                    e <= v@.len(),
                    forall|j: int| 0 <= j < bounds@.len() ==> ls <= (#[trigger] bounds@[j]).0 <= bounds@[j].1 <= e,
                    bounds@.map_values(|p: (usize, usize)| v@.subrange(p.0 as int, p.1 as int)) == fields,
                    col_view(self.time_col) == column_of(fields.subrange(0, k as int), time_column(), prev_t),
                    col_view(self.value_col) == column_of(fields.subrange(0, k as int), value_column(), prev_v),
                    self.rows == old(self).rows,
                    self.in_header == old(self).in_header,
                decreases bounds.len() - k,
            {
                let (x, y) = bounds[k];
                proof {
                    assert(fields.subrange(0, k + 1).drop_last() =~= fields.subrange(0, k as int));
                    assert(fields.subrange(0, k + 1).last() == fields[k as int]);
                    assert(fields[k as int] == v@.subrange(x as int, y as int));
                    reveal_strlit("_time");
                    reveal_strlit("_value");
                    assert("_time"@ =~= time_column());
                    assert("_value"@ =~= value_column());
                }
                if range_is(v, x, y, "_time") {
                    self.time_col = Some(k);
                }
                if range_is(v, x, y, "_value") {
                    self.value_col = Some(k);
                }
                k = k + 1;
            }
            proof {
                assert(fields.subrange(0, k as int) =~= fields);
            }
            self.in_header = true;
        } else {
            match (self.time_col, self.value_col) {
                (Some(a), Some(b)) => {
                    if a < bounds.len() && b < bounds.len() {
                        let (ta, tb) = bounds[a];
                        let (va, vb) = bounds[b];
                        let t = String::from_str(csv.substring_char(ta, tb));
                        let val = String::from_str(csv.substring_char(va, vb));
                        let ghost before = self.rows@;
                        self.rows.push((t, val));
                        proof {
                            assert(fields[a as int] == v@.subrange(ta as int, tb as int));
                            assert(fields[b as int] == v@.subrange(va as int, vb as int));
                            assert(rows_view(self.rows@) =~= rows_view(before).push((fields[a as int], fields[b as int])));
                        }
                    }
                },
                _ => {},
            }
        }
    }
}

/// The (time, value) fields of the data lines of an InfluxDB CSV answer, in
/// order (see `csv_rows`). The value is returned as text: keeping only the
/// rows whose value reads as a floating-point number is the caller's part.
pub fn influx_csv_rows(csv: &str) -> (rows: Vec<(String, String)>)
    ensures
        rows_view(rows@) == csv_rows(csv@),
{
    let v = chars_of(csv);
    let mut r = CsvReader { rows: Vec::new(), time_col: None, value_col: None, in_header: false };
    proof {
        assert(rows_view(r.rows@) =~= Seq::<(Seq<char>, Seq<char>)>::empty());
    }
    let mut start: usize = 0;
    let mut i: usize = 0;
    while i < v.len()
        invariant
            start <= i <= v@.len(),
            v@ == csv@,
            split_scan(v@.subrange(0, i as int), '\n').1 == v@.subrange(start as int, i as int),
            r.view() == csv_scan(split_scan(v@.subrange(0, i as int), '\n').0),
        decreases v.len() - i,
    {
        let ghost pre = v@.subrange(0, i as int);
        let ghost next = v@.subrange(0, i + 1);
        proof {
            assert(next.drop_last() =~= pre);
            assert(next.last() == v@[i as int]);
        }
        if v[i] == '\n' {
            r.read_line(csv, &v, start, i);
            proof {
                let done = split_scan(pre, '\n').0.push(split_scan(pre, '\n').1);
                assert(done.drop_last() =~= split_scan(pre, '\n').0);
                assert(done.last() == v@.subrange(start as int, i as int));
            }
            start = i + 1;
            proof {
                assert(v@.subrange(start as int, i + 1) =~= Seq::<char>::empty());
            }
        } else {
            proof {
                assert(v@.subrange(start as int, i + 1) =~= v@.subrange(start as int, i as int).push(v@[i as int]));
            }
        }
        i = i + 1;
    }
    proof {
        assert(v@.subrange(0, v@.len() as int) =~= csv@);
    }
    if start < v.len() {
        r.read_line(csv, &v, start, v.len());
        proof {
            let ls = csv_lines(csv@);
            assert(ls.drop_last() =~= split_scan(csv@, '\n').0);
            assert(ls.last() == v@.subrange(start as int, v@.len() as int));
        }
    }
    r.rows
}

/// The `HH:MM` part of an ISO 8601 time such as `2024-05-01T10:15:00Z`: its
/// bytes 11 to 16 when it is at least 16 bytes long, the whole text otherwise.
pub fn influx_time_label(t: &str) -> (s: String)
    requires
        t.spec_bytes().len() >= 16 ==> vstd::utf8::is_char_boundary(t.spec_bytes(), 11)
            && vstd::utf8::is_char_boundary(t.spec_bytes(), 16),
    ensures
        t.spec_bytes().len() >= 16 ==> vstd::utf8::encode_utf8(s@) == t.spec_bytes().subrange(11, 16),
        t.spec_bytes().len() < 16 ==> s@ == t@,
{
    if t.as_bytes().len() >= 16 {
        let ghost b = t.spec_bytes();
        proof {
            vstd::utf8::encode_utf8_valid_utf8(t@);
        }
        let (_, rest) = t.split_at(11);
        let ghost r = rest.spec_bytes();
        proof {
            vstd::utf8::valid_utf8_split(b, 11);
            assert(r =~= b.subrange(11, b.len() as int));
            if r.len() == 5 {
                vstd::utf8::is_char_boundary_start_end_of_seq(r);
            } else {
                vstd::utf8::is_char_boundary_iff_not_is_continuation_byte(b, 16);
                assert(r[5] == b[16]);
                vstd::utf8::is_char_boundary_iff_not_is_continuation_byte(r, 5);
            }
        }
        let (mid, _) = rest.split_at(5);
        let out = String::from_str(mid);
        proof {
            assert(mid.spec_bytes() =~= b.subrange(11, 16));
        }
        out
    } else {
        String::from_str(t)
    }
}

} // verus!
