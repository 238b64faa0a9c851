//! What the search of a DOF object for a profile probe finds, over the bytes of
//! the object.
//!
//! A DOF object begins with a header of 64 bytes.  The words at 24 and 28 are
//! the size and the number of the rows of its section table, the one at 32 is
//! where the table starts.  A row of 32 bytes has the kind of the section first,
//! the size of its entries at 12, its offset at 16 and its size at 24.

use vstd::arithmetic::power::pow;
use vstd::prelude::*;
use vstd::utf8::{encode_utf8, is_ascii_chars_encode_utf8};

use crate::bytes::{first_nul, has_prefix, le_u32, le_u64, lemma_first_nul};
use crate::session::{
    decimal, digit_run, dof_sections, entries_period, is_digit, law_tick_splits_before_the_unit,
    lemma_digit_run, name_period, probe_table, profile_period, string_tables, table_string,
    tables_period, tick_period, DofSection,
};

verus! {

/// Where row `i` of the section table stands.
pub open spec fn row(dof: Seq<u8>, i: int) -> int {
    le_u64(dof, 32) + 32 * i
}

/// Whether the object has a section `i`.
pub open spec fn has_section(dof: Seq<u8>, i: int) -> bool {
    0 <= i < le_u32(dof, 28)
}

/// Where section `i` starts.
pub open spec fn start(dof: Seq<u8>, i: int) -> int {
    le_u64(dof, row(dof, i) + 16) as int
}

/// Where section `i` ends.
pub open spec fn end(dof: Seq<u8>, i: int) -> int {
    start(dof, i) + le_u64(dof, row(dof, i) + 24)
}

/// Whether the object can be read: it has its header and the magic number, the
/// whole section table lies within it, and the end of each section is an offset.
pub open spec fn readable(dof: Seq<u8>) -> bool {
    &&& dof.len() >= 64
    &&& dof[0] == 0x7f && dof[1] == 0x44 && dof[2] == 0x4f && dof[3] == 0x46
    &&& le_u32(dof, 24) == 32
    &&& row(dof, le_u32(dof, 28) as int) <= dof.len()
    &&& forall|i: int| has_section(dof, i) ==> #[trigger] end(dof, i) <= u64::MAX
}

/// Whether section `i` is a string table that lies within the object.
pub open spec fn is_strings(dof: Seq<u8>, i: int) -> bool {
    has_section(dof, i) && le_u32(dof, row(dof, i)) == 8 && end(dof, i) <= dof.len()
}

/// Whether section `i` is a table of probe descriptions that lies within the
/// object and whose entries are long enough for a name.
pub open spec fn is_probes(dof: Seq<u8>, i: int) -> bool {
    &&& has_section(dof, i) && le_u32(dof, row(dof, i)) == 4 && end(dof, i) <= dof.len()
    &&& le_u32(dof, row(dof, i) + 12) >= 20
}

/// Whether `p` is the first table of probe descriptions.
pub open spec fn first_probes(dof: Seq<u8>, p: int) -> bool {
    is_probes(dof, p) && forall|i: int| i < p ==> !#[trigger] is_probes(dof, i)
}

/// Whether `ts` are the string tables of the object, in their order, or the
/// first eight of them if there are more.
pub open spec fn searched(dof: Seq<u8>, ts: Seq<int>) -> bool {
    &&& ts.len() <= 8
    &&& forall|k: int| 0 <= k < ts.len() ==> is_strings(dof, #[trigger] ts[k])
    &&& forall|k: int, l: int| 0 <= k < l < ts.len() ==> #[trigger] ts[k] < #[trigger] ts[l]
    &&& forall|i: int|
        #[trigger] is_strings(dof, i) ==> ts.contains(i) || (ts.len() == 8 && i > ts.last())
}

/// Whether `name` is the string at `off` in section `t`: it ends before a NUL or
/// with the section, and has no NUL itself.
pub open spec fn holds(dof: Seq<u8>, t: int, off: int, name: Seq<u8>) -> bool {
    let at = start(dof, t) + off;
    &&& at < end(dof, t)
    &&& at + name.len() <= end(dof, t)
    &&& dof.subrange(at, at + name.len()) == name
    &&& forall|k: int| 0 <= k < name.len() ==> #[trigger] name[k] != 0
    &&& at + name.len() == end(dof, t) || dof[at + name.len()] == 0
}

/// Whether the string at `off` in section `t` is `tick-` followed by a valid
/// period of `p` nanoseconds.
pub open spec fn ticks(dof: Seq<u8>, t: int, off: int, p: u64) -> bool {
    exists|name: Seq<u8>| #[trigger]
        holds(dof, t, off, name) && name.len() >= 5 && name[0] == 0x74 && name[1] == 0x69 && name[2]
            == 0x63 && name[3] == 0x6b && name[4] == 0x2d && tick_period(name.skip(5)) == Some(p)
}

/// Where entry `k` of the table `p` of probe descriptions stands.
pub open spec fn entry(dof: Seq<u8>, p: int, k: int) -> int {
    start(dof, p) + k * le_u32(dof, row(dof, p) + 12)
}

/// Whether table `p` has a whole entry `k`.
pub open spec fn has_entry(dof: Seq<u8>, p: int, k: int) -> bool {
    0 <= k && entry(dof, p, k + 1) <= end(dof, p)
}

/// Whether entry `k` of table `p` names, in its fifth word, a probe that ticks
/// with period `per`, by the first of the string tables `ts` in which it does.
pub open spec fn entry_ticks(dof: Seq<u8>, ts: Seq<int>, p: int, k: int, per: u64) -> bool {
    let off = le_u32(dof, entry(dof, p, k) + 16) as int;
    exists|m: int|
        0 <= m < ts.len() && #[trigger] ticks(dof, ts[m], off, per) && forall|l: int, q: u64|
            0 <= l < m ==> !#[trigger] ticks(dof, ts[l], off, q)
}

proof fn lemma_tick_bytes()
    ensures
        encode_utf8("tick-"@) == seq![0x74u8, 0x69u8, 0x63u8, 0x6bu8, 0x2du8],
{
    reveal_strlit("tick-");
    is_ascii_chars_encode_utf8("tick-"@);
    assert(encode_utf8("tick-"@) =~= seq![0x74u8, 0x69u8, 0x63u8, 0x6bu8, 0x2du8]);
}

/// The string at `off` of a section is what `table_string` gives.
proof fn lemma_holds(dof: Seq<u8>, t: int, off: int, name: Seq<u8>)
    requires
        is_strings(dof, t),
        0 <= off,
        start(dof, t) + off < end(dof, t),
    ensures
        holds(dof, t, off, name) <==> name == table_string(
            dof,
            DofSection::at(dof, row(dof, t)),
            off,
        ),
{
    let s = DofSection::at(dof, row(dof, t));
    let tail = dof.subrange(s.offset + off, s.offset + s.size);
    let z = first_nul(tail);
    lemma_first_nul(tail);
    let at = start(dof, t) + off;
    if holds(dof, t, off, name) {
        assert forall|k: int| 0 <= k < name.len() implies tail[k] != 0 by {
            assert(name[k] == dof.subrange(at, at + name.len())[k]);
        }
        if z < name.len() {
            assert(tail[z] != 0);
        }
        if z > name.len() {
            assert(tail[name.len() as int] == dof[at + name.len()]);
        }
        assert(tail.take(z) =~= name);
    }
    if name == tail.take(z) {
        assert(dof.subrange(at, at + name.len()) =~= name);
        assert forall|k: int| 0 <= k < name.len() implies #[trigger] name[k] != 0 by {
            assert(name[k] == tail[k]);
        }
        if z < tail.len() {
            assert(dof[at + z] == tail[z]);
        }
        assert(holds(dof, t, off, name));
    }
}

/// `name_period` finds a period exactly where the string ticks.
proof fn lemma_ticks(dof: Seq<u8>, t: int, off: int, p: u64)
    requires
        is_strings(dof, t),
        0 <= off,
    ensures
        ticks(dof, t, off, p) <==> name_period(dof, DofSection::at(dof, row(dof, t)), off) == Some(
            p,
        ),
{
    let s = DofSection::at(dof, row(dof, t));
    let tick = seq![0x74u8, 0x69u8, 0x63u8, 0x6bu8, 0x2du8];
    lemma_tick_bytes();
    if start(dof, t) + off < end(dof, t) {
        let name = table_string(dof, s, off);
        lemma_holds(dof, t, off, name);
        if ticks(dof, t, off, p) {
            let n = choose|n: Seq<u8>| #[trigger]
                holds(dof, t, off, n) && n.len() >= 5 && n[0] == 0x74 && n[1] == 0x69 && n[2]
                    == 0x63 && n[3] == 0x6b && n[4] == 0x2d && tick_period(n.skip(5)) == Some(p);
            lemma_holds(dof, t, off, n);
            assert(name.take(5) =~= tick);
        }
        if has_prefix(name, tick) {
            assert(name.take(5)[0] == 0x74 && name.take(5)[1] == 0x69 && name.take(5)[2] == 0x63
                && name.take(5)[3] == 0x6b && name.take(5)[4] == 0x2d);
        }
    }
}

/// The string tables that are searched among the first `n` sections, where `c`
/// of them have an index below `n`.
proof fn lemma_searched(dof: Seq<u8>, ts: Seq<int>, n: int, c: int)
    requires
        readable(dof),
        searched(dof, ts),
        0 <= n <= le_u32(dof, 28),
        0 <= c <= ts.len(),
        forall|k: int| 0 <= k < c ==> #[trigger] ts[k] < n,
        forall|k: int| c <= k < ts.len() ==> #[trigger] ts[k] >= n,
    ensures
        string_tables(
            Seq::new(le_u32(dof, 28) as nat, |i: int| DofSection::at(dof, row(dof, i))).take(n),
            dof.len(),
        ) == Seq::new(c as nat, |k: int| DofSection::at(dof, row(dof, ts[k]))),
    decreases n,
{
    let rows = Seq::new(le_u32(dof, 28) as nat, |i: int| DofSection::at(dof, row(dof, i)));
    let want = Seq::new(c as nat, |k: int| DofSection::at(dof, row(dof, ts[k])));
    if n == 0 {
        if c > 0 {
            assert(is_strings(dof, ts[0]));
            assert(ts[0] < n);
        }
        assert(string_tables(rows.take(n), dof.len()) =~= want);
    } else {
        let front = rows.take(n).drop_last();
        assert(front =~= rows.take(n - 1));
        assert(rows.take(n).last() == rows[n - 1]);
        assert(end(dof, n - 1) <= u64::MAX);
        if c > 0 && ts[c - 1] == n - 1 {
            assert(is_strings(dof, ts[c - 1]));
            lemma_searched(dof, ts, n - 1, c - 1);
            assert(string_tables(rows.take(n), dof.len()) =~= want);
        } else {
            if is_strings(dof, n - 1) && ts.contains(n - 1) {
                let k = choose|k: int| 0 <= k < ts.len() && ts[k] == n - 1;
                assert(k < c);
                if k < c - 1 {
                    assert(ts[k] < ts[c - 1]);
                }
            }
            lemma_searched(dof, ts, n - 1, c);
            if is_strings(dof, n - 1) {
                assert(ts.len() == 8 && n - 1 > ts.last());
                assert(c == 8);
            }
            assert(string_tables(rows.take(n), dof.len()) =~= want);
        }
    }
}

/// `probe_table` finds the first table of probe descriptions.
proof fn lemma_first_probes(dof: Seq<u8>, n: int)
    requires
        readable(dof),
        0 <= n <= le_u32(dof, 28),
    ensures
        ({
            let rows = Seq::new(le_u32(dof, 28) as nat, |i: int| DofSection::at(dof, row(dof, i)));
            match probe_table(rows.take(n), dof.len()) {
                Some(t) => exists|p: int| #[trigger]
                    first_probes(dof, p) && p < n && t == DofSection::at(dof, row(dof, p)),
                None => forall|i: int| i < n ==> !#[trigger] is_probes(dof, i),
            }
        }),
    decreases n,
{
    let rows = Seq::new(le_u32(dof, 28) as nat, |i: int| DofSection::at(dof, row(dof, i)));
    if n > 0 {
        assert(rows.take(n).drop_last() =~= rows.take(n - 1));
        assert(rows.take(n).last() == rows[n - 1]);
        lemma_first_probes(dof, n - 1);
        assert(end(dof, n - 1) <= u64::MAX);
        if probe_table(rows.take(n - 1), dof.len()) is None && is_probes(dof, n - 1) {
            assert(first_probes(dof, n - 1));
        }
    }
}

proof fn lemma_tables(dof: Seq<u8>, ts: Seq<int>, n: int, off: int)
    requires
        forall|k: int| 0 <= k < ts.len() ==> is_strings(dof, #[trigger] ts[k]),
        0 <= n <= ts.len(),
        0 <= off,
    ensures
        ({
            let ss = Seq::new(n as nat, |k: int| DofSection::at(dof, row(dof, ts[k])));
            match tables_period(dof, ss, off) {
                Some(p) => exists|m: int|
                    0 <= m < n && #[trigger] ticks(dof, ts[m], off, p) && forall|l: int, q: u64|
                        0 <= l < m ==> !#[trigger] ticks(dof, ts[l], off, q),
                None => forall|l: int, q: u64| 0 <= l < n ==> !#[trigger] ticks(dof, ts[l], off, q),
            }
        }),
    decreases n,
{
    if n > 0 {
        let ss = Seq::new(n as nat, |k: int| DofSection::at(dof, row(dof, ts[k])));
        let front = Seq::new((n - 1) as nat, |k: int| DofSection::at(dof, row(dof, ts[k])));
        assert(ss.drop_last() =~= front);
        lemma_tables(dof, ts, n - 1, off);
        assert(is_strings(dof, ts[n - 1]));
        assert forall|q: u64| #[trigger] ticks(dof, ts[n - 1], off, q) <==> name_period(
            dof,
            ss.last(),
            off,
        ) == Some(q) by {
            lemma_ticks(dof, ts[n - 1], off, q);
        }
        if tables_period(dof, front, off) is None {
            match name_period(dof, ss.last(), off) {
                Some(p) => {
                    assert(ticks(dof, ts[n - 1], off, p));
                },
                None => {},
            }
        }
    }
}

/// `tables_period` is the period of an entry.
proof fn lemma_entry_ticks(dof: Seq<u8>, ts: Seq<int>, p: int, k: int, per: u64)
    requires
        searched(dof, ts),
    ensures
        entry_ticks(dof, ts, p, k, per) <==> tables_period(
            dof,
            Seq::new(ts.len(), |k: int| DofSection::at(dof, row(dof, ts[k]))),
            le_u32(dof, entry(dof, p, k) + 16) as int,
        ) == Some(per),
{
    let off = le_u32(dof, entry(dof, p, k) + 16) as int;
    let ss = Seq::new(ts.len(), |k: int| DofSection::at(dof, row(dof, ts[k])));
    lemma_tables(dof, ts, ts.len() as int, off);
    if entry_ticks(dof, ts, p, k, per) {
        let m = choose|m: int|
            0 <= m < ts.len() && #[trigger] ticks(dof, ts[m], off, per) && forall|l: int, q: u64|
                0 <= l < m ==> !#[trigger] ticks(dof, ts[l], off, q);
        let got = tables_period(dof, ss, off)->0;
        let w = choose|w: int|
            0 <= w < ts.len() && #[trigger] ticks(dof, ts[w], off, got) && forall|l: int, q: u64|
                0 <= l < w ==> !#[trigger] ticks(dof, ts[l], off, q);
        assert(m == w);
        assert(is_strings(dof, ts[m]));
        lemma_ticks(dof, ts[m], off, per);
        lemma_ticks(dof, ts[m], off, got);
    }
}

/// From entry `k` on, `entries_period` finds the first entry that ticks.
proof fn lemma_entries(dof: Seq<u8>, ts: Seq<int>, p: int, k: int)
    requires
        searched(dof, ts),
        is_probes(dof, p),
        0 <= k,
    ensures
        ({
            let ss = Seq::new(ts.len(), |k: int| DofSection::at(dof, row(dof, ts[k])));
            let size = le_u32(dof, row(dof, p) + 12) as int;
            match entries_period(dof, ss, entry(dof, p, k), end(dof, p), size) {
                Some(per) => exists|j: int|
                    k <= j && has_entry(dof, p, j) && #[trigger] entry_ticks(dof, ts, p, j, per)
                        && forall|i: int, q: u64|
                        k <= i < j ==> !#[trigger] entry_ticks(dof, ts, p, i, q),
                None => forall|i: int, q: u64|
                    k <= i && has_entry(dof, p, i) ==> !#[trigger] entry_ticks(dof, ts, p, i, q),
            }
        }),
    decreases end(dof, p) - entry(dof, p, k),
{
    let ss = Seq::new(ts.len(), |k: int| DofSection::at(dof, row(dof, ts[k])));
    let size = le_u32(dof, row(dof, p) + 12) as int;
    assert(entry(dof, p, k + 1) == entry(dof, p, k) + size) by (nonlinear_arith)
        requires
            entry(dof, p, k + 1) == start(dof, p) + (k + 1) * size,
            entry(dof, p, k) == start(dof, p) + k * size,
    ;
    assert forall|q: u64| #[trigger] entry_ticks(dof, ts, p, k, q) <==> tables_period(
        dof,
        ss,
        le_u32(dof, entry(dof, p, k) + 16) as int,
    ) == Some(q) by {
        lemma_entry_ticks(dof, ts, p, k, q);
    }
    if has_entry(dof, p, k) {
        match tables_period(dof, ss, le_u32(dof, entry(dof, p, k) + 16) as int) {
            Some(per) => {
                assert(entry_ticks(dof, ts, p, k, per));
            },
            None => {
                lemma_entries(dof, ts, p, k + 1);
            },
        }
    } else {
        assert forall|i: int| k <= i implies !#[trigger] has_entry(dof, p, i) by {
            assert(entry(dof, p, i + 1) >= entry(dof, p, k + 1)) by (nonlinear_arith)
                requires
                    entry(dof, p, i + 1) == start(dof, p) + (i + 1) * size,
                    entry(dof, p, k + 1) == start(dof, p) + (k + 1) * size,
                    k <= i,
                    size >= 0,
            ;
        }
    }
}

/// The sections of a readable object are its rows, and no other object has any.
proof fn lemma_sections(dof: Seq<u8>)
    ensures
        readable(dof) <==> dof_sections(dof) is Some,
        readable(dof) ==> dof_sections(dof)->0 == Seq::new(
            le_u32(dof, 28) as nat,
            |i: int| DofSection::at(dof, row(dof, i)),
        ),
{
    let rows = Seq::new(le_u32(dof, 28) as nat, |i: int| DofSection::at(dof, row(dof, i)));
    let num = le_u32(dof, 28);
    let off = le_u64(dof, 32);
    let other = Seq::new(num as nat, |i: int| DofSection::at(dof, off + 32 * i));
    assert(rows =~= other);
    if dof.len() >= 64 {
        assert(dof.take(4) == seq![0x7fu8, 0x44u8, 0x4fu8, 0x46u8] <==> (dof[0] == 0x7f && dof[1]
            == 0x44 && dof[2] == 0x4f && dof[3] == 0x46)) by {
            if dof.take(4) == seq![0x7fu8, 0x44u8, 0x4fu8, 0x46u8] {
                assert(dof.take(4)[0] == 0x7f && dof.take(4)[1] == 0x44 && dof.take(4)[2] == 0x4f
                    && dof.take(4)[3] == 0x46);
            } else if dof[0] == 0x7f && dof[1] == 0x44 && dof[2] == 0x4f && dof[3] == 0x46 {
                assert(dof.take(4) =~= seq![0x7fu8, 0x44u8, 0x4fu8, 0x46u8]);
            }
        }
    }
    assert forall|i: int| has_section(dof, i) implies rows[i].offset + rows[i].size == #[trigger] end(
        dof,
        i,
    ) by {}
    if dof_sections(dof) is Some {
        assert forall|i: int| has_section(dof, i) implies #[trigger] end(dof, i) <= u64::MAX by {
            assert(other[i].offset + other[i].size <= u64::MAX);
        }
    }
    if readable(dof) {
        assert forall|i: int| 0 <= i < num implies (#[trigger] other[i]).offset + other[i].size
            <= u64::MAX by {
            assert(end(dof, i) <= u64::MAX);
        }
    }
}

/// If entry `k` of the first table of probe descriptions names a probe that
/// ticks, and no entry before it does, the session runs at its period.  Entries
/// stand one behind the other, each as long as the table itself says.
pub proof fn law_the_first_tick_sets_the_period(
    dof: Seq<u8>,
    ts: Seq<int>,
    p: int,
    k: int,
    per: u64,
)
    requires
        readable(dof),
        searched(dof, ts),
        first_probes(dof, p),
        has_entry(dof, p, k),
        entry_ticks(dof, ts, p, k, per),
        forall|i: int, q: u64| 0 <= i < k ==> !#[trigger] entry_ticks(dof, ts, p, i, q),
    ensures
        profile_period(dof) == Some(per),
{
    lemma_profile_period(dof, ts, p);
    let got = profile_period(dof)->0;
    let j = choose|j: int|
        has_entry(dof, p, j) && #[trigger] entry_ticks(dof, ts, p, j, got) && forall|i: int, q: u64|
            0 <= i < j ==> !#[trigger] entry_ticks(dof, ts, p, i, q);
    assert(j == k);
    lemma_entry_ticks(dof, ts, p, k, per);
    lemma_entry_ticks(dof, ts, p, k, got);
}

/// No period is found only if the object cannot be read, has no table of probe
/// descriptions, or has none that ticks among all its entries.
pub proof fn law_no_period_means_no_tick(dof: Seq<u8>, ts: Seq<int>)
    requires
        searched(dof, ts),
    ensures
        profile_period(dof) is None <==> {
            ||| !readable(dof)
            ||| forall|p: int, k: int, per: u64|
                first_probes(dof, p) && has_entry(dof, p, k) ==> !#[trigger] entry_ticks(
                    dof,
                    ts,
                    p,
                    k,
                    per,
                )
        },
{
    lemma_sections(dof);
    if readable(dof) {
        let n = le_u32(dof, 28) as int;
        let rows = Seq::new(n as nat, |i: int| DofSection::at(dof, row(dof, i)));
        lemma_first_probes(dof, n);
        assert(rows.take(n) =~= rows);
        match probe_table(rows, dof.len()) {
            Some(_) => {
                let p = choose|p: int| #[trigger] first_probes(dof, p);
                lemma_profile_period(dof, ts, p);
                assert forall|q: int| #[trigger] first_probes(dof, q) implies q == p by {
                    assert(is_probes(dof, p) && is_probes(dof, q));
                }
            },
            None => {
                assert forall|p: int| !#[trigger] first_probes(dof, p) by {
                    assert(!is_probes(dof, p));
                }
            },
        }
    }
}

proof fn lemma_profile_period(dof: Seq<u8>, ts: Seq<int>, p: int)
    requires
        readable(dof),
        searched(dof, ts),
        first_probes(dof, p),
    ensures
        match profile_period(dof) {
            Some(per) => exists|j: int|
                has_entry(dof, p, j) && #[trigger] entry_ticks(dof, ts, p, j, per) && forall|
                    i: int,
                    q: u64,
                |
                    0 <= i < j ==> !#[trigger] entry_ticks(dof, ts, p, i, q),
            None => forall|i: int, q: u64|
                has_entry(dof, p, i) ==> !#[trigger] entry_ticks(dof, ts, p, i, q),
        },
{
    let n = le_u32(dof, 28) as int;
    let rows = Seq::new(n as nat, |i: int| DofSection::at(dof, row(dof, i)));
    lemma_sections(dof);
    assert(rows.take(n) =~= rows);
    lemma_first_probes(dof, n);
    assert(is_probes(dof, p));
    let q = choose|q: int| #[trigger]
        first_probes(dof, q) && q < n && probe_table(rows, dof.len())->0 == DofSection::at(
            dof,
            row(dof, q),
        );
    assert(is_probes(dof, q));
    assert(p == q);
    assert forall|k: int| 0 <= k < ts.len() implies #[trigger] ts[k] < n by {
        assert(is_strings(dof, ts[k]));
    }
    lemma_searched(dof, ts, n, ts.len() as int);
    assert(entry(dof, p, 0) == start(dof, p)) by (nonlinear_arith)
        requires
            entry(dof, p, 0) == start(dof, p) + 0 * le_u32(dof, row(dof, p) + 12),
    ;
    lemma_entries(dof, ts, p, 0);
}

/// The string tables that are searched can be listed, so that the laws above
/// speak of every object.
pub proof fn law_string_tables_can_be_listed(dof: Seq<u8>, n: int) -> (ts: Seq<int>)
    requires
        0 <= n,
    ensures
        ts.len() <= 8,
        forall|k: int| 0 <= k < ts.len() ==> is_strings(dof, #[trigger] ts[k]) && ts[k] < n,
        forall|k: int, l: int| 0 <= k < l < ts.len() ==> #[trigger] ts[k] < #[trigger] ts[l],
        forall|i: int|
            i < n && #[trigger] is_strings(dof, i) ==> ts.contains(i) || (ts.len() == 8 && i
                > ts.last()),
        n >= le_u32(dof, 28) ==> searched(dof, ts),
    decreases n,
{
    if n == 0 {
        Seq::empty()
    } else {
        let front = law_string_tables_can_be_listed(dof, n - 1);
        if is_strings(dof, n - 1) && front.len() < 8 {
            let ts = front.push(n - 1);
            assert forall|i: int| i < n && #[trigger] is_strings(dof, i) implies ts.contains(i) by {
                if i == n - 1 {
                    assert(ts[front.len() as int] == i);
                } else {
                    let k = choose|k: int| 0 <= k < front.len() && front[k] == i;
                    assert(ts[k] == i);
                }
            }
            ts
        } else {
            front
        }
    }
}

proof fn lemma_unit_bytes()
    ensures
        encode_utf8("ms"@) == seq![0x6du8, 0x73u8],
        encode_utf8("us"@) == seq![0x75u8, 0x73u8],
        encode_utf8("ns"@) == seq![0x6eu8, 0x73u8],
        encode_utf8("sec"@) == seq![0x73u8, 0x65u8, 0x63u8],
        encode_utf8("hz"@) == seq![0x68u8, 0x7au8],
{
    reveal_strlit("ms");
    reveal_strlit("us");
    reveal_strlit("ns");
    reveal_strlit("sec");
    reveal_strlit("hz");
    is_ascii_chars_encode_utf8("ms"@);
    is_ascii_chars_encode_utf8("us"@);
    is_ascii_chars_encode_utf8("ns"@);
    is_ascii_chars_encode_utf8("sec"@);
    is_ascii_chars_encode_utf8("hz"@);
    assert(encode_utf8("ms"@) =~= seq![0x6du8, 0x73u8]);
    assert(encode_utf8("us"@) =~= seq![0x75u8, 0x73u8]);
    assert(encode_utf8("ns"@) =~= seq![0x6eu8, 0x73u8]);
    assert(encode_utf8("sec"@) =~= seq![0x73u8, 0x65u8, 0x63u8]);
    assert(encode_utf8("hz"@) =~= seq![0x68u8, 0x7au8]);
}

/// The first digit of a number counts as many times ten to the power of the
/// digits behind it, and no digits are zero.
pub proof fn law_digits_count_in_tens(digits: Seq<u8>)
    requires
        digits.len() > 0,
    ensures
        decimal(digits) == (digits[0] - 0x30) * pow(10, (digits.len() - 1) as nat) + decimal(
            digits.skip(1),
        ),
        decimal(Seq::<u8>::empty()) == 0,
    decreases digits.len(),
{
    let n = digits.len();
    let rest = digits.skip(1);
    if n == 1 {
        assert(digits.drop_last() =~= Seq::<u8>::empty());
        assert(rest =~= Seq::<u8>::empty());
        assert(pow(10, 0) == 1) by {
            vstd::arithmetic::power::lemma_pow0(10);
        }
    } else {
        let front = digits.drop_last();
        law_digits_count_in_tens(front);
        assert(rest.drop_last() =~= front.skip(1));
        assert(rest.last() == digits.last());
        vstd::arithmetic::power::lemma_pow_adds(10, (n - 2) as nat, 1);
        vstd::arithmetic::power::lemma_pow1(10);
        let p = pow(10, (n - 2) as nat);
        let d = digits[0] - 0x30;
        assert((d * p + decimal(front.skip(1))) * 10 == d * (p * 10) + decimal(front.skip(1)) * 10)
            by (nonlinear_arith);
    }
}

/// A period is digits and a unit.  For the number `n` that the digits stand for,
/// which has to be from 1 to the largest `u64`, `ns`, `us`, `ms` and `sec` give
/// that many nanoseconds, and times a thousand, a million and a thousand
/// million, if the period can hold it; `hz` gives the whole nanoseconds in an
/// `n`th of a second.
pub proof fn law_units_of_a_period(digits: Seq<u8>, n: int)
    requires
        digits.len() > 0,
        forall|i: int| 0 <= i < digits.len() ==> 0x30 <= #[trigger] digits[i] <= 0x39,
        n == decimal(digits),
    ensures
        n <= 0 || n > u64::MAX ==> tick_period(digits + seq![0x6eu8, 0x73u8]) is None
            && tick_period(digits + seq![0x75u8, 0x73u8]) is None && tick_period(
            digits + seq![0x6du8, 0x73u8],
        ) is None && tick_period(digits + seq![0x73u8, 0x65u8, 0x63u8]) is None && tick_period(
            digits + seq![0x68u8, 0x7au8],
        ) is None,
        0 < n <= u64::MAX ==> {
            &&& tick_period(digits + seq![0x6eu8, 0x73u8]) == Some(n as u64)
            &&& n * 1000 <= u64::MAX ==> tick_period(digits + seq![0x75u8, 0x73u8]) == Some(
                (n * 1000) as u64,
            )
            &&& n * 1000 > u64::MAX ==> tick_period(digits + seq![0x75u8, 0x73u8]) is None
            &&& n * 1000000 <= u64::MAX ==> tick_period(digits + seq![0x6du8, 0x73u8]) == Some(
                (n * 1000000) as u64,
            )
            &&& n * 1000000 > u64::MAX ==> tick_period(digits + seq![0x6du8, 0x73u8]) is None
            &&& n * 1000000000 <= u64::MAX ==> tick_period(digits + seq![0x73u8, 0x65u8, 0x63u8])
                == Some((n * 1000000000) as u64)
            &&& n * 1000000000 > u64::MAX ==> tick_period(
                digits + seq![0x73u8, 0x65u8, 0x63u8],
            ) is None
            &&& tick_period(digits + seq![0x68u8, 0x7au8]) == Some((1000000000int / n) as u64)
        },
{
    lemma_unit_bytes();
    let ns = seq![0x6eu8, 0x73u8];
    let us = seq![0x75u8, 0x73u8];
    let ms = seq![0x6du8, 0x73u8];
    let sec = seq![0x73u8, 0x65u8, 0x63u8];
    let hz = seq![0x68u8, 0x7au8];
    law_tick_splits_before_the_unit(digits, ns);
    law_tick_splits_before_the_unit(digits, us);
    law_tick_splits_before_the_unit(digits, ms);
    law_tick_splits_before_the_unit(digits, sec);
    law_tick_splits_before_the_unit(digits, hz);
    assert(ns[0] == 0x6e && us[0] == 0x75 && ms[0] == 0x6d && sec[0] == 0x73 && hz[0] == 0x68);
}

/// What is not digits followed by one of the five units is no period.
pub proof fn law_nothing_else_is_a_period(s: Seq<u8>)
    requires
        tick_period(s) is Some,
    ensures
        exists|n: int|
            0 < n < s.len() && (forall|i: int| 0 <= i < n ==> 0x30 <= #[trigger] s[i] <= 0x39) && {
                let unit = #[trigger] s.skip(n);
                ||| unit == seq![0x6eu8, 0x73u8]
                ||| unit == seq![0x75u8, 0x73u8]
                ||| unit == seq![0x6du8, 0x73u8]
                ||| unit == seq![0x73u8, 0x65u8, 0x63u8]
                ||| unit == seq![0x68u8, 0x7au8]
            },
{
    lemma_unit_bytes();
    lemma_digit_run(s);
    let n = digit_run(s);
    let unit = s.skip(n);
    assert(unit.len() == s.len() - n);
    assert forall|i: int| 0 <= i < n implies 0x30 <= #[trigger] s[i] <= 0x39 by {
        assert(is_digit(s[i]));
    }
}

} // verus!
