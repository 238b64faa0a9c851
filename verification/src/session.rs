//! DTrace sessions: the envelope, its DOF object, and the records of the
//! profile timer.
//!
//! A session command carries a fixed envelope and a DOF object.  The driver
//! looks in that object for a `tick-` probe and drives a timer at its period;
//! each time the timer fires it publishes one record and two snapshots.

use vstd::prelude::*;
use vstd::slice::slice_subrange;
use vstd::utf8::encode_utf8;

use crate::agg_snapshot::{
    concat, counters, lemma_counter_at, lemma_counters_len, row_bytes, snapshot, snapshot_header,
};
use crate::bytes::{
    bytes_eq, first_nul, has_prefix, law_reads_see_a_part, law_u32_round_trip, law_u64_round_trip,
    le_u16, le_u32, le_u64, lemma_first_nul, nul_position, push_bytes, push_u32, push_u64, read_u16_le_unaligned, read_u32_le_unaligned,
    read_u64_le_unaligned, starts_with, u32_bytes, u64_bytes,
};
use crate::errno::{err_of_ptr, event_failed, event_ptr_failed, status_of_err_ptr, EINVAL};
use crate::wire::{
    AGG_SNAPSHOT_PROBE_ID, AGG_SNAPSHOT_ROW_KIND_COUNT, AGG_SNAPSHOT_ROW_KIND_QUANTIZE,
    AGG_SNAPSHOT_SCHEMA_V1, DTRACE_QUANTIZE_NBUCKETS, QUANTIZE_VALUE_SIZE,
};

verus! {

/// Whether `b` is an ASCII decimal digit.
pub open spec fn is_digit(b: u8) -> bool {
    0x30 <= b <= 0x39
}

/// How many digits `s` begins with.
pub open spec fn digit_run(s: Seq<u8>) -> int
    decreases s.len(),
{
    if s.len() == 0 || !is_digit(s[0]) {
        0
    } else {
        1 + digit_run(s.skip(1))
    }
}

/// The number that a string of digits stands for.
pub open spec fn decimal(s: Seq<u8>) -> int
    decreases s.len(),
{
    if s.len() == 0 {
        0
    } else {
        decimal(s.drop_last()) * 10 + (s.last() - 0x30)
    }
}

/// `n`, if a period can hold it.
pub open spec fn period_of(n: int) -> Option<u64> {
    if n <= u64::MAX {
        Some(n as u64)
    } else {
        None
    }
}

/// The period in nanoseconds that `n` of `unit` stand for.  The units are
/// `ms`, `us`, `ns`, `sec` and `hz`.
pub open spec fn unit_period(n: int, unit: Seq<u8>) -> Option<u64> {
    if n <= 0 || n > u64::MAX {
        None
    } else if unit == encode_utf8("ms"@) {
        period_of(n * 1_000_000)
    } else if unit == encode_utf8("us"@) {
        period_of(n * 1_000)
    } else if unit == encode_utf8("ns"@) {
        Some(n as u64)
    } else if unit == encode_utf8("sec"@) {
        period_of(n * 1_000_000_000)
    } else if unit == encode_utf8("hz"@) {
        Some((1_000_000_000int / n) as u64)
    } else {
        None
    }
}

/// The period in nanoseconds that `<digits><unit>` stands for.
pub open spec fn tick_period(s: Seq<u8>) -> Option<u64> {
    let split = digit_run(s);
    if split == 0 {
        None
    } else {
        unit_period(decimal(s.take(split)), s.skip(split))
    }
}

pub proof fn lemma_digit_run(s: Seq<u8>)
    ensures
        0 <= digit_run(s) <= s.len(),
        forall|k: int| 0 <= k < digit_run(s) ==> is_digit(#[trigger] s[k]),
        digit_run(s) < s.len() ==> !is_digit(s[digit_run(s)]),
    decreases s.len(),
{
    if s.len() != 0 && is_digit(s[0]) {
        lemma_digit_run(s.skip(1));
        assert forall|k: int| 0 <= k < digit_run(s) implies is_digit(#[trigger] s[k]) by {
            if k > 0 {
                assert(s.skip(1)[k - 1] == s[k]);
            }
        }
    }
}

/// A string of digits stands for no less than any of its prefixes.
proof fn lemma_decimal_grows(s: Seq<u8>, k: int)
    requires
        0 <= k <= s.len(),
        forall|i: int| 0 <= i < s.len() ==> is_digit(#[trigger] s[i]),
    ensures
        0 <= decimal(s.take(k)) <= decimal(s),
    decreases s.len(), k,
{
    if k == s.len() {
        assert(s.take(k) =~= s);
        if k > 0 {
            assert(s.drop_last() =~= s.take(k - 1));
            lemma_decimal_grows(s, k - 1);
        }
    } else {
        let t = s.drop_last();
        assert forall|i: int| 0 <= i < t.len() implies is_digit(#[trigger] t[i]) by {
            assert(t[i] == s[i]);
        }
        lemma_decimal_grows(t, k);
        assert(t.take(k) =~= s.take(k));
        assert(is_digit(s[s.len() - 1]));
    }
}

/// Read a string of digits; `None` if the number is above `u64::MAX`.
fn read_decimal(s: &[u8]) -> (r: Option<u64>)
    requires
        forall|i: int| 0 <= i < s@.len() ==> is_digit(#[trigger] s@[i]),
    ensures
        r == period_of(decimal(s@)),
        decimal(s@) >= 0,
{
    let mut n: u64 = 0;
    let mut i: usize = 0;
    proof {
        lemma_decimal_grows(s@, 0);
    }
    while i < s.len()
        invariant
            i <= s@.len(),
            n == decimal(s@.take(i as int)),
            forall|i: int| 0 <= i < s@.len() ==> is_digit(#[trigger] s@[i]),
        decreases s@.len() - i,
    {
        let d: u64 = (s[i] - 0x30) as u64;
        proof {
            assert(s@.take(i + 1).drop_last() =~= s@.take(i as int));
            assert(decimal(s@.take(i + 1)) == n * 10 + d);
            lemma_decimal_grows(s@, i + 1);
        }
        if n > (u64::MAX - d) / 10 {
            return None;
        }
        n = n * 10 + d;
        i += 1;
    }
    assert(s@.take(i as int) =~= s@);
    Some(n)
}

/// Parse what follows `tick-` in a probe name into a period in nanoseconds.
pub fn parse_tick_period_ns(bytes: &[u8]) -> (r: Option<u64>)
    ensures
        r == tick_period(bytes@),
{
    let mut split: usize = 0;
    assert(bytes@.skip(0) =~= bytes@);
    while split < bytes.len() && 0x30 <= bytes[split] && bytes[split] <= 0x39
        invariant
            split <= bytes@.len(),
            digit_run(bytes@) == split + digit_run(bytes@.skip(split as int)),
        decreases bytes@.len() - split,
    {
        assert(bytes@.skip(split as int).skip(1) =~= bytes@.skip(split + 1));
        split += 1;
    }
    if split == 0 {
        return None;
    }
    let digits: &[u8] = slice_subrange(bytes, 0, split);
    let unit: &[u8] = slice_subrange(bytes, split, bytes.len());
    proof {
        lemma_digit_run(bytes@);
        assert(digits@ =~= bytes@.take(split as int));
        assert(unit@ =~= bytes@.skip(split as int));
        assert forall|i: int| 0 <= i < digits@.len() implies is_digit(#[trigger] digits@[i]) by {
            assert(digits@[i] == bytes@[i]);
        }
    }
    let n: u64 = match read_decimal(digits) {
        Some(n) => n,
        None => return None,
    };
    if n == 0 {
        return None;
    }
    if bytes_eq(unit, "ms".as_bytes()) {
        return n.checked_mul(1_000_000);
    }
    if bytes_eq(unit, "us".as_bytes()) {
        return n.checked_mul(1_000);
    }
    if bytes_eq(unit, "ns".as_bytes()) {
        return Some(n);
    }
    if bytes_eq(unit, "sec".as_bytes()) {
        return n.checked_mul(1_000_000_000);
    }
    if bytes_eq(unit, "hz".as_bytes()) {
        return Some(1_000_000_000 / n);
    }
    None
}

pub const DOF_HEADER_SIZE: usize = 64;

pub const DOF_SECTION_SIZE: u32 = 32;

/// Section kind of a probe description table.
pub const DOF_SECT_PROBEDESC: u32 = 4;

/// Section kind of a string table.
pub const DOF_SECT_STRTAB: u32 = 8;

/// How many string tables are searched.
pub const MAX_STRTABS: usize = 8;

/// Smallest entry of a probe description table that has a name.
pub const MIN_PROBEDESC_ENTSIZE: u32 = 20;

/// A row of the section table of a DOF object.
#[derive(Clone, Copy, PartialEq, Eq, Structural, Debug)]
pub struct DofSection {
    pub kind: u32,
    pub entsize: u32,
    pub offset: u64,
    pub size: u64,
}

impl DofSection {
    /// The row that stands at `off`.
    pub open spec fn at(dof: Seq<u8>, off: int) -> Self {
        DofSection {
            kind: le_u32(dof, off),
            entsize: le_u32(dof, off + 12),
            offset: le_u64(dof, off + 16),
            size: le_u64(dof, off + 24),
        }
    }

    /// Whether the section lies within an object of `len` bytes.
    pub open spec fn within(self, len: nat) -> bool {
        self.offset + self.size <= len
    }
}

/// The section table of a DOF object; `None` for one that is malformed.
pub open spec fn dof_sections(dof: Seq<u8>) -> Option<Seq<DofSection>> {
    let num = le_u32(dof, 28);
    let off = le_u64(dof, 32);
    let rows = Seq::new(num as nat, |i: int| DofSection::at(dof, off + 32 * i));
    if dof.len() < DOF_HEADER_SIZE || dof.take(4) != seq![0x7fu8, 0x44u8, 0x4fu8, 0x46u8] || le_u32(
        dof,
        24,
    ) != DOF_SECTION_SIZE || off + 32 * num > dof.len() {
        None
    } else if forall|i: int|
        0 <= i < num ==> (#[trigger] rows[i]).offset + rows[i].size <= u64::MAX {
        Some(rows)
    } else {
        None
    }
}

/// The first `MAX_STRTABS` string tables that lie within the object.
pub open spec fn string_tables(rows: Seq<DofSection>, len: nat) -> Seq<DofSection>
    decreases rows.len(),
{
    if rows.len() == 0 {
        Seq::empty()
    } else {
        let t = string_tables(rows.drop_last(), len);
        if rows.last().kind == DOF_SECT_STRTAB && rows.last().within(len) && t.len()
            < MAX_STRTABS {
            t.push(rows.last())
        } else {
            t
        }
    }
}

/// The first table of probe descriptions that lies within the object and has
/// entries with a name.
pub open spec fn probe_table(rows: Seq<DofSection>, len: nat) -> Option<DofSection>
    decreases rows.len(),
{
    if rows.len() == 0 {
        None
    } else if let Some(t) = probe_table(rows.drop_last(), len) {
        Some(t)
    } else if rows.last().kind == DOF_SECT_PROBEDESC && rows.last().within(len)
        && rows.last().entsize >= MIN_PROBEDESC_ENTSIZE {
        Some(rows.last())
    } else {
        None
    }
}

/// The string at `off` in string table `t`, up to its terminator.
pub open spec fn table_string(dof: Seq<u8>, t: DofSection, off: int) -> Seq<u8> {
    let tail = dof.subrange(t.offset + off, t.offset + t.size);
    tail.take(first_nul(tail))
}

/// The period of the `tick-` probe whose name stands at `off` in table `t`.
pub open spec fn name_period(dof: Seq<u8>, t: DofSection, off: int) -> Option<u64> {
    let name = table_string(dof, t, off);
    let tick = encode_utf8("tick-"@);
    if off < t.size && has_prefix(name, tick) {
        tick_period(name.skip(tick.len() as int))
    } else {
        None
    }
}

/// The period that the first of the tables `ts` has at `off`.
pub open spec fn tables_period(dof: Seq<u8>, ts: Seq<DofSection>, off: int) -> Option<u64>
    decreases ts.len(),
{
    if ts.len() == 0 {
        None
    } else if let Some(p) = tables_period(dof, ts.drop_last(), off) {
        Some(p)
    } else {
        name_period(dof, ts.last(), off)
    }
}

/// The period of the first `tick-` probe among the descriptions that stand,
/// `entsize` bytes each, from `cursor` to `end`.
pub open spec fn entries_period(
    dof: Seq<u8>,
    ts: Seq<DofSection>,
    cursor: int,
    end: int,
    entsize: int,
) -> Option<u64>
    decreases end - cursor,
{
    if entsize <= 0 || cursor + entsize > end {
        None
    } else if let Some(p) = tables_period(dof, ts, le_u32(dof, cursor + 16) as int) {
        Some(p)
    } else {
        entries_period(dof, ts, cursor + entsize, end, entsize)
    }
}

/// The period of the first `tick-` probe of a DOF object.
pub open spec fn profile_period(dof: Seq<u8>) -> Option<u64> {
    match dof_sections(dof) {
        Some(rows) => match probe_table(rows, dof.len()) {
            Some(t) => entries_period(
                dof,
                string_tables(rows, dof.len()),
                t.offset as int,
                t.offset + t.size,
                t.entsize as int,
            ),
            None => None,
        },
        None => None,
    }
}

/// Read the section table.
fn read_sections(dof: &[u8]) -> (r: Option<Vec<DofSection>>)
    ensures
        r is Some == dof_sections(dof@) is Some,
        r is Some ==> r->0@ == dof_sections(dof@)->0,
{
    if dof.len() < DOF_HEADER_SIZE {
        return None;
    }
    assert(dof@.take(4) =~= seq![dof@[0], dof@[1], dof@[2], dof@[3]]);
    if !(dof[0] == 0x7f && dof[1] == 0x44 && dof[2] == 0x4f && dof[3] == 0x46) {
        assert(!(dof@.take(4)[0] == 0x7f && dof@.take(4)[1] == 0x44 && dof@.take(4)[2] == 0x4f
            && dof@.take(4)[3] == 0x46));
        return None;
    }
    let sec_size: u32 = read_u32_le_unaligned(dof, 24);
    let num: u32 = read_u32_le_unaligned(dof, 28);
    let off: u64 = read_u64_le_unaligned(dof, 32);
    let len: u64 = dof.len() as u64;
    if sec_size != DOF_SECTION_SIZE || off > len || (num as u64) * 32 > len - off {
        return None;
    }
    let ghost table = Seq::new(num as nat, |i: int| DofSection::at(dof@, off + 32 * i));
    let base: usize = off as usize;
    let mut rows: Vec<DofSection> = Vec::new();
    let mut i: u32 = 0;
    while i < num
        invariant
            i <= num,
            num == le_u32(dof@, 28),
            off == le_u64(dof@, 32),
            base == off,
            len == dof@.len(),
            len <= usize::MAX,
            off + 32 * num <= len,
            table == Seq::new(num as nat, |i: int| DofSection::at(dof@, off + 32 * i)),
            rows@ == table.take(i as int),
            forall|k: int| 0 <= k < i ==> (#[trigger] table[k]).offset + table[k].size <= u64::MAX,
        decreases num - i,
    {
        assert(off + 32 * i + 32 <= len);
        let at: usize = base + (32 * (i as u64)) as usize;
        let kind: u32 = read_u32_le_unaligned(dof, at);
        let entsize: u32 = read_u32_le_unaligned(dof, at + 12);
        let offset: u64 = read_u64_le_unaligned(dof, at + 16);
        let size: u64 = read_u64_le_unaligned(dof, at + 24);
        assert(table[i as int] == (DofSection { kind, entsize, offset, size }));
        if offset > u64::MAX - size {
            return None;
        }
        rows.push(DofSection { kind, entsize, offset, size });
        i += 1;
        assert(rows@ =~= table.take(i as int));
    }
    assert(rows@ =~= table);
    Some(rows)
}

/// Select the string tables.
fn select_string_tables(rows: &Vec<DofSection>, len: usize) -> (r: Vec<DofSection>)
    requires
        forall|k: int| 0 <= k < rows@.len() ==> (#[trigger] rows@[k]).offset + rows@[k].size
            <= u64::MAX,
    ensures
        r@ == string_tables(rows@, len as nat),
        forall|k: int| 0 <= k < r@.len() ==> (#[trigger] r@[k]).within(len as nat),
{
    let mut r: Vec<DofSection> = Vec::new();
    let mut i: usize = 0;
    while i < rows.len()
        invariant
            i <= rows@.len(),
            r@ == string_tables(rows@.take(i as int), len as nat),
            forall|k: int| 0 <= k < r@.len() ==> (#[trigger] r@[k]).within(len as nat),
            forall|k: int| 0 <= k < rows@.len() ==> (#[trigger] rows@[k]).offset + rows@[k].size
                <= u64::MAX,
        decreases rows@.len() - i,
    {
        let row: DofSection = rows[i];
        assert(rows@.take(i + 1).drop_last() =~= rows@.take(i as int));
        if row.kind == DOF_SECT_STRTAB && row.offset + row.size <= len as u64 && r.len()
            < MAX_STRTABS {
            r.push(row);
        }
        i += 1;
    }
    assert(rows@.take(i as int) =~= rows@);
    r
}

/// Select the table of probe descriptions.
fn select_probe_table(rows: &Vec<DofSection>, len: usize) -> (r: Option<DofSection>)
    requires
        forall|k: int| 0 <= k < rows@.len() ==> (#[trigger] rows@[k]).offset + rows@[k].size
            <= u64::MAX,
    ensures
        r == probe_table(rows@, len as nat),
        r is Some ==> r->0.within(len as nat) && r->0.entsize >= MIN_PROBEDESC_ENTSIZE,
{
    let mut r: Option<DofSection> = None;
    let mut i: usize = 0;
    while i < rows.len()
        invariant
            i <= rows@.len(),
            r == probe_table(rows@.take(i as int), len as nat),
            r is Some ==> r->0.within(len as nat) && r->0.entsize >= MIN_PROBEDESC_ENTSIZE,
            forall|k: int| 0 <= k < rows@.len() ==> (#[trigger] rows@[k]).offset + rows@[k].size
                <= u64::MAX,
        decreases rows@.len() - i,
    {
        let row: DofSection = rows[i];
        assert(rows@.take(i + 1).drop_last() =~= rows@.take(i as int));
        if r.is_none() && row.kind == DOF_SECT_PROBEDESC && row.offset + row.size <= len as u64
            && row.entsize >= MIN_PROBEDESC_ENTSIZE {
            r = Some(row);
        }
        i += 1;
    }
    assert(rows@.take(i as int) =~= rows@);
    r
}

/// Look for a `tick-` probe name at `off` in the tables.
fn find_in_tables(dof: &[u8], ts: &Vec<DofSection>, off: u32) -> (r: Option<u64>)
    requires
        forall|k: int| 0 <= k < ts@.len() ==> (#[trigger] ts@[k]).within(dof@.len()),
    ensures
        r == tables_period(dof@, ts@, off as int),
{
    let mut r: Option<u64> = None;
    let mut i: usize = 0;
    let tick: &[u8] = "tick-".as_bytes();
    assert(dof@.len() == dof.len());
    while i < ts.len()
        invariant
            i <= ts@.len(),
            tick@ == encode_utf8("tick-"@),
            dof@.len() <= usize::MAX,
            r == tables_period(dof@, ts@.take(i as int), off as int),
            forall|k: int| 0 <= k < ts@.len() ==> (#[trigger] ts@[k]).within(dof@.len()),
        decreases ts@.len() - i,
    {
        let t: DofSection = ts[i];
        assert(ts@.take(i + 1).drop_last() =~= ts@.take(i as int));
        assert(t.within(dof@.len()));
        if r.is_none() && (off as u64) < t.size {
            let from: usize = t.offset as usize + off as usize;
            let to: usize = t.offset as usize + t.size as usize;
            let tail: &[u8] = slice_subrange(dof, from, to);
            proof {
                lemma_first_nul(tail@);
            }
            let name: &[u8] = slice_subrange(tail, 0, nul_position(tail));
            assert(name@ =~= table_string(dof@, t, off as int));
            if starts_with(name, tick) {
                let rest: &[u8] = slice_subrange(name, tick.len(), name.len());
                assert(rest@ =~= name@.skip(tick@.len() as int));
                r = parse_tick_period_ns(rest);
            }
        }
        i += 1;
    }
    assert(ts@.take(i as int) =~= ts@);
    r
}

/// Find the period of the first `tick-` probe of a DOF object.
pub fn dtrace_session_extract_profile_period_ns(dof: &[u8]) -> (r: Option<u64>)
    ensures
        r == profile_period(dof@),
{
    let rows: Vec<DofSection> = match read_sections(dof) {
        Some(rows) => rows,
        None => return None,
    };
    let ghost table = dof_sections(dof@)->0;
    assert(forall|k: int| 0 <= k < rows@.len() ==> (#[trigger] rows@[k]).offset + rows@[k].size
        <= u64::MAX) by {
        assert(rows@ == table);
    }
    assert(dof@.len() == dof.len());
    let ts: Vec<DofSection> = select_string_tables(&rows, dof.len());
    let t: DofSection = match select_probe_table(&rows, dof.len()) {
        Some(t) => t,
        None => return None,
    };
    let end: u64 = t.offset + t.size;
    let entsize: u64 = t.entsize as u64;
    let mut cursor: u64 = t.offset;
    while entsize <= end - cursor
        invariant
            cursor <= end <= dof@.len() <= usize::MAX,
            entsize >= MIN_PROBEDESC_ENTSIZE,
            forall|k: int| 0 <= k < ts@.len() ==> (#[trigger] ts@[k]).within(dof@.len()),
            profile_period(dof@) == entries_period(
                dof@,
                ts@,
                cursor as int,
                end as int,
                entsize as int,
            ),
        decreases end - cursor,
    {
        let name_off: u32 = read_u32_le_unaligned(dof, cursor as usize + 16);
        let p: Option<u64> = find_in_tables(dof, &ts, name_off);
        if p.is_some() {
            return p;
        }
        cursor += entsize;
    }
    None
}

/// Digits followed by a unit that does not begin with a digit give the period
/// of that many units.
pub proof fn law_tick_splits_before_the_unit(digits: Seq<u8>, unit: Seq<u8>)
    requires
        digits.len() > 0,
        forall|i: int| 0 <= i < digits.len() ==> is_digit(#[trigger] digits[i]),
        unit.len() > 0 ==> !is_digit(unit[0]),
    ensures
        tick_period(digits + unit) == unit_period(decimal(digits), unit),
{
    let s = digits + unit;
    lemma_digit_run(s);
    let split = digit_run(s);
    if split < digits.len() {
        assert(s[split] == digits[split]);
    }
    if split > digits.len() {
        assert(s[digits.len() as int] == unit[0]);
    }
    assert(s.take(split) =~= digits);
    assert(s.skip(split) =~= unit);
}

proof fn lemma_tables_period(dof: Seq<u8>, ts: Seq<DofSection>, off: int)
    requires
        tables_period(dof, ts, off) is Some,
    ensures
        exists|i: int|
            0 <= i < ts.len() && name_period(dof, #[trigger] ts[i], off) == tables_period(
                dof,
                ts,
                off,
            ),
    decreases ts.len(),
{
    let front = ts.drop_last();
    if tables_period(dof, front, off) is Some {
        lemma_tables_period(dof, front, off);
        let i = choose|i: int|
            0 <= i < front.len() && name_period(dof, #[trigger] front[i], off) == tables_period(
                dof,
                front,
                off,
            );
        assert(ts[i] == front[i]);
    } else {
        assert(ts[ts.len() - 1] == ts.last());
    }
}

proof fn lemma_entries_period(
    dof: Seq<u8>,
    ts: Seq<DofSection>,
    cursor: int,
    end: int,
    entsize: int,
)
    requires
        entries_period(dof, ts, cursor, end, entsize) is Some,
    ensures
        exists|off: int|
            #[trigger] tables_period(dof, ts, off) == entries_period(
                dof,
                ts,
                cursor,
                end,
                entsize,
            ),
    decreases end - cursor,
{
    let off = le_u32(dof, cursor + 16) as int;
    if tables_period(dof, ts, off) is None {
        lemma_entries_period(dof, ts, cursor + entsize, end, entsize);
    }
}

/// A period is found only where a string table of the object holds the name of
/// a `tick-` probe with that period.
pub proof fn law_period_is_that_of_a_tick_probe(dof: Seq<u8>)
    requires
        profile_period(dof) is Some,
    ensures
        dof_sections(dof) is Some,
        exists|i: int, off: int|
            0 <= i < string_tables(dof_sections(dof)->0, dof.len()).len()
                && #[trigger] name_period(
                dof,
                string_tables(dof_sections(dof)->0, dof.len())[i],
                off,
            ) == profile_period(dof),
{
    let rows = dof_sections(dof)->0;
    let ts = string_tables(rows, dof.len());
    let t = probe_table(rows, dof.len())->0;
    lemma_entries_period(dof, ts, t.offset as int, t.offset + t.size, t.entsize as int);
    let off = choose|off: int| #[trigger]
        tables_period(dof, ts, off) == profile_period(dof);
    lemma_tables_period(dof, ts, off);
}

/// Bytes of a session envelope.
pub const ENVELOPE_SIZE: usize = 96;

pub const SESSION_WIRE_MAJOR: u16 = 1;

/// Period of the timer for a session without a `tick-` probe.
pub const FALLBACK_PERIOD_NS: u64 = 100_000_000;

/// Why a session is refused.
#[derive(Clone, Copy, PartialEq, Eq, Structural, Debug)]
pub enum SessionFault {
    ShortEnvelope,
    BadMagic,
    WireMajor { found: u16 },
    DofOutOfBounds,
}

/// What becomes of a session command.
#[derive(Clone, Copy, PartialEq, Eq, Structural, Debug)]
pub enum SessionPlan {
    /// Complete the command with the status `-EINVAL`.
    Reject { fault: SessionFault },
    /// The end of the DOF object is not a representable offset.
    DofEndOverflows,
    /// Attach the profile timer, then complete the command with status 0.
    Attach { period_ns: u64, fallback: bool },
}

/// Where the DOF object starts in the payload.  The envelope counts from the
/// start of the 8-byte command header.
pub open spec fn dof_start(payload: Seq<u8>) -> int {
    let off = le_u64(payload, 32);
    if off >= 8 {
        off - 8
    } else {
        0
    }
}

/// What becomes of a session whose payload, the command without its header, is
/// `payload`.
pub open spec fn session_plan(payload: Seq<u8>) -> SessionPlan {
    let major = le_u16(payload, 4);
    let start = dof_start(payload);
    let end = start + le_u64(payload, 40);
    if payload.len() < ENVELOPE_SIZE {
        SessionPlan::Reject { fault: SessionFault::ShortEnvelope }
    } else if payload.take(4) != encode_utf8("DTS1"@) {
        SessionPlan::Reject { fault: SessionFault::BadMagic }
    } else if major != SESSION_WIRE_MAJOR {
        SessionPlan::Reject { fault: SessionFault::WireMajor { found: major } }
    } else if end > u64::MAX {
        SessionPlan::DofEndOverflows
    } else if end > payload.len() {
        SessionPlan::Reject { fault: SessionFault::DofOutOfBounds }
    } else {
        match profile_period(payload.subrange(start, end)) {
            Some(period_ns) => SessionPlan::Attach { period_ns, fallback: false },
            None => SessionPlan::Attach { period_ns: FALLBACK_PERIOD_NS, fallback: true },
        }
    }
}

/// Decide what becomes of a session command.
pub fn plan_session(payload: &[u8]) -> (plan: SessionPlan)
    ensures
        plan == session_plan(payload@),
{
    if payload.len() < ENVELOPE_SIZE {
        return SessionPlan::Reject { fault: SessionFault::ShortEnvelope };
    }
    let magic: &[u8] = slice_subrange(payload, 0, 4);
    assert(magic@ =~= payload@.take(4));
    if !bytes_eq(magic, "DTS1".as_bytes()) {
        return SessionPlan::Reject { fault: SessionFault::BadMagic };
    }
    let major: u16 = read_u16_le_unaligned(payload, 4);
    if major != SESSION_WIRE_MAJOR {
        return SessionPlan::Reject { fault: SessionFault::WireMajor { found: major } };
    }
    let dof_off: u64 = read_u64_le_unaligned(payload, 32);
    let dof_len: u64 = read_u64_le_unaligned(payload, 40);
    let start: u64 = dof_off.saturating_sub(8);
    if start > u64::MAX - dof_len {
        return SessionPlan::DofEndOverflows;
    }
    let end: u64 = start + dof_len;
    if end > payload.len() as u64 {
        return SessionPlan::Reject { fault: SessionFault::DofOutOfBounds };
    }
    assert(payload@.len() == payload.len());
    let dof: &[u8] = slice_subrange(payload, start as usize, end as usize);
    match dtrace_session_extract_profile_period_ns(dof) {
        Some(period_ns) => SessionPlan::Attach { period_ns, fallback: false },
        None => SessionPlan::Attach { period_ns: FALLBACK_PERIOD_NS, fallback: true },
    }
}

/// The status that a command with plan `plan` completes with, once the timer
/// of an accepted session has been attached.
pub open spec fn plan_status(plan: SessionPlan) -> i32 {
    match plan {
        SessionPlan::Reject { .. } => (-EINVAL) as i32,
        _ => 0,
    }
}

/// Compute the status that a session command completes with.
pub fn session_status(plan: &SessionPlan) -> (r: i32)
    requires
        !(*plan is DofEndOverflows),
    ensures
        r == plan_status(*plan),
{
    match plan {
        SessionPlan::Reject { .. } => -EINVAL,
        _ => 0,
    }
}

/// The timer event of the session; at most one is live.
pub struct SessionTimer {
    /// The kernel's event, or 0.
    pub event: u64,
}

impl SessionTimer {
    /// No session has a timer yet.
    pub fn new() -> (t: Self)
        ensures
            t.event == 0,
    {
        SessionTimer { event: 0 }
    }

    /// Give up the event; the caller releases the one handed back.
    pub fn release(&mut self) -> (r: Option<u64>)
        ensures
            final(self).event == 0,
            r == (if old(self).event != 0 {
                Some(old(self).event)
            } else {
                None
            }),
    {
        if self.event == 0 {
            return None;
        }
        let event: u64 = self.event;
        self.event = 0;
        Some(event)
    }

    /// Take the pointer that creating an event returned; the result is the
    /// status of the attempt.  The previous event has been released.
    pub fn created(&mut self, ptr: u64) -> (status: i32)
        requires
            old(self).event == 0,
        ensures
            event_failed(ptr) ==> status == err_of_ptr(ptr) && status < 0
                && final(self).event == 0,
            !event_failed(ptr) ==> status == 0 && final(self).event == ptr,
    {
        if event_ptr_failed(ptr) {
            return status_of_err_ptr(ptr, -EINVAL);
        }
        self.event = ptr;
        0
    }
}

pub const PRINCIPAL_RECORD_SIZE: usize = 32;

pub const COUNT_RECORD_SIZE: usize = 60;

pub const QUANTIZE_RECORD_SIZE: usize = 1060;

/// Probe id of the record of a timer tick: the first program slot, counted
/// from one.
pub const TICK_PROBE_ID: u32 = 1;

/// Probe id of the record that reports the arrival of a session command.
pub const DIAGNOSTIC_PROBE_ID: u32 = 99;

/// Fake descriptor of the aggregation that the timer feeds.
pub const SESSION_AGG_FD: i32 = 200;

/// The quantize bucket that counts zeroes.
pub const QUANTIZE_ZERO_BUCKET: usize = 63;

/// A principal record of no particular machine or process.
pub open spec fn principal(probe_id: u32, ns: u64, value: u64) -> Seq<u8> {
    u32_bytes(0) + u32_bytes(probe_id) + u64_bytes(ns) + u64_bytes(0) + u64_bytes(value)
}

/// Encode a principal record.
pub fn principal_record(probe_id: u32, ns: u64, value: u64) -> (r: Vec<u8>)
    ensures
        r@ == principal(probe_id, ns, value),
        r@.len() == PRINCIPAL_RECORD_SIZE,
{
    let mut r: Vec<u8> = Vec::new();
    push_u32(&mut r, 0);
    push_u32(&mut r, probe_id);
    push_u64(&mut r, ns);
    push_u64(&mut r, 0);
    push_u64(&mut r, value);
    assert(r@ =~= principal(probe_id, ns, value));
    r
}

/// The key of the counting aggregation: `all`, padded to eight bytes.
pub open spec fn count_key() -> Seq<u8> {
    seq![0x61u8, 0x6cu8, 0x6cu8, 0u8, 0u8, 0u8, 0u8, 0u8]
}

/// The row of the counting aggregation.
pub open spec fn count_row(count: u64) -> Seq<u8> {
    row_bytes(SESSION_AGG_FD, AGG_SNAPSHOT_ROW_KIND_COUNT, count_key(), u64_bytes(count))
}

/// The buckets of the quantize aggregation.
pub open spec fn count_buckets(count: u64) -> Seq<u64> {
    Seq::new(
        DTRACE_QUANTIZE_NBUCKETS as nat,
        |i: int|
            if i == QUANTIZE_ZERO_BUCKET {
                count
            } else {
                0
            },
    )
}

/// The row of the quantize aggregation, which has no key.
pub open spec fn quantize_row(count: u64) -> Seq<u8> {
    row_bytes(
        SESSION_AGG_FD,
        AGG_SNAPSHOT_ROW_KIND_QUANTIZE,
        Seq::empty(),
        counters(count_buckets(count)),
    )
}

/// Encode the part of a snapshot with one row that stands before its key.
fn snapshot_start(ns: u64, kind: u8, key_size: u32) -> (r: Vec<u8>)
    ensures
        r@ == snapshot_header(ns) + u32_bytes(1) + u32_bytes(
            SESSION_AGG_FD as u32,
        ) + seq![kind, 0u8, 0u8, 0u8] + u32_bytes(key_size),
{
    let mut r: Vec<u8> = Vec::new();
    push_u32(&mut r, 0);
    push_u32(&mut r, AGG_SNAPSHOT_PROBE_ID);
    push_u64(&mut r, ns);
    push_u64(&mut r, AGG_SNAPSHOT_SCHEMA_V1);
    push_u32(&mut r, 1);
    push_u32(&mut r, SESSION_AGG_FD as u32);
    let kinds: [u8; 4] = [kind, 0, 0, 0];
    assert(kinds@ =~= seq![kind, 0u8, 0u8, 0u8]);
    push_bytes(&mut r, &kinds);
    push_u32(&mut r, key_size);
    r
}

proof fn lemma_one_row(ns: u64, row: Seq<u8>)
    ensures
        snapshot(ns, seq![row]) == snapshot_header(ns) + u32_bytes(1) + row,
{
    reveal_with_fuel(concat, 2);
    let rows = seq![row];
    assert(rows.drop_last() =~= Seq::<Seq<u8>>::empty());
    assert(concat(rows) =~= row);
}

/// Encode a snapshot with the one row of the counting aggregation.
pub fn count_record(ns: u64, count: u64) -> (r: Vec<u8>)
    ensures
        r@ == snapshot(ns, seq![count_row(count)]),
        r@.len() == COUNT_RECORD_SIZE,
{
    let mut r: Vec<u8> = snapshot_start(ns, AGG_SNAPSHOT_ROW_KIND_COUNT, 8);
    let key: [u8; 8] = [0x61, 0x6c, 0x6c, 0, 0, 0, 0, 0];
    assert(key@ =~= count_key());
    push_bytes(&mut r, &key);
    push_u32(&mut r, 8);
    push_u64(&mut r, count);
    proof {
        lemma_one_row(ns, count_row(count));
        assert(r@ =~= snapshot(ns, seq![count_row(count)]));
    }
    r
}

/// Encode a snapshot with the one row of the quantize aggregation.
pub fn quantize_record(ns: u64, count: u64) -> (r: Vec<u8>)
    ensures
        r@ == snapshot(ns, seq![quantize_row(count)]),
        r@.len() == QUANTIZE_RECORD_SIZE,
{
    let mut r: Vec<u8> = snapshot_start(ns, AGG_SNAPSHOT_ROW_KIND_QUANTIZE, 0);
    push_u32(&mut r, QUANTIZE_VALUE_SIZE);
    let ghost head = r@;
    let ghost buckets = count_buckets(count);
    let mut i: usize = 0;
    assert(buckets.take(0) =~= Seq::<u64>::empty());
    while i < DTRACE_QUANTIZE_NBUCKETS
        invariant
            i <= DTRACE_QUANTIZE_NBUCKETS,
            buckets == count_buckets(count),
            r@ == head + counters(buckets.take(i as int)),
        decreases DTRACE_QUANTIZE_NBUCKETS - i,
    {
        let v: u64 = if i == QUANTIZE_ZERO_BUCKET {
            count
        } else {
            0
        };
        push_u64(&mut r, v);
        proof {
            assert(buckets.take(i + 1).drop_last() =~= buckets.take(i as int));
            assert(buckets.take(i + 1).last() == v);
            assert(r@ =~= head + counters(buckets.take(i + 1)));
        }
        i += 1;
    }
    proof {
        assert(buckets.take(i as int) =~= buckets);
        lemma_counters_len(buckets);
        lemma_one_row(ns, quantize_row(count));
        assert(r@ =~= snapshot(ns, seq![quantize_row(count)]));
    }
    r
}

/// A session is accepted exactly if its payload has the 96 bytes of an envelope,
/// begins with `DTS1`, has wire version 1, and holds the whole of its DOF
/// object; the envelope counts the object's offset from the start of the
/// command, whose header is the eight bytes `hdr`, and an offset within the
/// header means its end.  The timer then runs at the period of that object, or
/// every 100 ms if it has none.
pub proof fn law_accepted_sessions(hdr: Seq<u8>, payload: Seq<u8>, off: int, len: int)
    requires
        hdr.len() == 8,
        off == if le_u64(payload, 32) < 8 {
            8
        } else {
            le_u64(payload, 32) as int
        },
        len == le_u64(payload, 40),
    ensures
        session_plan(payload) is Attach <==> {
            &&& payload.len() >= 96
            &&& payload[0] == 0x44 && payload[1] == 0x54 && payload[2] == 0x53 && payload[3] == 0x31
            &&& le_u16(payload, 4) == 1
            &&& off + len <= (hdr + payload).len()
            &&& off - 8 + len <= u64::MAX
        },
        session_plan(payload) is DofEndOverflows <==> {
            &&& payload.len() >= 96
            &&& payload[0] == 0x44 && payload[1] == 0x54 && payload[2] == 0x53 && payload[3] == 0x31
            &&& le_u16(payload, 4) == 1
            &&& off - 8 + len > u64::MAX
        },
        session_plan(payload) is Attach ==> session_plan(payload) == match profile_period(
            (hdr + payload).subrange(off, off + len),
        ) {
            Some(p) => SessionPlan::Attach { period_ns: p, fallback: false },
            None => SessionPlan::Attach { period_ns: 100000000, fallback: true },
        },
{
    lemma_magic(payload);
    if session_plan(payload) is Attach {
        assert(payload.subrange(off - 8, off - 8 + len) =~= (hdr + payload).subrange(
            off,
            off + len,
        ));
    }
}

proof fn lemma_magic(payload: Seq<u8>)
    ensures
        payload.len() >= 4 ==> (payload.take(4) == encode_utf8("DTS1"@) <==> (payload[0] == 0x44
            && payload[1] == 0x54 && payload[2] == 0x53 && payload[3] == 0x31)),
{
    reveal_strlit("DTS1");
    vstd::utf8::is_ascii_chars_encode_utf8("DTS1"@);
    let m = encode_utf8("DTS1"@);
    assert(m =~= seq![0x44u8, 0x54u8, 0x53u8, 0x31u8]);
    if payload.len() >= 4 {
        let t = payload.take(4);
        if t == m {
            assert(t[0] == 0x44 && t[1] == 0x54 && t[2] == 0x53 && t[3] == 0x31);
        } else if payload[0] == 0x44 && payload[1] == 0x54 && payload[2] == 0x53 && payload[3]
            == 0x31 {
            assert(t =~= m);
        }
    }
}

/// A session that is refused is answered `-EINVAL`, with the first fault that it
/// has; one that is accepted is answered 0.
pub proof fn law_refused_sessions(payload: Seq<u8>)
    ensures
        plan_status(session_plan(payload)) == (if session_plan(payload) is Reject {
            -22i32
        } else {
            0i32
        }),
        session_plan(payload) == (SessionPlan::Reject { fault: SessionFault::ShortEnvelope })
            <==> payload.len() < 96,
        session_plan(payload) == (SessionPlan::Reject { fault: SessionFault::BadMagic }) <==> {
            &&& payload.len() >= 96
            &&& !(payload[0] == 0x44 && payload[1] == 0x54 && payload[2] == 0x53 && payload[3]
                == 0x31)
        },
        forall|found: u16| #[trigger]
            wire_fault(found) == session_plan(payload) <==> {
                &&& payload.len() >= 96
                &&& payload[0] == 0x44 && payload[1] == 0x54 && payload[2] == 0x53 && payload[3]
                    == 0x31
                &&& found == payload[4] + 256 * payload[5] && found != 1
            },
{
    lemma_magic(payload);
}

/// The refusal of a session with wire version `found`.
pub open spec fn wire_fault(found: u16) -> SessionPlan {
    SessionPlan::Reject { fault: SessionFault::WireMajor { found } }
}

/// A principal record is a zero word, the probe id, the time, a zero and the
/// value, each where a reader looks for it.
pub proof fn law_principal_reads_back(probe_id: u32, ns: u64, value: u64)
    ensures
        ({
            let r = principal(probe_id, ns, value);
            &&& r.len() == 32
            &&& le_u32(r, 0) == 0
            &&& le_u32(r, 4) == probe_id
            &&& le_u64(r, 8) == ns
            &&& le_u64(r, 16) == 0
            &&& le_u64(r, 24) == value
        }),
{
    let r = principal(probe_id, ns, value);
    law_u32_round_trip(0);
    law_u32_round_trip(probe_id);
    law_u64_round_trip(ns);
    law_u64_round_trip(0);
    law_u64_round_trip(value);
    assert(r.subrange(0, 4) =~= u32_bytes(0));
    assert(r.subrange(4, 8) =~= u32_bytes(probe_id));
    assert(r.subrange(8, 16) =~= u64_bytes(ns));
    assert(r.subrange(16, 24) =~= u64_bytes(0));
    assert(r.subrange(24, 32) =~= u64_bytes(value));
    law_reads_see_a_part(r, 0, 4);
    law_reads_see_a_part(r, 4, 8);
    law_reads_see_a_part(r, 8, 16);
    law_reads_see_a_part(r, 16, 24);
    law_reads_see_a_part(r, 24, 32);
}

/// The counting record is a snapshot with one row, of descriptor 200 and the
/// kind of a count, whose key is `all` and whose value is the count.
#[verifier::spinoff_prover]
#[verifier::rlimit(40)]
pub proof fn law_count_record_reads_back(ns: u64, count: u64)
    ensures
        ({
            let r = snapshot(ns, seq![count_row(count)]);
            &&& r.len() == 60
            &&& le_u64(r, 8) == ns
            &&& le_u32(r, 24) == 1
            &&& le_u32(r, 28) == 200
            &&& r[32] == 1 && r[33] == 0 && r[34] == 0 && r[35] == 0
            &&& le_u32(r, 36) == 8
            &&& r.subrange(40, 48) == seq![0x61u8, 0x6cu8, 0x6cu8, 0u8, 0u8, 0u8, 0u8, 0u8]
            &&& le_u32(r, 48) == 8
            &&& le_u64(r, 52) == count
        }),
{
    lemma_one_row(ns, count_row(count));
    let r = snapshot(ns, seq![count_row(count)]);
    law_u64_round_trip(ns);
    law_u64_round_trip(count);
    law_u32_round_trip(1);
    law_u32_round_trip(200);
    law_u32_round_trip(8);
    assert(r.subrange(8, 16) =~= u64_bytes(ns));
    assert(r.subrange(24, 28) =~= u32_bytes(1));
    assert(r.subrange(28, 32) =~= u32_bytes(200));
    assert(r.subrange(36, 40) =~= u32_bytes(8));
    assert(r.subrange(40, 48) =~= count_key());
    assert(r.subrange(48, 52) =~= u32_bytes(8));
    assert(r.subrange(52, 60) =~= u64_bytes(count));
    law_reads_see_a_part(r, 8, 16);
    law_reads_see_a_part(r, 24, 28);
    law_reads_see_a_part(r, 28, 32);
    law_reads_see_a_part(r, 36, 40);
    law_reads_see_a_part(r, 48, 52);
    law_reads_see_a_part(r, 52, 60);
}

/// The quantize record is a snapshot with one row, of descriptor 200 and the
/// kind of a quantize aggregation, without key, whose 127 buckets are zero but
/// for the one of zeroes, which holds the count.
#[verifier::spinoff_prover]
#[verifier::rlimit(40)]
pub proof fn law_quantize_record_reads_back(ns: u64, count: u64, b: int)
    requires
        0 <= b < 127,
    ensures
        ({
            let r = snapshot(ns, seq![quantize_row(count)]);
            &&& r.len() == 1060
            &&& le_u64(r, 8) == ns
            &&& le_u32(r, 24) == 1
            &&& le_u32(r, 28) == 200
            &&& r[32] == 7 && r[33] == 0 && r[34] == 0 && r[35] == 0
            &&& le_u32(r, 36) == 0
            &&& le_u32(r, 40) == 1016
            &&& le_u64(r, 44 + 8 * b) == if b == 63 {
                count
            } else {
                0
            }
        }),
{
    let buckets = count_buckets(count);
    lemma_one_row(ns, quantize_row(count));
    lemma_counter_at(buckets, b);
    lemma_unkeyed_row(ns, counters(buckets), 8 * b);
    law_u64_round_trip(buckets[b]);
}

/// Where the parts of a snapshot stand whose one row has no key and the value `c`.
#[verifier::spinoff_prover]
#[verifier::rlimit(40)]
proof fn lemma_unkeyed_row(ns: u64, c: Seq<u8>, at: int)
    requires
        c.len() == 1016,
        0 <= at <= 1008,
    ensures
        ({
            let r = snapshot_header(ns) + u32_bytes(1) + row_bytes(
                SESSION_AGG_FD,
                AGG_SNAPSHOT_ROW_KIND_QUANTIZE,
                Seq::empty(),
                c,
            );
            &&& r.len() == 1060
            &&& le_u64(r, 8) == ns
            &&& le_u32(r, 24) == 1
            &&& le_u32(r, 28) == 200
            &&& r[32] == 7 && r[33] == 0 && r[34] == 0 && r[35] == 0
            &&& le_u32(r, 36) == 0
            &&& le_u32(r, 40) == 1016
            &&& le_u64(r, 44 + at) == le_u64(c.subrange(at, at + 8), 0)
        }),
{
    let r = snapshot_header(ns) + u32_bytes(1) + row_bytes(
        SESSION_AGG_FD,
        AGG_SNAPSHOT_ROW_KIND_QUANTIZE,
        Seq::empty(),
        c,
    );
    law_u64_round_trip(ns);
    law_u32_round_trip(1);
    law_u32_round_trip(0);
    law_u32_round_trip(200);
    law_u32_round_trip(1016);
    assert(r.subrange(8, 16) =~= u64_bytes(ns));
    assert(r.subrange(24, 28) =~= u32_bytes(1));
    assert(r.subrange(28, 32) =~= u32_bytes(200));
    assert(r.subrange(36, 40) =~= u32_bytes(0));
    assert(r.subrange(40, 44) =~= u32_bytes(1016));
    assert(r.subrange(44 + at, 52 + at) =~= c.subrange(at, at + 8));
    law_reads_see_a_part(r, 8, 16);
    law_reads_see_a_part(r, 24, 28);
    law_reads_see_a_part(r, 28, 32);
    law_reads_see_a_part(r, 36, 40);
    law_reads_see_a_part(r, 40, 44);
    law_reads_see_a_part(r, 44 + at, 52 + at);
}

} // verus!
