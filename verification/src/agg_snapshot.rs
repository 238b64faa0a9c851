//! Snapshots of aggregation maps, as records in the shared memory ring.
//!
//! A snapshot record is a header followed by one row for each live entry of
//! each aggregation map.  The driver shell walks the maps as it is told here
//! and hands back what the kernel found.  Live entries beyond those that a
//! record has room for are left out and counted, as drops of their class.

use vstd::prelude::*;

use crate::bpf_consts::{BPF_MAP_TYPE_ARRAY, BPF_MAP_TYPE_PERCPU_ARRAY, BPF_MAP_TYPE_RINGBUF};
use crate::bytes::{
    bits32, law_u32_round_trip, le_u32, lemma_splice, splice, u32_bytes, u32_le, u64_bytes,
};
use crate::record_writer::{law_append_extends, law_rollback_keeps_prefix, RecordWriter};
use crate::wire::{
    RecordCodes, AGG_KIND_AVG, AGG_KIND_MAX, AGG_KIND_MIN, AGG_KIND_SUM, AGG_SNAPSHOT_PROBE_ID,
    AGG_SNAPSHOT_ROW_KIND_QUANTIZE, AGG_SNAPSHOT_SCHEMA_V1, DTRACE_QUANTIZE_NBUCKETS,
    QUANTIZE_VALUE_SIZE,
};

verus! {

pub const HDR_BYTES: usize = 24;

pub const NUM_ENTRIES_BYTES: usize = 4;

pub const MAX_KEY_BYTES: usize = 32;

/// Most bytes that the value of one row may have.
pub const PER_ROW_VAL_CAP: usize = 1024;

pub const MAX_ENTRY_BYTES: usize = 1068;

/// Most rows of one snapshot.
pub const MAX_ENTRIES: usize = 60;

/// Size of the record that a snapshot reserves.
pub const MAX_BODY: usize = 64108;

/// Maps with a fake descriptor from here on are not aggregations.
pub const FIRST_INTERNAL_FD: i32 = 300;

/// The row kind that stands for aggregation kind `kind`.
pub open spec fn row_kind(codes: RecordCodes, kind: u8) -> u8 {
    if kind == AGG_KIND_SUM {
        codes.row_kind_sum
    } else if kind == AGG_KIND_MIN {
        codes.row_kind_min
    } else if kind == AGG_KIND_MAX {
        codes.row_kind_max
    } else if kind == AGG_KIND_AVG {
        codes.row_kind_avg
    } else if kind == codes.agg_kind_stddev {
        codes.row_kind_stddev
    } else if kind == codes.agg_kind_quantize {
        AGG_SNAPSHOT_ROW_KIND_QUANTIZE
    } else {
        codes.row_kind_unknown
    }
}

/// Translate the aggregation kind of a map to the kind of its rows.
pub fn agg_snapshot_row_kind(codes: &RecordCodes, agg_kind_u8: u8) -> (r: u8)
    ensures
        r == row_kind(*codes, agg_kind_u8),
{
    if agg_kind_u8 == AGG_KIND_SUM {
        codes.row_kind_sum
    } else if agg_kind_u8 == AGG_KIND_MIN {
        codes.row_kind_min
    } else if agg_kind_u8 == AGG_KIND_MAX {
        codes.row_kind_max
    } else if agg_kind_u8 == AGG_KIND_AVG {
        codes.row_kind_avg
    } else if agg_kind_u8 == codes.agg_kind_stddev {
        codes.row_kind_stddev
    } else if agg_kind_u8 == codes.agg_kind_quantize {
        AGG_SNAPSHOT_ROW_KIND_QUANTIZE
    } else {
        codes.row_kind_unknown
    }
}

/// How the values of one key are combined across CPUs.
#[derive(Clone, Copy, PartialEq, Eq, Structural, Debug)]
pub enum Reduce {
    Sum,
    Min,
    Max,
    Avg,
    Stddev,
    Quantize,
}

/// How the values of a map of aggregation kind `kind` are combined.
pub open spec fn reduce_of(codes: RecordCodes, kind: u8) -> Reduce {
    if kind == codes.agg_kind_quantize {
        Reduce::Quantize
    } else if kind == codes.agg_kind_stddev {
        Reduce::Stddev
    } else if kind == AGG_KIND_MIN {
        Reduce::Min
    } else if kind == AGG_KIND_MAX {
        Reduce::Max
    } else if kind == AGG_KIND_AVG {
        Reduce::Avg
    } else {
        Reduce::Sum
    }
}

/// Choose how the values of a map are combined.
pub fn agg_reduce(codes: &RecordCodes, kind: u8) -> (r: Reduce)
    ensures
        r == reduce_of(*codes, kind),
{
    if kind == codes.agg_kind_quantize {
        Reduce::Quantize
    } else if kind == codes.agg_kind_stddev {
        Reduce::Stddev
    } else if kind == AGG_KIND_MIN {
        Reduce::Min
    } else if kind == AGG_KIND_MAX {
        Reduce::Max
    } else if kind == AGG_KIND_AVG {
        Reduce::Avg
    } else {
        Reduce::Sum
    }
}

/// The header of a snapshot taken at `ns`.
pub open spec fn snapshot_header(ns: u64) -> Seq<u8> {
    u32_bytes(0) + u32_bytes(AGG_SNAPSHOT_PROBE_ID) + u64_bytes(ns) + u64_bytes(
        AGG_SNAPSHOT_SCHEMA_V1,
    )
}

/// One row: the map's fake descriptor, the row kind, the key and the value.
pub open spec fn row_bytes(fd: i32, kind: u8, key: Seq<u8>, value: Seq<u8>) -> Seq<u8> {
    u32_bytes(bits32(fd)) + seq![kind, 0u8, 0u8, 0u8] + u32_bytes(key.len() as u32) + key
        + u32_bytes(value.len() as u32) + value
}

/// The bytes of a list of counters.
pub open spec fn counters(s: Seq<u64>) -> Seq<u8>
    decreases s.len(),
{
    if s.len() == 0 {
        Seq::empty()
    } else {
        counters(s.drop_last()) + u64_bytes(s.last())
    }
}

pub proof fn lemma_counters_len(s: Seq<u64>)
    ensures
        counters(s).len() == 8 * s.len(),
    decreases s.len(),
{
    if s.len() > 0 {
        lemma_counters_len(s.drop_last());
    }
}

/// Counter `i` stands eight bytes behind the one before it.
pub proof fn lemma_counter_at(s: Seq<u64>, i: int)
    requires
        0 <= i < s.len(),
    ensures
        counters(s).len() == 8 * s.len(),
        counters(s).subrange(8 * i, 8 * i + 8) == u64_bytes(s[i]),
    decreases s.len(),
{
    lemma_counters_len(s);
    lemma_counters_len(s.drop_last());
    if i < s.len() - 1 {
        lemma_counter_at(s.drop_last(), i);
        assert(counters(s).subrange(8 * i, 8 * i + 8) =~= counters(s.drop_last()).subrange(
            8 * i,
            8 * i + 8,
        ));
    } else {
        assert(counters(s).subrange(8 * i, 8 * i + 8) =~= u64_bytes(s[i]));
    }
}

/// The rows one after the other.
pub open spec fn concat(rows: Seq<Seq<u8>>) -> Seq<u8>
    decreases rows.len(),
{
    if rows.len() == 0 {
        Seq::empty()
    } else {
        concat(rows.drop_last()) + rows.last()
    }
}

/// What the kernel found under a key; `rc` is non-zero if it found nothing.
pub enum LookupAnswer {
    /// For a sum, minimum, maximum or average.
    Scalar { rc: i32, v: u64 },
    Stddev { rc: i32, n: u64, sum: u64, sum_sq: u64 },
    Quantize { rc: i32, buckets: Vec<u64> },
}

impl LookupAnswer {
    /// Whether this is an answer to a lookup that combines by `r`.
    pub open spec fn fits(&self, r: Reduce) -> bool {
        match self {
            LookupAnswer::Scalar { .. } => r != Reduce::Stddev && r != Reduce::Quantize,
            LookupAnswer::Stddev { .. } => r == Reduce::Stddev,
            LookupAnswer::Quantize { buckets, .. } => r == Reduce::Quantize && buckets@.len()
                == DTRACE_QUANTIZE_NBUCKETS,
        }
    }

    /// The value bytes of the row.  A key without any contribution has none.
    pub open spec fn value(&self) -> Option<Seq<u8>> {
        match self {
            LookupAnswer::Scalar { rc, v } => if *rc == 0 && *v != 0 {
                Some(u64_bytes(*v))
            } else {
                None
            },
            LookupAnswer::Stddev { rc, n, sum, sum_sq } => if *rc == 0 && *n != 0 {
                Some(u64_bytes(*n) + u64_bytes(*sum) + u64_bytes(*sum_sq))
            } else {
                None
            },
            LookupAnswer::Quantize { rc, buckets } => if *rc == 0 && exists|i: int|
                0 <= i < buckets@.len() && buckets@[i] != 0 {
                Some(counters(buckets@))
            } else {
                None
            },
        }
    }

    /// Whether the key has any contribution.
    pub fn is_live(&self) -> (r: bool)
        ensures
            r == (self.value() is Some),
    {
        match self {
            LookupAnswer::Scalar { rc, v } => *rc == 0 && *v != 0,
            LookupAnswer::Stddev { rc, n, .. } => *rc == 0 && *n != 0,
            LookupAnswer::Quantize { rc, buckets } => *rc == 0 && any_nonzero(buckets),
        }
    }
}

/// Appending `b` at `off` extends what stands before `off`, and leaves what
/// stands before `from` alone.
proof fn lemma_wrote(s: Seq<u8>, off: int, b: Seq<u8>, t: Seq<u8>, from: int)
    requires
        0 <= from <= off,
        off + b.len() <= s.len(),
        t == splice(s, off, b),
    ensures
        t.len() == s.len(),
        t.take(off + b.len()) == s.take(off) + b,
        t.take(from) == s.take(from),
{
    lemma_splice(s, off, b);
    law_append_extends(s, off, b);
    law_rollback_keeps_prefix(s, from, off, b);
}

/// What a writer keeps whatever it appends: its limit, the size of its buffer,
/// and the bytes before `from`.
spec fn kept(before: RecordWriter<'_>, after: RecordWriter<'_>, from: int) -> bool {
    &&& after.wf()
    &&& after.limit == before.limit
    &&& after.base@.len() == before.base@.len()
    &&& after.off >= from
    &&& after.base@.take(from) == before.base@.take(from)
}

/// Write the part of a row that stands before its value.
fn write_row_head(
    writer: &mut RecordWriter<'_>,
    fd: i32,
    kind: u8,
    key: &[u8],
    value_size: u32,
) -> (ok: bool)
    requires
        old(writer).wf(),
        key@.len() <= MAX_KEY_BYTES,
    ensures
        kept(*old(writer), *final(writer), old(writer).off as int),
        final(final(writer).base)@ == final(old(writer).base)@,
        ok == (old(writer).off + 16 + key@.len() <= old(writer).limit),
        ok ==> final(writer).off == old(writer).off + 16 + key@.len(),
        ok ==> final(writer).written() == old(writer).written() + u32_bytes(bits32(fd)) + seq![
            kind,
            0u8,
            0u8,
            0u8,
        ] + u32_bytes(key@.len() as u32) + key@ + u32_bytes(value_size),
{
    let ghost b0 = writer.base@;
    let ghost o = writer.off as int;
    let kinds: [u8; 4] = [kind, 0, 0, 0];
    assert(kinds@ =~= seq![kind, 0u8, 0u8, 0u8]);
    if !writer.write_i32(fd) {
        return false;
    }
    let ghost b1 = writer.base@;
    proof {
        lemma_wrote(b0, o, u32_bytes(bits32(fd)), b1, o);
    }
    if !writer.write_bytes(&kinds) {
        return false;
    }
    let ghost b2 = writer.base@;
    proof {
        lemma_wrote(b1, o + 4, kinds@, b2, o);
    }
    if !writer.write_u32(key.len() as u32) {
        return false;
    }
    let ghost b3 = writer.base@;
    proof {
        lemma_wrote(b2, o + 8, u32_bytes(key@.len() as u32), b3, o);
    }
    if !writer.write_bytes(key) {
        return false;
    }
    let ghost b4 = writer.base@;
    proof {
        lemma_wrote(b3, o + 12, key@, b4, o);
    }
    if !writer.write_u32(value_size) {
        return false;
    }
    proof {
        lemma_wrote(b4, o + 12 + key@.len(), u32_bytes(value_size), writer.base@, o);
    }
    true
}

/// Write a list of counters.
fn write_counters(writer: &mut RecordWriter<'_>, v: &[u64]) -> (ok: bool)
    requires
        old(writer).wf(),
    ensures
        kept(*old(writer), *final(writer), old(writer).off as int),
        final(final(writer).base)@ == final(old(writer).base)@,
        ok == (old(writer).off + 8 * v@.len() <= old(writer).limit),
        ok ==> final(writer).off == old(writer).off + 8 * v@.len(),
        ok ==> final(writer).written() == old(writer).written() + counters(v@),
{
    let ghost w0 = *writer;
    let ghost o = writer.off as int;
    let ghost target = final(writer.base)@;
    let mut i: usize = 0;
    assert(v@.take(0) =~= Seq::<u64>::empty());
    assert(writer.written() =~= w0.written() + counters(v@.take(0)));
    while i < v.len()
        invariant
            i <= v@.len(),
            w0 == *old(writer),
            target == final(old(writer).base)@,
            o == w0.off,
            w0.wf(),
            kept(w0, *writer, o),
            final(writer.base)@ == target,
            writer.off == o + 8 * i,
            writer.written() == w0.written() + counters(v@.take(i as int)),
        decreases v@.len() - i,
    {
        let ghost b = writer.base@;
        let ghost p = writer.off as int;
        if !writer.write_u64(v[i]) {
            return false;
        }
        proof {
            lemma_wrote(b, p, u64_bytes(v@[i as int]), writer.base@, o);
            assert(v@.take(i + 1).drop_last() =~= v@.take(i as int));
            assert(writer.written() =~= w0.written() + counters(v@.take(i + 1)));
        }
        i += 1;
    }
    assert(v@.take(i as int) =~= v@);
    true
}

/// Write the value of a row.
fn write_value(writer: &mut RecordWriter<'_>, answer: &LookupAnswer) -> (ok: bool)
    requires
        old(writer).wf(),
        answer.value() is Some,
    ensures
        kept(*old(writer), *final(writer), old(writer).off as int),
        final(final(writer).base)@ == final(old(writer).base)@,
        ok == (old(writer).off + answer.value()->0.len() <= old(writer).limit),
        ok ==> final(writer).off == old(writer).off + answer.value()->0.len(),
        ok ==> final(writer).written() == old(writer).written() + answer.value()->0,
{
    match answer {
        LookupAnswer::Scalar { v, .. } => {
            let a: [u64; 1] = [*v];
            proof {
                reveal_with_fuel(counters, 2);
                assert(a@.drop_last() =~= Seq::<u64>::empty());
                assert(counters(a@) =~= u64_bytes(*v));
            }
            write_counters(writer, &a)
        },
        LookupAnswer::Stddev { n, sum, sum_sq, .. } => {
            let a: [u64; 3] = [*n, *sum, *sum_sq];
            proof {
                reveal_with_fuel(counters, 4);
                assert(a@.drop_last() =~= seq![*n, *sum]);
                assert(seq![*n, *sum].drop_last() =~= seq![*n]);
                assert(seq![*n].drop_last() =~= Seq::<u64>::empty());
                assert(counters(a@) =~= u64_bytes(*n) + u64_bytes(*sum) + u64_bytes(*sum_sq));
            }
            write_counters(writer, &a)
        },
        LookupAnswer::Quantize { buckets, .. } => {
            proof {
                lemma_counters_len(buckets@);
            }
            write_counters(writer, buckets.as_slice())
        },
    }
}

/// Pack one row.  Returns false if the answer gives no row, or if the row does
/// not fit; the cursor is then back where it was.
pub fn pack_row(
    writer: &mut RecordWriter<'_>,
    codes: &RecordCodes,
    fd: i32,
    agg_kind: u8,
    key: &[u8],
    answer: &LookupAnswer,
) -> (ok: bool)
    requires
        old(writer).wf(),
        key@.len() <= MAX_KEY_BYTES,
        answer.fits(reduce_of(*codes, agg_kind)),
    ensures
        final(writer).wf(),
        final(writer).limit == old(writer).limit,
        final(writer).base@.len() == old(writer).base@.len(),
        final(final(writer).base)@ == final(old(writer).base)@,
        ok == (answer.value() is Some && old(writer).off + row_bytes(
            fd,
            row_kind(*codes, agg_kind),
            key@,
            answer.value()->0,
        ).len() <= old(writer).limit),
        ok ==> final(writer).written() == old(writer).written() + row_bytes(
            fd,
            row_kind(*codes, agg_kind),
            key@,
            answer.value()->0,
        ),
        !ok ==> final(writer).written() == old(writer).written(),
        final(writer).off == final(writer).written().len(),
{
    let chk: usize = writer.off;
    let ghost w0 = *writer;
    let kind: u8 = agg_snapshot_row_kind(codes, agg_kind);
    if !answer.is_live() {
        return false;
    }
    let value_size: u32 = match answer {
        LookupAnswer::Scalar { .. } => 8,
        LookupAnswer::Stddev { .. } => 24,
        LookupAnswer::Quantize { .. } => QUANTIZE_VALUE_SIZE,
    };
    proof {
        law_value_sizes(*answer, reduce_of(*codes, agg_kind));
    }
    let ghost value = answer.value()->0;
    let ok: bool = write_row_head(writer, fd, kind, key, value_size) && write_value(writer, answer);
    if !ok {
        writer.off = chk;
    }
    proof {
        if ok {
            assert(writer.written() =~= w0.written() + row_bytes(fd, kind, key@, value));
        }
    }
    ok
}

/// Whether any counter is non-zero.
fn any_nonzero(buckets: &Vec<u64>) -> (r: bool)
    ensures
        r == exists|i: int| 0 <= i < buckets@.len() && buckets@[i] != 0,
{
    let mut i: usize = 0;
    while i < buckets.len()
        invariant
            i <= buckets@.len(),
            forall|j: int| 0 <= j < i ==> buckets@[j] == 0,
        decreases buckets@.len() - i,
    {
        if buckets[i] != 0 {
            return true;
        }
        i += 1;
    }
    false
}

/// One map of the guest, with what the walk needs to know of it.
#[derive(Clone, Copy, PartialEq, Eq, Structural, Debug)]
pub struct AggMap {
    pub handle: u64,
    pub fd: i32,
    pub agg_kind: u8,
    pub map_type: u32,
    pub key_size: u32,
    pub max_entries: u32,
}

impl AggMap {
    /// Array maps are walked by index, the others by their keys.
    pub open spec fn array(self) -> bool {
        self.map_type == BPF_MAP_TYPE_ARRAY || self.map_type == BPF_MAP_TYPE_PERCPU_ARRAY
    }

    /// Whether the map has anything to look up.
    pub open spec fn walked(self) -> bool {
        &&& self.handle != 0
        &&& self.map_type != BPF_MAP_TYPE_RINGBUF
        &&& self.fd < FIRST_INTERNAL_FD
        &&& self.array() ==> self.max_entries > 0
    }

    /// How many bytes of a key a row carries.
    pub open spec fn key_bytes(self) -> int {
        if self.key_size <= MAX_KEY_BYTES {
            self.key_size as int
        } else {
            MAX_KEY_BYTES as int
        }
    }

    fn is_array(&self) -> (r: bool)
        ensures
            r == self.array(),
    {
        self.map_type == BPF_MAP_TYPE_ARRAY || self.map_type == BPF_MAP_TYPE_PERCPU_ARRAY
    }

    fn is_walked(&self) -> (r: bool)
        ensures
            r == self.walked(),
    {
        self.handle != 0 && self.map_type != BPF_MAP_TYPE_RINGBUF && self.fd < FIRST_INTERNAL_FD
            && (!self.is_array() || self.max_entries > 0)
    }
}

/// What the driver shell does next.
#[derive(Clone, Copy, PartialEq, Eq, Structural, Debug)]
pub enum AggStep {
    /// Look up entry `index` of array map `map`.
    Index { map: usize, index: u32 },
    /// Ask map `map` for its first key, or for the key after the last one.
    NextKey { map: usize, first: bool },
    /// Look up the key that was found last in map `map`.
    Key { map: usize },
    /// The snapshot is complete.
    Submit,
}

/// The first map from `from` on that is walked, or the number of maps.
pub open spec fn next_walked(maps: Seq<AggMap>, from: int) -> int
    decreases maps.len() - from,
{
    if from >= maps.len() || maps[from].walked() {
        from
    } else {
        next_walked(maps, from + 1)
    }
}

/// The first step among the maps from `from` on.
pub open spec fn enter_map(maps: Seq<AggMap>, from: int) -> AggStep {
    let j = next_walked(maps, from);
    if j >= maps.len() {
        AggStep::Submit
    } else if maps[j].array() {
        AggStep::Index { map: j as usize, index: 0 }
    } else {
        AggStep::NextKey { map: j as usize, first: true }
    }
}

/// The step after a lookup.
pub open spec fn after_lookup(maps: Seq<AggMap>, step: AggStep) -> AggStep {
    match step {
        AggStep::Index { map, index } => if index + 1 < maps[map as int].max_entries {
            AggStep::Index { map, index: (index + 1) as u32 }
        } else {
            enter_map(maps, map + 1)
        },
        AggStep::Key { map } => AggStep::NextKey { map, first: false },
        _ => step,
    }
}

/// The step after the kernel was asked for a key and returned `rc`.
pub open spec fn after_next_key(maps: Seq<AggMap>, map: usize, rc: i32) -> AggStep {
    if rc == 0 {
        AggStep::Key { map }
    } else {
        enter_map(maps, map + 1)
    }
}

/// A complete snapshot record.
pub open spec fn snapshot(ns: u64, rows: Seq<Seq<u8>>) -> Seq<u8> {
    snapshot_header(ns) + u32_bytes(rows.len() as u32) + concat(rows)
}

/// A snapshot being packed into a reserved record.
pub struct AggSnapshot {
    pub ns: u64,
    pub maps: Vec<AggMap>,
    pub step: AggStep,
    /// The key that was found last.
    pub key: Vec<u8>,
    pub packed: usize,
    /// How many live entries found the record full.
    pub left_out: u64,
    /// The rows packed so far.
    pub rows: Ghost<Seq<Seq<u8>>>,
}

impl AggSnapshot {
    /// The step can be taken.
    pub open spec fn step_ok(&self) -> bool {
        match self.step {
            AggStep::Index { map, index } => {
                &&& map < self.maps@.len()
                &&& self.maps@[map as int].array()
                &&& index < self.maps@[map as int].max_entries
            },
            AggStep::NextKey { map, .. } => {
                &&& map < self.maps@.len()
                &&& !self.maps@[map as int].array()
            },
            AggStep::Key { map } => {
                &&& map < self.maps@.len()
                &&& !self.maps@[map as int].array()
            },
            AggStep::Submit => true,
        }
    }

    /// What the record holds so far, its count still zero.
    pub open spec fn draft(&self) -> Seq<u8> {
        snapshot_header(self.ns) + u32_bytes(0) + concat(self.rows@)
    }

    /// The snapshot and the record that it is packed into agree.
    pub open spec fn wf(&self, writer: &RecordWriter<'_>) -> bool {
        &&& self.step_ok()
        &&& self.key@.len() == MAX_KEY_BYTES
        &&& self.packed == self.rows@.len()
        &&& self.packed <= MAX_ENTRIES
        &&& self.left_out > 0 ==> self.packed == MAX_ENTRIES
        &&& writer.wf()
        &&& writer.limit == MAX_BODY
        &&& writer.off <= HDR_BYTES + NUM_ENTRIES_BYTES + self.packed * MAX_ENTRY_BYTES
        &&& writer.written() == self.draft()
    }

    /// The map that the step speaks of.
    pub open spec fn map(&self) -> AggMap {
        match self.step {
            AggStep::Index { map, .. } => self.maps@[map as int],
            AggStep::NextKey { map, .. } => self.maps@[map as int],
            AggStep::Key { map } => self.maps@[map as int],
            AggStep::Submit => arbitrary(),
        }
    }

    /// Whether the step is a lookup.
    pub open spec fn looks_up(&self) -> bool {
        self.step is Index || self.step is Key
    }

    /// The key that a row for the step carries.  The index of an unkeyed
    /// quantize aggregation is no key.
    pub open spec fn row_key(&self, codes: RecordCodes) -> Seq<u8> {
        match self.step {
            AggStep::Index { index, .. } => if self.map().agg_kind == codes.agg_kind_quantize {
                Seq::empty()
            } else {
                u32_bytes(index)
            },
            _ => self.key@.take(self.map().key_bytes()),
        }
    }

    /// The rows after a lookup that gave `answer`.
    pub open spec fn rows_after(&self, codes: RecordCodes, answer: LookupAnswer) -> Seq<Seq<u8>> {
        match answer.value() {
            Some(v) if self.rows@.len() < MAX_ENTRIES => self.rows@.push(
                row_bytes(
                    self.map().fd,
                    row_kind(codes, self.map().agg_kind),
                    self.row_key(codes),
                    v,
                ),
            ),
            _ => self.rows@,
        }
    }

    /// How many live entries have been left out after a lookup that gave
    /// `answer`.  The count stops at its largest value.
    pub open spec fn left_out_after(&self, answer: LookupAnswer) -> u64 {
        if answer.value() is Some && self.rows@.len() >= MAX_ENTRIES && self.left_out < u64::MAX {
            (self.left_out + 1) as u64
        } else {
            self.left_out
        }
    }

    /// Find the first step among the maps from `from` on.
    fn entered(maps: &Vec<AggMap>, from: usize) -> (step: AggStep)
        requires
            from <= maps@.len(),
        ensures
            step == enter_map(maps@, from as int),
            step matches AggStep::Index { map, index } ==> map < maps@.len()
                && maps@[map as int].array() && index < maps@[map as int].max_entries,
            step matches AggStep::NextKey { map, .. } ==> map < maps@.len()
                && !maps@[map as int].array(),
            !(step is Key),
    {
        let mut j: usize = from;
        while j < maps.len()
            invariant
                from <= j <= maps@.len(),
                next_walked(maps@, from as int) == next_walked(maps@, j as int),
            decreases maps@.len() - j,
        {
            let m: AggMap = maps[j];
            if m.is_walked() {
                if m.is_array() {
                    return AggStep::Index { map: j, index: 0 };
                }
                return AggStep::NextKey { map: j, first: true };
            }
            j += 1;
        }
        AggStep::Submit
    }

    /// Start a snapshot of `maps` at time `ns` in a reserved record.
    pub fn begin(writer: &mut RecordWriter<'_>, ns: u64, maps: Vec<AggMap>) -> (s: Self)
        requires
            old(writer).wf(),
            old(writer).off == 0,
            old(writer).limit == MAX_BODY,
        ensures
            s.wf(final(writer)),
            final(final(writer).base)@ == final(old(writer).base)@,
            s.ns == ns,
            s.maps@ == maps@,
            s.rows@ == Seq::<Seq<u8>>::empty(),
            s.left_out == 0,
            s.step == enter_map(maps@, 0),
    {
        let ghost b0 = writer.base@;
        writer.write_u32(0);
        let ghost b1 = writer.base@;
        writer.write_u32(AGG_SNAPSHOT_PROBE_ID);
        let ghost b2 = writer.base@;
        writer.write_u64(ns);
        let ghost b3 = writer.base@;
        writer.write_u64(AGG_SNAPSHOT_SCHEMA_V1);
        let ghost b4 = writer.base@;
        writer.write_u32(0);
        proof {
            lemma_wrote(b0, 0, u32_bytes(0), b1, 0);
            lemma_wrote(b1, 4, u32_bytes(AGG_SNAPSHOT_PROBE_ID), b2, 0);
            lemma_wrote(b2, 8, u64_bytes(ns), b3, 0);
            lemma_wrote(b3, 16, u64_bytes(AGG_SNAPSHOT_SCHEMA_V1), b4, 0);
            lemma_wrote(b4, 24, u32_bytes(0), writer.base@, 0);
            assert(writer.written() =~= snapshot_header(ns) + u32_bytes(0) + concat(
                Seq::<Seq<u8>>::empty(),
            ));
        }
        let step: AggStep = Self::entered(&maps, 0);
        let mut key: Vec<u8> = Vec::new();
        key.resize(MAX_KEY_BYTES, 0);
        AggSnapshot { ns, maps, step, key, packed: 0, left_out: 0, rows: Ghost(Seq::empty()) }
    }

    /// How the values of the key being looked up are combined.
    pub fn reduce(&self, codes: &RecordCodes) -> (r: Reduce)
        requires
            self.step_ok(),
            self.looks_up(),
        ensures
            r == reduce_of(*codes, self.map().agg_kind),
    {
        match self.step {
            AggStep::Index { map, .. } => agg_reduce(codes, self.maps[map].agg_kind),
            AggStep::Key { map } => agg_reduce(codes, self.maps[map].agg_kind),
            _ => Reduce::Sum,
        }
    }

    /// Pack the row of a lookup, if it gives one, or count it as left out.
    fn pack(
        &mut self,
        writer: &mut RecordWriter<'_>,
        codes: &RecordCodes,
        m: &AggMap,
        key: &[u8],
        answer: &LookupAnswer,
    )
        requires
            old(self).wf(old(writer)),
            old(self).looks_up(),
            *m == old(self).map(),
            key@ == old(self).row_key(*codes),
            key@.len() <= MAX_KEY_BYTES,
            answer.fits(reduce_of(*codes, m.agg_kind)),
        ensures
            final(writer).wf(),
            final(writer).limit == MAX_BODY,
            final(writer).off <= HDR_BYTES + NUM_ENTRIES_BYTES + final(self).packed
                * MAX_ENTRY_BYTES,
            final(writer).written() == final(self).draft(),
            final(final(writer).base)@ == final(old(writer).base)@,
            final(self).ns == old(self).ns,
            final(self).maps@ == old(self).maps@,
            final(self).key@ == old(self).key@,
            final(self).step == old(self).step,
            final(self).packed == final(self).rows@.len(),
            final(self).packed <= MAX_ENTRIES,
            final(self).left_out > 0 ==> final(self).packed == MAX_ENTRIES,
            final(self).rows@ == old(self).rows_after(*codes, *answer),
            final(self).left_out == old(self).left_out_after(*answer),
    {
        if self.packed >= MAX_ENTRIES {
            if answer.is_live() && self.left_out < u64::MAX {
                self.left_out += 1;
            }
            return;
        }
        let ghost rows0 = self.rows@;
        let ghost key_seq = key@;
        proof {
            if answer.value() is Some {
                law_value_sizes(*answer, reduce_of(*codes, m.agg_kind));
                law_row_fits(m.fd, row_kind(*codes, m.agg_kind), key@, answer.value()->0);
            }
        }
        let ok: bool = pack_row(writer, codes, m.fd, m.agg_kind, key, answer);
        if ok {
            let ghost row = row_bytes(
                m.fd,
                row_kind(*codes, m.agg_kind),
                key_seq,
                answer.value()->0,
            );
            self.packed += 1;
            self.rows = Ghost(rows0.push(row));
            proof {
                assert(rows0.push(row).drop_last() =~= rows0);
                assert(concat(rows0.push(row)) == concat(rows0) + row);
                assert(writer.written() =~= self.draft());
            }
        }
    }

    /// Take what a lookup gave: pack its row, or count it as left out, and move
    /// on.
    pub fn looked_up(
        &mut self,
        writer: &mut RecordWriter<'_>,
        codes: &RecordCodes,
        answer: &LookupAnswer,
    )
        requires
            old(self).wf(old(writer)),
            old(self).looks_up(),
            answer.fits(reduce_of(*codes, old(self).map().agg_kind)),
        ensures
            final(self).wf(final(writer)),
            final(final(writer).base)@ == final(old(writer).base)@,
            final(self).ns == old(self).ns,
            final(self).maps@ == old(self).maps@,
            final(self).key@ == old(self).key@,
            final(self).rows@ == old(self).rows_after(*codes, *answer),
            final(self).left_out == old(self).left_out_after(*answer),
            final(self).step == after_lookup(old(self).maps@, old(self).step),
    {
        match self.step {
            AggStep::Index { map, index } => {
                let m: AggMap = self.maps[map];
                let le: [u8; 4] = u32_le(index);
                let empty: [u8; 0] = [];
                assert(empty@ =~= Seq::<u8>::empty());
                if m.agg_kind == codes.agg_kind_quantize {
                    self.pack(writer, codes, &m, &empty, answer);
                } else {
                    self.pack(writer, codes, &m, &le, answer);
                }
                if index + 1 < m.max_entries {
                    self.step = AggStep::Index { map, index: index + 1 };
                } else {
                    assert(map < self.maps.len());
                    self.step = Self::entered(&self.maps, map + 1);
                }
            },
            AggStep::Key { map } => {
                let m: AggMap = self.maps[map];
                let kb: usize = if (m.key_size as u64) <= MAX_KEY_BYTES as u64 {
                    m.key_size as usize
                } else {
                    MAX_KEY_BYTES
                };
                let mut key: Vec<u8> = vstd::slice::slice_to_vec(self.key.as_slice());
                key.truncate(kb);
                self.pack(writer, codes, &m, key.as_slice(), answer);
                self.step = AggStep::NextKey { map, first: false };
            },
            _ => {},
        }
    }

    /// Take the next key of a map, or learn from a non-zero `rc` that there is
    /// none.
    pub fn next_key(&mut self, writer: &RecordWriter<'_>, rc: i32, key: &[u8])
        requires
            old(self).wf(writer),
            old(self).step is NextKey,
            key@.len() == MAX_KEY_BYTES,
        ensures
            final(self).wf(writer),
            final(self).ns == old(self).ns,
            final(self).maps@ == old(self).maps@,
            final(self).rows@ == old(self).rows@,
            final(self).left_out == old(self).left_out,
            final(self).key@ == (if rc == 0 {
                key@
            } else {
                old(self).key@
            }),
            final(self).step == after_next_key(
                old(self).maps@,
                old(self).step->NextKey_map,
                rc,
            ),
    {
        if let AggStep::NextKey { map, .. } = self.step {
            if rc == 0 {
                self.key = vstd::slice::slice_to_vec(key);
                self.step = AggStep::Key { map };
            } else {
                assert(map < self.maps.len());
                self.step = Self::entered(&self.maps, map + 1);
            }
        }
    }

    /// Stamp the number of rows.  The record is then complete; the result is
    /// how many live entries it has no room for.
    pub fn finish(&self, writer: &mut RecordWriter<'_>) -> (left_out: u64)
        requires
            self.wf(old(writer)),
            self.step is Submit,
        ensures
            final(writer).wf(),
            final(writer).off == old(writer).off,
            final(final(writer).base)@ == final(old(writer).base)@,
            final(writer).written() == snapshot(self.ns, self.rows@),
            left_out == self.left_out,
            left_out > 0 ==> self.rows@.len() == MAX_ENTRIES,
    {
        let ghost b0 = writer.base@;
        let ghost n = writer.off as int;
        writer.poke_u32(HDR_BYTES, self.packed as u32);
        proof {
            lemma_stamped(
                b0,
                n,
                snapshot_header(self.ns),
                u32_bytes(0),
                u32_bytes(self.packed as u32),
                concat(self.rows@),
            );
        }
        self.left_out
    }
}

/// Overwriting a field in the middle of a prefix changes that field alone.
proof fn lemma_stamped(s: Seq<u8>, n: int, h: Seq<u8>, c0: Seq<u8>, c: Seq<u8>, t: Seq<u8>)
    requires
        0 <= n <= s.len(),
        s.take(n) == h + c0 + t,
        c.len() == c0.len(),
    ensures
        splice(s, h.len() as int, c).take(n) == h + c + t,
{
    let d = s.take(n);
    assert(d.len() == n);
    lemma_splice(s, h.len() as int, c);
    let r = splice(s, h.len() as int, c);
    assert forall|i: int| 0 <= i < n implies r[i] == (h + c + t)[i] by {
        assert(s[i] == d[i]);
        assert(d[i] == (h + c0 + t)[i]);
    }
    assert(r.take(n) =~= h + c + t);
}

/// A row whose key has at most `MAX_KEY_BYTES` and whose value has at most
/// `PER_ROW_VAL_CAP - 4` bytes stays within the space that is set aside for it.
pub proof fn law_row_fits(fd: i32, kind: u8, key: Seq<u8>, value: Seq<u8>)
    requires
        key.len() <= MAX_KEY_BYTES,
        value.len() + 4 <= PER_ROW_VAL_CAP,
    ensures
        row_bytes(fd, kind, key, value).len() == 16 + key.len() + value.len(),
        row_bytes(fd, kind, key, value).len() <= MAX_ENTRY_BYTES,
{
}

/// The value of a row is 8, 24 or `QUANTIZE_VALUE_SIZE` bytes long.
pub proof fn law_value_sizes(answer: LookupAnswer, r: Reduce)
    requires
        answer.fits(r),
        answer.value() is Some,
    ensures
        answer.value()->0.len() == (match r {
            Reduce::Stddev => 24,
            Reduce::Quantize => QUANTIZE_VALUE_SIZE as int,
            _ => 8,
        }),
        answer.value()->0.len() + 4 <= PER_ROW_VAL_CAP,
{
    if let LookupAnswer::Quantize { buckets, .. } = answer {
        lemma_counters_len(buckets@);
    }
}

/// A snapshot of at most `MAX_ENTRIES` rows fits the record that was reserved
/// for it, and its count field holds the number of its rows.
pub proof fn law_snapshot_fits(ns: u64, rows: Seq<Seq<u8>>)
    requires
        rows.len() <= MAX_ENTRIES,
        forall|i: int| 0 <= i < rows.len() ==> (#[trigger] rows[i]).len() <= MAX_ENTRY_BYTES,
    ensures
        snapshot(ns, rows).len() <= MAX_BODY,
        MAX_BODY <= 65536,
        le_u32(snapshot(ns, rows), HDR_BYTES as int) == rows.len(),
{
    lemma_concat_len(rows);
    let n = rows.len() as u32;
    law_u32_round_trip(n);
    let s = snapshot(ns, rows);
    let h = snapshot_header(ns);
    assert(h.len() == HDR_BYTES);
    assert(s[24] == u32_bytes(n)[0]);
    assert(s[25] == u32_bytes(n)[1]);
    assert(s[26] == u32_bytes(n)[2]);
    assert(s[27] == u32_bytes(n)[3]);
}

proof fn lemma_concat_len(rows: Seq<Seq<u8>>)
    requires
        forall|i: int| 0 <= i < rows.len() ==> (#[trigger] rows[i]).len() <= MAX_ENTRY_BYTES,
    ensures
        concat(rows).len() <= rows.len() * MAX_ENTRY_BYTES,
    decreases rows.len(),
{
    if rows.len() > 0 {
        let front = rows.drop_last();
        assert forall|i: int| 0 <= i < front.len() implies (#[trigger] front[i]).len()
            <= MAX_ENTRY_BYTES by {
            assert(front[i] == rows[i]);
        }
        lemma_concat_len(front);
    }
}

proof fn lemma_next_walked(maps: Seq<AggMap>, from: int)
    requires
        0 <= from <= maps.len(),
    ensures
        from <= next_walked(maps, from) <= maps.len(),
        next_walked(maps, from) < maps.len() ==> maps[next_walked(maps, from)].walked(),
        forall|i: int| from <= i < next_walked(maps, from) ==> !(#[trigger] maps[i]).walked(),
    decreases maps.len() - from,
{
    if from < maps.len() && !maps[from].walked() {
        lemma_next_walked(maps, from + 1);
    }
}

/// The walk enters the maps in their order, passes over exactly those that hold
/// nothing to look up, and ends after the last.
pub proof fn law_walk_is_in_order(maps: Seq<AggMap>, from: int)
    requires
        0 <= from <= maps.len() <= usize::MAX,
    ensures
        ({
            let step = enter_map(maps, from);
            &&& !(step is Key)
            &&& step is Submit ==> forall|i: int|
                from <= i < maps.len() ==> !(#[trigger] maps[i]).walked()
            &&& step matches AggStep::Index { map, index } ==> {
                &&& from <= map < maps.len()
                &&& index == 0
                &&& maps[map as int].walked() && maps[map as int].array()
                &&& forall|i: int| from <= i < map ==> !(#[trigger] maps[i]).walked()
            }
            &&& step matches AggStep::NextKey { map, first } ==> {
                &&& from <= map < maps.len()
                &&& first
                &&& maps[map as int].walked() && !maps[map as int].array()
                &&& forall|i: int| from <= i < map ==> !(#[trigger] maps[i]).walked()
            }
        }),
{
    lemma_next_walked(maps, from);
}

/// Every entry of an array map is looked up, in the order of the indices.
pub proof fn law_arrays_are_walked_whole(maps: Seq<AggMap>, map: usize, index: u32)
    requires
        map < maps.len() <= usize::MAX,
        index + 1 < maps[map as int].max_entries,
    ensures
        after_lookup(maps, AggStep::Index { map, index }) == (AggStep::Index {
            map,
            index: (index + 1) as u32,
        }),
{
}

/// How many of `answers` are of live entries.
pub open spec fn live_count(answers: Seq<LookupAnswer>) -> nat
    decreases answers.len(),
{
    if answers.len() == 0 {
        0
    } else {
        live_count(answers.drop_last()) + if answers.last().value() is Some {
            1nat
        } else {
            0nat
        }
    }
}

/// A snapshot holds the rows of the first `MAX_ENTRIES` live entries, and counts
/// all further ones as left out.  The snapshot `ss[k + 1]` is `ss[k]` after a
/// lookup that gave `answers[k]`.
pub proof fn law_overflow_is_counted(
    ss: Seq<AggSnapshot>,
    codes: RecordCodes,
    answers: Seq<LookupAnswer>,
)
    requires
        ss.len() == answers.len() + 1,
        ss[0].rows@ == Seq::<Seq<u8>>::empty(),
        ss[0].left_out == 0,
        forall|k: int|
            0 <= k < answers.len() ==> ss[k + 1].rows@ == ss[k].rows_after(
                codes,
                #[trigger] answers[k],
            ),
        forall|k: int|
            0 <= k < answers.len() ==> ss[k + 1].left_out == ss[k].left_out_after(
                #[trigger] answers[k],
            ),
        live_count(answers) <= u64::MAX,
    ensures
        ss.last().rows@.len() == (if live_count(answers) <= MAX_ENTRIES {
            live_count(answers) as int
        } else {
            MAX_ENTRIES as int
        }),
        ss.last().left_out == live_count(answers) - ss.last().rows@.len(),
    decreases answers.len(),
{
    if answers.len() > 0 {
        let front = answers.drop_last();
        let tt = ss.drop_last();
        assert forall|k: int| 0 <= k < front.len() implies tt[k + 1].rows@ == tt[k].rows_after(
            codes,
            #[trigger] front[k],
        ) && tt[k + 1].left_out == tt[k].left_out_after(front[k]) by {
            assert(front[k] == answers[k]);
        }
        law_overflow_is_counted(tt, codes, front);
        let k = answers.len() - 1;
        assert(answers.last() == answers[k]);
        assert(ss.last() == ss[k + 1]);
        assert(tt.last() == ss[k]);
    }
}

} // verus!
