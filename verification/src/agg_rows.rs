//! What a reader of a snapshot finds in it.
//!
//! A row is the descriptor of its map, a word whose first byte is the kind, the
//! size of the key, the key, the size of the value, and the value.

use vstd::prelude::*;

use crate::agg_snapshot::{
    after_lookup, after_next_key, concat, counters, enter_map, lemma_counter_at,
    lemma_counters_len, reduce_of, row_bytes, row_kind, snapshot, AggMap, AggSnapshot, AggStep,
    LookupAnswer, Reduce,
};
use crate::bytes::{
    bits32, law_reads_see_a_part, law_signed_round_trip, law_u32_round_trip, law_u64_round_trip,
    le_u32, le_u64, signed32, u32_bytes, u64_bytes,
};
use crate::wire::RecordCodes;

verus! {

/// A reader finds in a row what was put in: the descriptor, the kind, the key
/// and the value.
pub proof fn law_row_reads_back(fd: i32, kind: u8, key: Seq<u8>, value: Seq<u8>)
    requires
        key.len() <= u32::MAX,
        value.len() <= u32::MAX,
    ensures
        ({
            let r = row_bytes(fd, kind, key, value);
            let k = key.len() as int;
            let v = value.len() as int;
            &&& r.len() == 16 + k + v
            &&& signed32(le_u32(r, 0)) == fd
            &&& r[4] == kind && r[5] == 0 && r[6] == 0 && r[7] == 0
            &&& le_u32(r, 8) == k
            &&& r.subrange(12, 12 + k) == key
            &&& le_u32(r, 12 + k) == v
            &&& r.subrange(16 + k, 16 + k + v) == value
        }),
{
    let r = row_bytes(fd, kind, key, value);
    let k = key.len() as int;
    let v = value.len() as int;
    law_signed_round_trip(fd, 0, 0, 0);
    law_u32_round_trip(bits32(fd));
    law_u32_round_trip(key.len() as u32);
    law_u32_round_trip(value.len() as u32);
    assert(r.subrange(0, 4) =~= u32_bytes(bits32(fd)));
    assert(r.subrange(8, 12) =~= u32_bytes(key.len() as u32));
    assert(r.subrange(12, 12 + k) =~= key);
    assert(r.subrange(12 + k, 16 + k) =~= u32_bytes(value.len() as u32));
    assert(r.subrange(16 + k, 16 + k + v) =~= value);
    law_reads_see_a_part(r, 0, 4);
    law_reads_see_a_part(r, 8, 12);
    law_reads_see_a_part(r, 12 + k, 16 + k);
}

/// A reader finds in a snapshot the probe id of snapshots, the time, the version
/// of the format and the number of rows; then come the rows, each right behind
/// the one before it.
pub proof fn law_snapshot_reads_back(ns: u64, rows: Seq<Seq<u8>>)
    requires
        rows.len() <= u32::MAX,
    ensures
        ({
            let s = snapshot(ns, rows);
            &&& le_u32(s, 0) == 0
            &&& le_u32(s, 4) == 0xFFFF_FFFD
            &&& le_u64(s, 8) == ns
            &&& le_u64(s, 16) == 1
            &&& le_u32(s, 24) == rows.len()
            &&& rows.len() == 0 ==> s.len() == 28
            &&& rows.len() > 0 ==> s.skip(28) == rows[0] + snapshot(ns, rows.skip(1)).skip(28)
        }),
{
    let s = snapshot(ns, rows);
    let n = rows.len() as u32;
    law_u32_round_trip(0);
    law_u32_round_trip(0xFFFF_FFFD);
    law_u64_round_trip(ns);
    law_u64_round_trip(1);
    law_u32_round_trip(n);
    assert(s.subrange(0, 4) =~= u32_bytes(0));
    assert(s.subrange(4, 8) =~= u32_bytes(0xFFFF_FFFD));
    assert(s.subrange(8, 16) =~= u64_bytes(ns));
    assert(s.subrange(16, 24) =~= u64_bytes(1));
    assert(s.subrange(24, 28) =~= u32_bytes(n));
    law_reads_see_a_part(s, 0, 4);
    law_reads_see_a_part(s, 4, 8);
    law_reads_see_a_part(s, 8, 16);
    law_reads_see_a_part(s, 16, 24);
    law_reads_see_a_part(s, 24, 28);
    assert(s.skip(28) =~= concat(rows));
    if rows.len() > 0 {
        lemma_concat_first(rows);
        let t = snapshot(ns, rows.skip(1));
        assert(t.skip(28) =~= concat(rows.skip(1)));
    }
}

proof fn lemma_concat_first(rows: Seq<Seq<u8>>)
    requires
        rows.len() > 0,
    ensures
        concat(rows) == rows[0] + concat(rows.skip(1)),
    decreases rows.len(),
{
    if rows.len() == 1 {
        assert(rows.drop_last() =~= Seq::<Seq<u8>>::empty());
        assert(rows.skip(1) =~= Seq::<Seq<u8>>::empty());
        assert(concat(rows) =~= rows[0] + concat(rows.skip(1)));
    } else {
        lemma_concat_first(rows.drop_last());
        assert(rows.drop_last().skip(1) =~= rows.skip(1).drop_last());
        assert(rows.skip(1).last() == rows.last());
        assert(concat(rows) =~= rows[0] + concat(rows.skip(1)));
    }
}

/// The kind of a row and the way its value comes about follow the kind of the
/// aggregation: 0 to 3 are sum, minimum, maximum and average, and the host
/// assigns those of a standard deviation and of a quantize aggregation.
/// Anything else is summed, and its rows are of unknown kind.
pub proof fn law_kinds_of_aggregations(codes: RecordCodes, kind: u8)
    requires
        codes.agg_kind_stddev > 3,
        codes.agg_kind_quantize > 3,
        codes.agg_kind_stddev != codes.agg_kind_quantize,
    ensures
        kind == 0 ==> row_kind(codes, kind) == codes.row_kind_sum,
        kind == 1 ==> row_kind(codes, kind) == codes.row_kind_min,
        kind == 2 ==> row_kind(codes, kind) == codes.row_kind_max,
        kind == 3 ==> row_kind(codes, kind) == codes.row_kind_avg,
        kind == codes.agg_kind_stddev ==> row_kind(codes, kind) == codes.row_kind_stddev,
        kind == codes.agg_kind_quantize ==> row_kind(codes, kind) == 7,
        kind > 3 && kind != codes.agg_kind_stddev && kind != codes.agg_kind_quantize ==> row_kind(
            codes,
            kind,
        ) == codes.row_kind_unknown,
        reduce_of(codes, kind) is Min <==> kind == 1,
        reduce_of(codes, kind) is Max <==> kind == 2,
        reduce_of(codes, kind) is Avg <==> kind == 3,
        reduce_of(codes, kind) is Stddev <==> kind == codes.agg_kind_stddev,
        reduce_of(codes, kind) is Quantize <==> kind == codes.agg_kind_quantize,
{
}

/// A scalar is a row exactly if the kernel found it and it is not zero, and the
/// row's value is that number.
pub proof fn law_scalar_values(rc: i32, v: u64)
    ensures
        ({
            let a = LookupAnswer::Scalar { rc, v };
            &&& a.value() is Some <==> rc == 0 && v != 0
            &&& a.value() is Some ==> a.value()->0.len() == 8 && le_u64(a.value()->0, 0) == v
        }),
{
    law_u64_round_trip(v);
}

/// A standard deviation is a row exactly if the kernel found it and anything
/// was counted, and the row's value is the count, the sum and the sum of
/// squares.
pub proof fn law_stddev_values(rc: i32, n: u64, sum: u64, sum_sq: u64)
    ensures
        ({
            let a = LookupAnswer::Stddev { rc, n, sum, sum_sq };
            &&& a.value() is Some <==> rc == 0 && n != 0
            &&& a.value() is Some ==> {
                let b = a.value()->0;
                b.len() == 24 && le_u64(b, 0) == n && le_u64(b, 8) == sum && le_u64(b, 16) == sum_sq
            }
        }),
{
    let a = LookupAnswer::Stddev { rc, n, sum, sum_sq };
    if a.value() is Some {
        let b = a.value()->0;
        law_u64_round_trip(n);
        law_u64_round_trip(sum);
        law_u64_round_trip(sum_sq);
        assert(b.subrange(0, 8) =~= u64_bytes(n));
        assert(b.subrange(8, 16) =~= u64_bytes(sum));
        assert(b.subrange(16, 24) =~= u64_bytes(sum_sq));
        law_reads_see_a_part(b, 0, 8);
        law_reads_see_a_part(b, 8, 16);
        law_reads_see_a_part(b, 16, 24);
    }
}

/// A quantize aggregation is a row exactly if the kernel found it and any bucket
/// is not zero, and the row's value is all the buckets in their order.
pub proof fn law_quantize_values(rc: i32, buckets: Vec<u64>, i: int)
    requires
        0 <= i < buckets@.len(),
    ensures
        ({
            let a = LookupAnswer::Quantize { rc, buckets };
            &&& rc == 0 && buckets@[i] != 0 ==> a.value() is Some
            &&& a.value() is Some ==> rc == 0 && exists|j: int|
                0 <= j < buckets@.len() && #[trigger] buckets@[j] != 0
            &&& a.value() is Some ==> {
                let b = a.value()->0;
                b.len() == 8 * buckets@.len() && le_u64(b, 8 * i) == buckets@[i]
            }
        }),
{
    let a = LookupAnswer::Quantize { rc, buckets };
    let some = exists|j: int| 0 <= j < buckets@.len() && #[trigger] buckets@[j] != 0;
    assert(a.value() is Some <==> rc == 0 && some);
    if a.value() is Some {
        let b = a.value()->0;
        assert(b == counters(buckets@));
        lemma_counter_at(buckets@, i);
        law_u64_round_trip(buckets@[i]);
        law_reads_see_a_part(b, 8 * i, 8 * i + 8);
    }
}

/// The row of an entry that the kernel named by its key carries, whatever the
/// aggregation kind, the first 32 bytes of that key, or as many as the keys of
/// the map have if that is fewer; beside it the descriptor of its map, the kind
/// that stands for the map's aggregation kind, and the value.
pub proof fn law_rows_carry_their_key(s: AggSnapshot, codes: RecordCodes, answer: LookupAnswer)
    requires
        s.step is Key,
        s.step->Key_map < s.maps@.len(),
        s.key@.len() == 32,
        s.rows@.len() < 60,
        answer.value() is Some,
        answer.value()->0.len() <= u32::MAX,
    ensures
        ({
            let m = s.maps@[s.step->Key_map as int];
            let n = if m.key_size <= 32 {
                m.key_size as int
            } else {
                32
            };
            let rows = s.rows_after(codes, answer);
            let r = rows.last();
            let v = answer.value()->0;
            &&& rows == s.rows@.push(r)
            &&& signed32(le_u32(r, 0)) == m.fd
            &&& r[4] == row_kind(codes, m.agg_kind)
            &&& le_u32(r, 8) == n
            &&& r.subrange(12, 12 + n) == s.key@.take(n)
            &&& le_u32(r, 12 + n) == v.len()
            &&& r.subrange(16 + n, 16 + n + v.len()) == v
        }),
{
    let m = s.maps@[s.step->Key_map as int];
    let rows = s.rows_after(codes, answer);
    let v = answer.value()->0;
    let key = s.row_key(codes);
    law_row_reads_back(m.fd, row_kind(codes, m.agg_kind), key, v);
    assert(rows.last() == row_bytes(m.fd, row_kind(codes, m.agg_kind), key, v));
    assert(rows =~= s.rows@.push(rows.last()));
}

/// The rows of two entries of one map that are named by keys which differ in
/// the bytes that rows carry differ.
pub proof fn law_rows_of_two_keys_differ(
    s: AggSnapshot,
    t: AggSnapshot,
    codes: RecordCodes,
    a: LookupAnswer,
    b: LookupAnswer,
    i: int,
)
    requires
        s.step is Key,
        s.step == t.step,
        s.maps@ == t.maps@,
        s.step->Key_map < s.maps@.len(),
        s.key@.len() == 32,
        t.key@.len() == 32,
        s.rows@.len() < 60,
        t.rows@.len() < 60,
        a.value() is Some,
        a.value()->0.len() <= u32::MAX,
        b.value() is Some,
        b.value()->0.len() <= u32::MAX,
        0 <= i < 32,
        i < s.maps@[s.step->Key_map as int].key_size,
        s.key@[i] != t.key@[i],
    ensures
        s.rows_after(codes, a).last() != t.rows_after(codes, b).last(),
{
    law_rows_carry_their_key(s, codes, a);
    law_rows_carry_their_key(t, codes, b);
    let m = s.maps@[s.step->Key_map as int];
    let n = if m.key_size <= 32 {
        m.key_size as int
    } else {
        32
    };
    assert(s.key@.take(n)[i] == s.key@[i]);
    assert(t.key@.take(n)[i] == t.key@[i]);
}

/// The row of entry `index` of an array map carries that index as a key of four
/// bytes; only that of a quantize aggregation carries no key.
pub proof fn law_rows_carry_their_index(s: AggSnapshot, codes: RecordCodes, answer: LookupAnswer)
    requires
        s.step is Index,
        s.step->Index_map < s.maps@.len(),
        s.rows@.len() < 60,
        answer.value() is Some,
        answer.value()->0.len() <= u32::MAX,
    ensures
        ({
            let m = s.maps@[s.step->Index_map as int];
            let rows = s.rows_after(codes, answer);
            let r = rows.last();
            let v = answer.value()->0;
            let n = if m.agg_kind == codes.agg_kind_quantize {
                0int
            } else {
                4
            };
            &&& rows == s.rows@.push(r)
            &&& signed32(le_u32(r, 0)) == m.fd
            &&& r[4] == row_kind(codes, m.agg_kind)
            &&& le_u32(r, 8) == n
            &&& n == 4 ==> le_u32(r, 12) == s.step->index
            &&& le_u32(r, 12 + n) == v.len()
            &&& r.subrange(16 + n, 16 + n + v.len()) == v
        }),
{
    let m = s.maps@[s.step->Index_map as int];
    let rows = s.rows_after(codes, answer);
    let v = answer.value()->0;
    let key = s.row_key(codes);
    law_row_reads_back(m.fd, row_kind(codes, m.agg_kind), key, v);
    assert(rows.last() == row_bytes(m.fd, row_kind(codes, m.agg_kind), key, v));
    assert(rows =~= s.rows@.push(rows.last()));
    law_u32_round_trip(s.step->index);
    law_reads_see_a_part(rows.last(), 12, 16);
}

/// A lookup that finds nothing adds no row, and one that finds something adds
/// one as long as there are fewer than sixty, and is counted from then on.
pub proof fn law_live_entries_are_rows(s: AggSnapshot, codes: RecordCodes, answer: LookupAnswer)
    ensures
        answer.value() is None ==> s.rows_after(codes, answer) == s.rows@ && s.left_out_after(
            answer,
        ) == s.left_out,
        answer.value() is Some && s.rows@.len() < 60 ==> s.rows_after(codes, answer).len()
            == s.rows@.len() + 1 && s.left_out_after(answer) == s.left_out,
        answer.value() is Some && s.rows@.len() >= 60 ==> s.rows_after(codes, answer) == s.rows@
            && (s.left_out < u64::MAX ==> s.left_out_after(answer) == s.left_out + 1),
{
}

/// A map is walked exactly if it is there, is no ring buffer, has a descriptor
/// below 300, and is not an array without entries; arrays, per-CPU ones among
/// them, are walked by index.
pub proof fn law_walked_maps(m: AggMap)
    ensures
        m.array() <==> m.map_type == 2 || m.map_type == 6,
        m.walked() <==> {
            &&& m.handle != 0
            &&& m.map_type != 27
            &&& m.fd < 300
            &&& m.map_type == 2 || m.map_type == 6 ==> m.max_entries != 0
        },
{
}

/// After its last entry an array map is left for the next map; a map that is
/// walked by key is asked for the next key after each entry, whose value is then
/// looked up, and is left for the next map when there is none.
pub proof fn law_the_walk_goes_on(maps: Seq<AggMap>, map: usize, index: u32, rc: i32)
    requires
        map < maps.len() <= usize::MAX,
        index + 1 >= maps[map as int].max_entries,
    ensures
        after_lookup(maps, AggStep::Index { map, index }) == enter_map(maps, map + 1),
        after_lookup(maps, AggStep::Key { map }) == (AggStep::NextKey { map, first: false }),
        rc == 0 ==> after_next_key(maps, map, rc) == (AggStep::Key { map }),
        rc != 0 ==> after_next_key(maps, map, rc) == enter_map(maps, map + 1),
{
}

} // verus!
