use bifrost::agg_snapshot::{
    agg_reduce, agg_snapshot_row_kind, pack_row, AggMap, AggSnapshot, AggStep, LookupAnswer, Reduce,
    MAX_BODY, MAX_ENTRIES,
};
use bifrost::record_writer::RecordWriter;
use bifrost::symtab_snapshot::{write_symtab_header, SymtabChunk, SymtabStep, SYMTAB_MAX_BODY};
use bifrost::wire::RecordCodes;

const STDDEV: u8 = 4;
const QUANTIZE: u8 = 5;

fn codes() -> RecordCodes {
    RecordCodes {
        agg_kind_stddev: STDDEV,
        agg_kind_quantize: QUANTIZE,
        row_kind_unknown: 0,
        row_kind_min: 2,
        row_kind_max: 3,
        row_kind_avg: 4,
        row_kind_sum: 5,
        row_kind_stddev: 6,
        sym_table_probe_magic: 0xffff_fffe,
    }
}

fn map(map_type: u32, agg_kind: u8, key_size: u32, max_entries: u32) -> AggMap {
    AggMap { handle: 0x1000, fd: 200, agg_kind, map_type, key_size, max_entries }
}

const PERCPU_ARRAY: u32 = 6;
const HASH: u32 = 1;
const RINGBUF: u32 = 27;

fn scalar(v: u64) -> LookupAnswer {
    LookupAnswer::Scalar { rc: 0, v }
}

#[test]
fn kinds_of_rows_and_reductions() {
    let c = codes();
    let want = [(0, 5), (1, 2), (2, 3), (3, 4), (STDDEV, 6), (QUANTIZE, 7), (77, 0)];
    for (kind, row) in want {
        assert_eq!(agg_snapshot_row_kind(&c, kind), row);
    }
    assert_eq!(agg_reduce(&c, 0), Reduce::Sum);
    assert_eq!(agg_reduce(&c, 1), Reduce::Min);
    assert_eq!(agg_reduce(&c, 2), Reduce::Max);
    assert_eq!(agg_reduce(&c, 3), Reduce::Avg);
    assert_eq!(agg_reduce(&c, STDDEV), Reduce::Stddev);
    assert_eq!(agg_reduce(&c, QUANTIZE), Reduce::Quantize);
    assert_eq!(agg_reduce(&c, 77), Reduce::Sum);
}

fn packed(kind: u8, key: &[u8], a: &LookupAnswer) -> Option<Vec<u8>> {
    let mut buf = vec![0u8; 2000];
    let mut w = RecordWriter::new(&mut buf, 2000);
    let ok = pack_row(&mut w, &codes(), -7, kind, key, a);
    let n = w.off;
    if ok {
        Some(buf[..n].to_vec())
    } else {
        assert_eq!(n, 0);
        None
    }
}

#[test]
fn scalar_rows() {
    let mut want = vec![0xf9, 0xff, 0xff, 0xff, 5, 0, 0, 0, 2, 0, 0, 0, b'k', b'y', 8, 0, 0, 0];
    want.extend(42u64.to_le_bytes());
    assert_eq!(packed(0, b"ky", &scalar(42)), Some(want));
    assert_eq!(packed(0, b"ky", &scalar(0)), None);
    assert_eq!(packed(0, b"ky", &LookupAnswer::Scalar { rc: -2, v: 42 }), None);
}

#[test]
fn a_row_that_does_not_fit_is_rolled_back() {
    for limit in 0..3 + 16 + 2 + 8 {
        let mut buf = vec![0u8; 64];
        let mut w = RecordWriter::new(&mut buf, limit.max(3));
        assert!(w.write_bytes(b"abc"));
        assert!(!pack_row(&mut w, &codes(), 1, 0, b"ky", &scalar(1)));
        assert_eq!(w.off, 3);
        assert_eq!(&buf[..3], b"abc");
    }
    let mut buf = vec![0u8; 64];
    let mut w = RecordWriter::new(&mut buf, 3 + 16 + 2 + 8);
    assert!(w.write_bytes(b"abc"));
    assert!(pack_row(&mut w, &codes(), 1, 0, b"ky", &scalar(1)));
    assert_eq!(w.off, 29);
}

#[test]
fn stddev_rows() {
    let a = LookupAnswer::Stddev { rc: 0, n: 2, sum: 6, sum_sq: 20 };
    let r = packed(STDDEV, b"", &a).unwrap();
    assert_eq!(r.len(), 16 + 24);
    assert_eq!(r[4], 6);
    assert_eq!(&r[8..16], &[0, 0, 0, 0, 24, 0, 0, 0]);
    assert_eq!(&r[16..24], &2u64.to_le_bytes());
    assert_eq!(&r[24..32], &6u64.to_le_bytes());
    assert_eq!(&r[32..40], &20u64.to_le_bytes());
    let none = LookupAnswer::Stddev { rc: 0, n: 0, sum: 6, sum_sq: 20 };
    assert_eq!(packed(STDDEV, b"", &none), None);
    let failed = LookupAnswer::Stddev { rc: 1, n: 2, sum: 6, sum_sq: 20 };
    assert_eq!(packed(STDDEV, b"", &failed), None);
}

#[test]
fn quantize_rows() {
    let mut buckets = vec![0u64; 127];
    assert_eq!(packed(QUANTIZE, b"", &LookupAnswer::Quantize { rc: 0, buckets: buckets.clone() }), None);
    buckets[126] = 3;
    let r = packed(QUANTIZE, b"", &LookupAnswer::Quantize { rc: 0, buckets: buckets.clone() }).unwrap();
    assert_eq!(r.len(), 16 + 1016);
    assert_eq!(r[4], 7);
    assert_eq!(&r[12..16], &1016u32.to_le_bytes());
    assert_eq!(&r[r.len() - 8..], &3u64.to_le_bytes());
    assert_eq!(packed(QUANTIZE, b"", &LookupAnswer::Quantize { rc: -1, buckets }), None);
}

#[test]
fn a_snapshot_walks_arrays_and_hashes() {
    let c = codes();
    let mut buf = vec![0u8; MAX_BODY];
    let mut w = RecordWriter::new(&mut buf, MAX_BODY);
    let maps = vec![
        AggMap { handle: 0, ..map(PERCPU_ARRAY, 0, 4, 2) },
        map(RINGBUF, 0, 4, 2),
        AggMap { fd: 300, ..map(PERCPU_ARRAY, 0, 4, 2) },
        map(PERCPU_ARRAY, 0, 4, 0),
        map(PERCPU_ARRAY, 0, 4, 2),
        map(HASH, 1, 3, 8),
    ];
    let mut s = AggSnapshot::begin(&mut w, 0x1122, maps);
    assert_eq!(s.step, AggStep::Index { map: 4, index: 0 });
    assert_eq!(s.reduce(&c), Reduce::Sum);
    s.looked_up(&mut w, &c, &scalar(0));
    assert_eq!(s.step, AggStep::Index { map: 4, index: 1 });
    s.looked_up(&mut w, &c, &scalar(9));
    assert_eq!(s.step, AggStep::NextKey { map: 5, first: true });
    let mut key = [0u8; 32];
    key[..4].copy_from_slice(b"abcd");
    s.next_key(&w, 0, &key);
    assert_eq!(s.step, AggStep::Key { map: 5 });
    assert_eq!(s.reduce(&c), Reduce::Min);
    s.looked_up(&mut w, &c, &scalar(5));
    assert_eq!(s.step, AggStep::NextKey { map: 5, first: false });
    s.next_key(&w, -2, &[0; 32]);
    assert_eq!(s.step, AggStep::Submit);
    s.finish(&mut w);
    let n = w.off;
    let mut want = vec![0, 0, 0, 0, 0xfd, 0xff, 0xff, 0xff];
    want.extend(0x1122u64.to_le_bytes());
    want.extend(1u64.to_le_bytes());
    want.extend(2u32.to_le_bytes());
    // index 1 of the array
    want.extend(200i32.to_le_bytes());
    want.extend([5, 0, 0, 0, 4, 0, 0, 0, 1, 0, 0, 0, 8, 0, 0, 0]);
    want.extend(9u64.to_le_bytes());
    // the hash entry, with the three bytes of its key
    want.extend(200i32.to_le_bytes());
    want.extend([2, 0, 0, 0, 3, 0, 0, 0, b'a', b'b', b'c', 8, 0, 0, 0]);
    want.extend(5u64.to_le_bytes());
    assert_eq!(buf[..n].to_vec(), want);
}

#[test]
fn an_unkeyed_quantize_has_no_key() {
    let c = codes();
    let mut buf = vec![0u8; MAX_BODY];
    let mut w = RecordWriter::new(&mut buf, MAX_BODY);
    let mut s = AggSnapshot::begin(&mut w, 0, vec![map(PERCPU_ARRAY, QUANTIZE, 4, 1)]);
    assert_eq!(s.reduce(&c), Reduce::Quantize);
    s.looked_up(&mut w, &c, &LookupAnswer::Quantize { rc: 0, buckets: vec![1; 127] });
    assert_eq!(s.step, AggStep::Submit);
    assert_eq!(w.off, 28 + 16 + 1016);
    s.finish(&mut w);
    assert_eq!(&buf[36..40], &[0, 0, 0, 0]);
}

#[test]
fn a_full_snapshot_counts_what_it_leaves_out() {
    let c = codes();
    let mut buf = vec![0u8; MAX_BODY];
    let mut w = RecordWriter::new(&mut buf, MAX_BODY);
    let maps = vec![map(HASH, QUANTIZE, 64, 1000), map(PERCPU_ARRAY, 0, 4, 1)];
    let mut s = AggSnapshot::begin(&mut w, 0, maps);
    for rows in 0..70 {
        assert_eq!(s.step, AggStep::NextKey { map: 0, first: rows == 0 });
        s.next_key(&w, 0, &[rows; 32]);
        s.looked_up(&mut w, &c, &LookupAnswer::Quantize { rc: 0, buckets: vec![1; 127] });
    }
    // entries that are not live are not counted
    s.next_key(&w, 0, &[70; 32]);
    s.looked_up(&mut w, &c, &LookupAnswer::Quantize { rc: 0, buckets: vec![0; 127] });
    s.next_key(&w, -2, &[0; 32]);
    assert_eq!(s.step, AggStep::Index { map: 1, index: 0 });
    s.looked_up(&mut w, &c, &scalar(1));
    assert_eq!(s.step, AggStep::Submit);
    assert_eq!(s.packed, MAX_ENTRIES);
    assert_eq!(s.finish(&mut w), 11);
    // the largest rows there are, with the largest keys
    assert_eq!(w.off, 28 + 60 * (16 + 32 + 1016));
    assert!(w.off <= MAX_BODY);
    assert_eq!(&buf[24..28], &60u32.to_le_bytes());
}

#[test]
fn a_snapshot_that_is_just_full_leaves_nothing_out() {
    let c = codes();
    let mut buf = vec![0u8; MAX_BODY];
    let mut w = RecordWriter::new(&mut buf, MAX_BODY);
    let mut s = AggSnapshot::begin(&mut w, 0, vec![map(PERCPU_ARRAY, 0, 4, 61)]);
    for i in 0..61 {
        assert_eq!(s.step, AggStep::Index { map: 0, index: i });
        s.looked_up(&mut w, &c, &scalar(if i == 7 { 0 } else { 1 }));
    }
    assert_eq!(s.step, AggStep::Submit);
    assert_eq!(s.finish(&mut w), 0);
    assert_eq!(&buf[24..28], &60u32.to_le_bytes());
}

#[test]
fn a_snapshot_of_nothing_is_empty() {
    let mut buf = vec![0u8; MAX_BODY];
    let mut w = RecordWriter::new(&mut buf, MAX_BODY);
    let s = AggSnapshot::begin(&mut w, 0, vec![]);
    assert_eq!(s.step, AggStep::Submit);
    assert_eq!(s.finish(&mut w), 0);
    assert_eq!(w.off, 28);
    assert_eq!(&buf[24..28], &[0, 0, 0, 0]);
}

#[test]
fn symbol_records_have_a_header() {
    let mut buf = vec![7u8; SYMTAB_MAX_BODY];
    let mut w = RecordWriter::new(&mut buf, SYMTAB_MAX_BODY);
    assert_eq!(write_symtab_header(&mut w, &codes(), 5), 65280 - 24);
    assert_eq!(w.off, 24);
    let mut want = vec![0, 0, 0, 0, 0xfe, 0xff, 0xff, 0xff];
    want.extend(5u64.to_le_bytes());
    want.extend(0u64.to_le_bytes());
    assert_eq!(buf[..24].to_vec(), want);
    assert!(buf[24..].iter().all(|&b| b == 7));
}

#[test]
fn symbol_chunks_follow_one_another() {
    let c = SymtabChunk::first();
    assert_eq!(c.published(-5, 9), SymtabStep::Failed);
    assert_eq!(c.published(100, 0), SymtabStep::Complete);
    let d = match c.published(100, 9) {
        SymtabStep::Next { next } => next,
        other => panic!("{:?}", other),
    };
    assert_eq!(d, SymtabChunk { chunk: 1, sym_idx: 9 });
    assert_eq!(d.published(0, 9), SymtabStep::Stuck);
    assert_eq!(d.published(0, 8), SymtabStep::Stuck);
}

#[test]
fn symbol_chunks_are_capped() {
    let mut c = SymtabChunk::first();
    let mut chunks = 1;
    loop {
        match c.published(1, c.sym_idx + 1) {
            SymtabStep::Next { next } => {
                c = next;
                chunks += 1;
            }
            other => {
                assert_eq!(other, SymtabStep::Truncated);
                break;
            }
        }
    }
    assert_eq!(chunks, 16);
}
