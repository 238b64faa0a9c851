//! Publishing the kernel's type information and symbols in shared memory.

use vstd::prelude::*;

use crate::bytes::{
    law_reads_see_a_part, law_u64_round_trip, le_u64, lemma_splice, splice, u64_bytes, u64_le,
    write_at,
};
use crate::shmem_layout::{SHMEM_BTF_CAP, SHMEM_BTF_OFF};

verus! {

/// How many bytes of type information are published: all of them, or none if
/// there are none or too many.
pub open spec fn btf_published(btf: Option<Seq<u8>>) -> int {
    match btf {
        Some(b) => if b.len() <= SHMEM_BTF_CAP {
            b.len() as int
        } else {
            0
        },
        None => 0,
    }
}

/// Copy the kernel's type information into its place in the shared memory
/// region, and return how much was copied.
pub fn populate_shmem_btf(shmem: &mut [u8], btf: Option<&[u8]>) -> (n: usize)
    requires
        SHMEM_BTF_OFF + SHMEM_BTF_CAP <= old(shmem)@.len(),
    ensures
        n == btf_published(
            match btf {
                Some(b) => Some(b@),
                None => None,
            },
        ),
        n == 0 ==> final(shmem)@ == old(shmem)@,
        n > 0 ==> btf is Some && final(shmem)@ == splice(
            old(shmem)@,
            SHMEM_BTF_OFF as int,
            btf->0@,
        ),
{
    match btf {
        Some(b) => {
            let n: usize = b.len();
            if n == 0 || n > SHMEM_BTF_CAP {
                return 0;
            }
            write_at(shmem, SHMEM_BTF_OFF, b);
            n
        },
        None => 0,
    }
}

/// Longest symbol name that is published.
pub const KSYM_NAME_MAX: usize = 255;

/// A kernel symbol.
pub struct Ksym {
    pub addr: u64,
    pub name: Seq<u8>,
}

/// Whether a symbol with this name has a record.
pub open spec fn recordable(name: Seq<u8>) -> bool {
    0 < name.len() <= KSYM_NAME_MAX
}

/// The record of a symbol: its address, the length of its name, its name.
pub open spec fn ksym_record(k: Ksym) -> Seq<u8> {
    u64_bytes(k.addr) + seq![k.name.len() as u8] + k.name
}

/// The symbols written so far, and whether one did not fit.
pub struct KsymsView {
    pub stream: Seq<u8>,
    pub overflow: bool,
}

/// What is published once symbol `k` has been seen as well.  After a symbol
/// that did not fit, no other is published.
pub open spec fn after_ksym(v: KsymsView, cap: int, k: Ksym) -> KsymsView {
    if v.overflow || !recordable(k.name) {
        v
    } else if v.stream.len() + ksym_record(k).len() > cap {
        KsymsView { overflow: true, ..v }
    } else {
        KsymsView { stream: v.stream + ksym_record(k), ..v }
    }
}

/// What is published once the symbols `ks` have been seen.
pub open spec fn after_ksyms(cap: int, ks: Seq<Ksym>) -> KsymsView
    decreases ks.len(),
{
    if ks.len() == 0 {
        KsymsView { stream: Seq::empty(), overflow: false }
    } else {
        after_ksym(after_ksyms(cap, ks.drop_last()), cap, ks.last())
    }
}

/// Packs symbol records into a buffer.
pub struct ShmemKsymsAccum<'a> {
    pub buf: &'a mut [u8],
    pub pos: usize,
    pub overflow: bool,
}

impl<'a> View for ShmemKsymsAccum<'a> {
    type V = KsymsView;

    open spec fn view(&self) -> KsymsView {
        KsymsView { stream: self.buf@.take(self.pos as int), overflow: self.overflow }
    }
}

impl<'a> ShmemKsymsAccum<'a> {
    /// The position stands within the buffer.
    pub open spec fn wf(&self) -> bool {
        self.pos <= self.buf@.len()
    }

    /// Nothing is packed yet.
    pub fn new(buf: &'a mut [u8]) -> (r: Self)
        ensures
            r.wf(),
            r@ == after_ksyms(old(buf)@.len() as int, Seq::empty()),
            r.buf@ == old(buf)@,
            final(r.buf)@ == final(buf)@,
    {
        let r = ShmemKsymsAccum { buf, pos: 0, overflow: false };
        assert(r@.stream =~= Seq::<u8>::empty());
        r
    }

    /// Pack one symbol; a symbol without a name is passed over.
    pub fn shmem_ksyms_cb(&mut self, name: Option<&[u8]>, addr: u64)
        requires
            old(self).wf(),
        ensures
            final(self).wf(),
            final(self).buf@.len() == old(self).buf@.len(),
            final(final(self).buf)@ == final(old(self).buf)@,
            final(self)@ == (match name {
                Some(n) => after_ksym(
                    old(self)@,
                    old(self).buf@.len() as int,
                    (Ksym { addr, name: n@ }),
                ),
                None => old(self)@,
            }),
            final(self).buf@.skip(final(self).pos as int) == old(self).buf@.skip(
                final(self).pos as int,
            ),
    {
        let name: &[u8] = match name {
            Some(n) => n,
            None => return,
        };
        let len: usize = name.len();
        if self.overflow || len == 0 || len > KSYM_NAME_MAX {
            return;
        }
        let ghost k = Ksym { addr, name: name@ };
        let ghost b0 = self.buf@;
        let ghost p = self.pos as int;
        if self.buf.len() - self.pos < 9 + len {
            self.overflow = true;
            return;
        }
        let a: [u8; 8] = u64_le(addr);
        let l: [u8; 1] = [len as u8];
        write_at(self.buf, self.pos, &a);
        let ghost b1 = self.buf@;
        write_at(self.buf, self.pos + 8, &l);
        let ghost b2 = self.buf@;
        write_at(self.buf, self.pos + 9, name);
        proof {
            lemma_splice(b0, p, a@);
            lemma_splice(b1, p + 8, l@);
            lemma_splice(b2, p + 9, name@);
            assert(l@ =~= seq![len as u8]);
            let t = self.buf@;
            assert(t.take(p + 9 + len) =~= b0.take(p) + ksym_record(k)) by {
                assert forall|i: int| 0 <= i < p + 9 + len implies t[i] == (b0.take(p)
                    + ksym_record(k))[i] by {
                    assert(t[i] == if p + 9 <= i { name@[i - p - 9] } else { b2[i] });
                    if i < p + 9 {
                        assert(b2[i] == if p + 8 <= i { l@[i - p - 8] } else { b1[i] });
                    }
                    if i < p + 8 {
                        assert(b1[i] == if p <= i { a@[i - p] } else { b0[i] });
                    }
                }
            }
            assert(t.skip(p + 9 + len) =~= b0.skip(p + 9 + len)) by {
                assert forall|i: int| p + 9 + len <= i < t.len() implies t[i] == b0[i] by {
                    assert(t[i] == b2[i]);
                    assert(b2[i] == b1[i]);
                    assert(b1[i] == b0[i]);
                }
            }
        }
        self.pos += 9 + len;
    }
}

/// The recordable symbols among `ks`.
pub open spec fn recorded(ks: Seq<Ksym>) -> Seq<Ksym> {
    ks.filter(|k: Ksym| recordable(k.name))
}

/// The records of `ks` one after the other.
pub open spec fn records(ks: Seq<Ksym>) -> Seq<u8>
    decreases ks.len(),
{
    if ks.len() == 0 {
        Seq::empty()
    } else {
        ksym_record(ks[0]) + records(ks.skip(1))
    }
}

/// What a reader makes of a stream of records.
pub open spec fn read_ksyms(s: Seq<u8>) -> Seq<Ksym>
    decreases s.len(),
{
    if s.len() < 9 || s.len() < 9 + s[8] {
        Seq::empty()
    } else {
        seq![Ksym { addr: le_u64(s, 0), name: s.subrange(9, 9 + s[8]) }] + read_ksyms(
            s.skip(9 + s[8]),
        )
    }
}

/// A reader finds in a stream of records the symbols that were written.
pub proof fn law_ksyms_read_back(ks: Seq<Ksym>)
    requires
        forall|i: int| 0 <= i < ks.len() ==> recordable((#[trigger] ks[i]).name),
    ensures
        read_ksyms(records(ks)) == ks,
    decreases ks.len(),
{
    let s = records(ks);
    if ks.len() > 0 {
        let k = ks[0];
        let r = ksym_record(k);
        let rest = ks.skip(1);
        assert forall|i: int| 0 <= i < rest.len() implies recordable((#[trigger] rest[i]).name) by {
            assert(rest[i] == ks[i + 1]);
        }
        law_ksyms_read_back(rest);
        law_u64_round_trip(k.addr);
        let a = u64_bytes(k.addr);
        assert(r.len() == 9 + k.name.len());
        assert(s[0] == a[0] && s[1] == a[1] && s[2] == a[2] && s[3] == a[3]);
        assert(s[4] == a[4] && s[5] == a[5] && s[6] == a[6] && s[7] == a[7]);
        assert(s[8] == k.name.len() as u8);
        assert(s.subrange(9, 9 + s[8]) =~= k.name);
        assert(s.skip(9 + s[8]) =~= records(rest));
        assert(read_ksyms(s) =~= ks);
    } else {
        assert(read_ksyms(s) =~= ks);
    }
}

proof fn lemma_records_push(ks: Seq<Ksym>, k: Ksym)
    ensures
        records(ks.push(k)) == records(ks) + ksym_record(k),
    decreases ks.len(),
{
    if ks.len() == 0 {
        assert(ks.push(k).skip(1) =~= Seq::<Ksym>::empty());
        assert(records(ks.push(k).skip(1)) =~= Seq::<u8>::empty());
        assert(ks.push(k)[0] == k);
        assert(records(ks.push(k)) =~= records(ks) + ksym_record(k));
    } else {
        assert(ks.push(k).skip(1) =~= ks.skip(1).push(k));
        lemma_records_push(ks.skip(1), k);
        assert(records(ks.push(k)) =~= records(ks) + ksym_record(k));
    }
}

/// What is published is a whole number of records, within the capacity: those
/// of the first recordable symbols, and of all of them unless one did not fit.
pub proof fn law_published_symbols_are_a_prefix(cap: int, ks: Seq<Ksym>)
    requires
        0 <= cap,
    ensures
        after_ksyms(cap, ks).stream.len() <= cap,
        exists|n: int|
            0 <= n <= recorded(ks).len() && after_ksyms(cap, ks).stream == #[trigger] records(
                recorded(ks).take(n),
            ) && (!after_ksyms(cap, ks).overflow ==> n == recorded(ks).len()),
    decreases ks.len(),
{
    let p = |k: Ksym| recordable(k.name);
    if ks.len() == 0 {
        reveal(Seq::filter);
        assert(recorded(ks) =~= Seq::<Ksym>::empty());
        assert(recorded(ks).take(0) =~= Seq::<Ksym>::empty());
        assert(after_ksyms(cap, ks).stream == records(recorded(ks).take(0)));
    } else {
        let front = ks.drop_last();
        let k = ks.last();
        law_published_symbols_are_a_prefix(cap, front);
        let v = after_ksyms(cap, front);
        let rf = recorded(front);
        let n = choose|n: int|
            0 <= n <= rf.len() && v.stream == #[trigger] records(rf.take(n)) && (!v.overflow ==> n
                == rf.len());
        reveal(Seq::filter);
        let ra = recorded(ks);
        assert(ra == if recordable(k.name) {
            rf.push(k)
        } else {
            rf
        });
        assert(ra.take(n) =~= rf.take(n));
        if !v.overflow && recordable(k.name) && v.stream.len() + ksym_record(k).len() <= cap {
            lemma_records_push(rf, k);
            assert(rf.take(n) =~= rf);
            assert(ra.take(n + 1) =~= rf.push(k));
            assert(after_ksyms(cap, ks).stream == records(ra.take(n + 1)));
        } else {
            assert(after_ksyms(cap, ks).stream == records(ra.take(n)));
        }
    }
}

/// A symbol has a record exactly if its name has 1 to 255 bytes, whatever they
/// are: while nothing overflowed and there is room, the stream grows by nine
/// bytes and the name, which read as the address, the length and the name; if
/// there is no room, that is noted; in every other case nothing changes.
pub proof fn law_which_symbols_are_recorded(v: KsymsView, cap: int, k: Ksym)
    ensures
        ({
            let n = k.name.len() as int;
            let at = v.stream.len() as int;
            let w = after_ksym(v, cap, k);
            &&& v.overflow || n == 0 || n > 255 ==> w == v
            &&& !v.overflow && 1 <= n <= 255 && at + 9 + n > cap ==> w.overflow && w.stream
                == v.stream
            &&& !v.overflow && 1 <= n <= 255 && at + 9 + n <= cap ==> {
                &&& !w.overflow
                &&& w.stream.len() == at + 9 + n
                &&& w.stream.take(at) == v.stream
                &&& le_u64(w.stream, at) == k.addr
                &&& w.stream[at + 8] == n
                &&& w.stream.subrange(at + 9, at + 9 + n) == k.name
            }
        }),
{
    let n = k.name.len() as int;
    let at = v.stream.len() as int;
    let w = after_ksym(v, cap, k);
    law_u64_round_trip(k.addr);
    if !v.overflow && 1 <= n <= 255 && at + 9 + n <= cap {
        assert(w.stream.take(at) =~= v.stream);
        assert(w.stream.subrange(at, at + 8) =~= u64_bytes(k.addr));
        law_reads_see_a_part(w.stream, at, at + 8);
        assert(w.stream.subrange(at + 9, at + 9 + n) =~= k.name);
    }
}

/// Type information is published exactly if it has at most six megabytes, and
/// then all of it; its place begins six megabytes and a page into the region.
pub proof fn law_which_type_information_is_published(btf: Seq<u8>)
    ensures
        btf_published(Some(btf)) == (if btf.len() <= 6291456 {
            btf.len() as int
        } else {
            0
        }),
        btf_published(None) == 0,
        SHMEM_BTF_OFF == 6295552,
{
}

/// Symbols are taken one after the other, and at first nothing is published.
pub proof fn law_symbols_are_taken_in_turn(cap: int, ks: Seq<Ksym>, k: Ksym)
    ensures
        after_ksyms(cap, Seq::empty()).stream.len() == 0,
        !after_ksyms(cap, Seq::empty()).overflow,
        after_ksyms(cap, ks.push(k)) == after_ksym(after_ksyms(cap, ks), cap, k),
{
    assert(ks.push(k).drop_last() =~= ks);
}

} // verus!
