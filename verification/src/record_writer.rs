//! Bounds-checked writer for shared-memory record buffers.
//!
//! Every write returns `true` on success and `false` if it would have gone
//! past the limit; in that case neither the offset nor a byte has changed.

use vstd::prelude::*;

use crate::bytes::{
    bits32, lemma_splice, splice, to_bits32, u32_bytes, u32_le, u64_bytes, u64_le, write_at,
};

verus! {

/// A cursor over the first `limit` bytes of a record.
///
/// `off` is both the progress cursor and the checkpoint that callers roll back
/// to when a row does not fit.
pub struct RecordWriter<'a> {
    pub base: &'a mut [u8],
    pub off: usize,
    pub limit: usize,
}

impl<'a> RecordWriter<'a> {
    /// The cursor stands within the limit, and the limit within the buffer.
    pub open spec fn wf(&self) -> bool {
        self.off <= self.limit <= self.base@.len()
    }

    /// What has been written so far.
    pub open spec fn written(&self) -> Seq<u8> {
        self.base@.take(self.off as int)
    }

    /// A writer at the start of `base` that may fill its first `limit` bytes.
    pub fn new(base: &'a mut [u8], limit: usize) -> (w: Self)
        requires
            limit <= old(base)@.len(),
        ensures
            w.wf(),
            w.off == 0,
            w.limit == limit,
            w.base@ == old(base)@,
            final(w.base)@ == final(base)@,
    {
        Self { base, off: 0, limit }
    }

    /// Append a little-endian `u32`.
    pub fn write_u32(&mut self, val: u32) -> (ok: bool)
        requires
            old(self).wf(),
        ensures
            final(self).wf(),
            final(self).limit == old(self).limit,
            final(final(self).base)@ == final(old(self).base)@,
            ok == (old(self).off + 4 <= old(self).limit),
            ok ==> final(self).off == old(self).off + 4 && final(self).base@ == splice(
                old(self).base@,
                old(self).off as int,
                u32_bytes(val),
            ),
            !ok ==> final(self).off == old(self).off && final(self).base@ == old(self).base@,
    {
        let b: [u8; 4] = u32_le(val);
        self.write_bytes(&b)
    }

    /// Append a little-endian `i32`.
    pub fn write_i32(&mut self, val: i32) -> (ok: bool)
        requires
            old(self).wf(),
        ensures
            final(self).wf(),
            final(self).limit == old(self).limit,
            final(final(self).base)@ == final(old(self).base)@,
            ok == (old(self).off + 4 <= old(self).limit),
            ok ==> final(self).off == old(self).off + 4 && final(self).base@ == splice(
                old(self).base@,
                old(self).off as int,
                u32_bytes(bits32(val)),
            ),
            !ok ==> final(self).off == old(self).off && final(self).base@ == old(self).base@,
    {
        self.write_u32(to_bits32(val))
    }

    /// Append a little-endian `u64`.
    pub fn write_u64(&mut self, val: u64) -> (ok: bool)
        requires
            old(self).wf(),
        ensures
            final(self).wf(),
            final(self).limit == old(self).limit,
            final(final(self).base)@ == final(old(self).base)@,
            ok == (old(self).off + 8 <= old(self).limit),
            ok ==> final(self).off == old(self).off + 8 && final(self).base@ == splice(
                old(self).base@,
                old(self).off as int,
                u64_bytes(val),
            ),
            !ok ==> final(self).off == old(self).off && final(self).base@ == old(self).base@,
    {
        let b: [u8; 8] = u64_le(val);
        self.write_bytes(&b)
    }

    /// Append a raw byte slice.
    pub fn write_bytes(&mut self, src: &[u8]) -> (ok: bool)
        requires
            old(self).wf(),
        ensures
            final(self).wf(),
            final(self).limit == old(self).limit,
            final(final(self).base)@ == final(old(self).base)@,
            ok == (old(self).off + src@.len() <= old(self).limit),
            ok ==> final(self).off == old(self).off + src@.len() && final(self).base@ == splice(
                old(self).base@,
                old(self).off as int,
                src@,
            ),
            !ok ==> final(self).off == old(self).off && final(self).base@ == old(self).base@,
    {
        if src.len() > self.limit - self.off {
            return false;
        }
        write_at(self.base, self.off, src);
        proof {
            lemma_splice(old(self).base@, old(self).off as int, src@);
        }
        self.off += src.len();
        true
    }

    /// Overwrite a `u32` at a previously written offset.
    pub fn poke_u32(&mut self, off: usize, val: u32) -> (ok: bool)
        requires
            old(self).wf(),
            off + 4 <= usize::MAX,
        ensures
            final(self).wf(),
            final(self).limit == old(self).limit,
            final(self).off == old(self).off,
            final(final(self).base)@ == final(old(self).base)@,
            ok == (off + 4 <= old(self).limit),
            ok ==> final(self).base@ == splice(old(self).base@, off as int, u32_bytes(val)),
            !ok ==> final(self).base@ == old(self).base@,
    {
        if off + 4 > self.limit {
            return false;
        }
        let b: [u8; 4] = u32_le(val);
        write_at(self.base, off, &b);
        proof {
            lemma_splice(old(self).base@, off as int, u32_bytes(val));
        }
        true
    }
}

/// A successful append of `b` extends what has been written by exactly `b`.
pub proof fn law_append_extends(s: Seq<u8>, off: int, b: Seq<u8>)
    requires
        0 <= off,
        off + b.len() <= s.len(),
    ensures
        splice(s, off, b).take(off + b.len()) == s.take(off) + b,
{
    lemma_splice(s, off, b);
    assert(splice(s, off, b).take(off + b.len()) =~= s.take(off) + b);
}

/// Rolling the cursor back to a checkpoint leaves what was written before it.
pub proof fn law_rollback_keeps_prefix(s: Seq<u8>, checkpoint: int, off: int, b: Seq<u8>)
    requires
        0 <= checkpoint <= off,
        off + b.len() <= s.len(),
    ensures
        splice(s, off, b).take(checkpoint) == s.take(checkpoint),
{
    lemma_splice(s, off, b);
    assert(splice(s, off, b).take(checkpoint) =~= s.take(checkpoint));
}

} // verus!
