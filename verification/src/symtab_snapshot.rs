//! Publishing the symbol tables of probed programs.
//!
//! The function symbols of a file are published in chunks, each in a record of
//! its own.  A helper fills the chunks in and tells where the next one starts.

use vstd::prelude::*;

use crate::bytes::{
    law_reads_see_a_part, law_u32_round_trip, law_u64_round_trip, le_u32, le_u64, lemma_splice,
    u32_bytes, u64_bytes,
};
use crate::record_writer::{law_append_extends, RecordWriter};
use crate::wire::RecordCodes;

verus! {

/// Size of a symbol record: 64 KB less the room for its own header.
pub const SYMTAB_MAX_BODY: usize = 64 * 1024 - 256;

/// Bytes of a symbol record that stand before the symbols.
pub const SYMTAB_HDR_LEN: usize = 24;

/// Most chunks of one file.
pub const MAX_CHUNKS: u32 = 16;

/// The header of a symbol record.
pub open spec fn symtab_header(codes: RecordCodes, ns: u64) -> Seq<u8> {
    u32_bytes(0) + u32_bytes(codes.sym_table_probe_magic) + u64_bytes(ns) + u64_bytes(0)
}

/// Write the header of a symbol record, and return how much room is left for
/// the symbols.
pub fn write_symtab_header(writer: &mut RecordWriter<'_>, codes: &RecordCodes, ns: u64) -> (room:
    u32)
    requires
        old(writer).wf(),
        old(writer).off == 0,
        old(writer).limit == SYMTAB_MAX_BODY,
    ensures
        final(writer).wf(),
        final(writer).limit == old(writer).limit,
        final(writer).written() == symtab_header(*codes, ns),
        final(writer).base@.skip(SYMTAB_HDR_LEN as int) == old(writer).base@.skip(
            SYMTAB_HDR_LEN as int,
        ),
        final(final(writer).base)@ == final(old(writer).base)@,
        room == SYMTAB_MAX_BODY - SYMTAB_HDR_LEN,
{
    let ghost b0 = writer.base@;
    writer.write_u32(0);
    let ghost b1 = writer.base@;
    writer.write_u32(codes.sym_table_probe_magic);
    let ghost b2 = writer.base@;
    writer.write_u64(ns);
    let ghost b3 = writer.base@;
    writer.write_u64(0);
    proof {
        let m = u32_bytes(codes.sym_table_probe_magic);
        law_append_extends(b0, 0, u32_bytes(0));
        law_append_extends(b1, 4, m);
        law_append_extends(b2, 8, u64_bytes(ns));
        law_append_extends(b3, 16, u64_bytes(0));
        lemma_splice(b0, 0, u32_bytes(0));
        lemma_splice(b1, 4, m);
        lemma_splice(b2, 8, u64_bytes(ns));
        lemma_splice(b3, 16, u64_bytes(0));
        assert(writer.written() =~= symtab_header(*codes, ns));
        let t = writer.base@;
        assert forall|i: int| 24 <= i < t.len() implies t[i] == b0[i] by {
            assert(t[i] == b3[i]);
            assert(b3[i] == b2[i]);
            assert(b2[i] == b1[i]);
            assert(b1[i] == b0[i]);
        }
        assert(t.skip(24) =~= b0.skip(24));
    }
    (SYMTAB_MAX_BODY - writer.off) as u32
}

/// Which chunk is next, and the index of its first symbol.
#[derive(Clone, Copy, PartialEq, Eq, Structural, Debug)]
pub struct SymtabChunk {
    pub chunk: u32,
    pub sym_idx: u32,
}

/// What follows a chunk.
#[derive(Clone, Copy, PartialEq, Eq, Structural, Debug)]
pub enum SymtabStep {
    /// Publish the next chunk.
    Next { next: SymtabChunk },
    /// All symbols have been published.
    Complete,
    /// The helper failed.
    Failed,
    /// The helper made no progress.
    Stuck,
    /// The chunks are used up, and the rest of the table is dropped.
    Truncated,
}

/// What follows chunk `c`, when the helper returned `written` and said that the
/// next chunk starts at `next`, where 0 means that there is none.
pub open spec fn after_chunk(c: SymtabChunk, written: i32, next: u32) -> SymtabStep {
    if written < 0 {
        SymtabStep::Failed
    } else if next == 0 {
        SymtabStep::Complete
    } else if next <= c.sym_idx {
        SymtabStep::Stuck
    } else if c.chunk + 1 >= MAX_CHUNKS {
        SymtabStep::Truncated
    } else {
        SymtabStep::Next { next: SymtabChunk { chunk: (c.chunk + 1) as u32, sym_idx: next } }
    }
}

impl SymtabChunk {
    /// Within the cap on chunks.
    pub open spec fn wf(&self) -> bool {
        self.chunk < MAX_CHUNKS
    }

    /// The first chunk of a file.
    pub fn first() -> (r: Self)
        ensures
            r.wf(),
            r.chunk == 0,
            r.sym_idx == 0,
    {
        SymtabChunk { chunk: 0, sym_idx: 0 }
    }

    /// Decide what follows the chunk.
    pub fn published(&self, written: i32, next: u32) -> (r: SymtabStep)
        requires
            self.wf(),
        ensures
            r == after_chunk(*self, written, next),
            r matches SymtabStep::Next { next } ==> next.wf(),
    {
        if written < 0 {
            SymtabStep::Failed
        } else if next == 0 {
            SymtabStep::Complete
        } else if next <= self.sym_idx {
            SymtabStep::Stuck
        } else if self.chunk + 1 >= MAX_CHUNKS {
            SymtabStep::Truncated
        } else {
            SymtabStep::Next { next: SymtabChunk { chunk: self.chunk + 1, sym_idx: next } }
        }
    }
}

/// Each chunk starts behind the one before it, and a file has at most
/// `MAX_CHUNKS` of them.
pub proof fn law_chunks_advance(c: SymtabChunk, written: i32, next: u32)
    requires
        c.wf(),
    ensures
        after_chunk(c, written, next) matches SymtabStep::Next { next: d } ==> d.sym_idx > c.sym_idx
            && d.chunk == c.chunk + 1 && d.chunk < MAX_CHUNKS,
{
}

/// The header of a symbol record is a zero word, the probe id of symbol tables,
/// the time and a zero; the record has room for 65256 bytes of symbols.
pub proof fn law_symtab_header_reads_back(codes: RecordCodes, ns: u64)
    ensures
        ({
            let h = symtab_header(codes, ns);
            &&& h.len() == 24
            &&& le_u32(h, 0) == 0
            &&& le_u32(h, 4) == codes.sym_table_probe_magic
            &&& le_u64(h, 8) == ns
            &&& le_u64(h, 16) == 0
        }),
        SYMTAB_MAX_BODY - SYMTAB_HDR_LEN == 65256,
{
    let h = symtab_header(codes, ns);
    law_u32_round_trip(0);
    law_u32_round_trip(codes.sym_table_probe_magic);
    law_u64_round_trip(ns);
    law_u64_round_trip(0);
    assert(h.subrange(0, 4) =~= u32_bytes(0));
    assert(h.subrange(4, 8) =~= u32_bytes(codes.sym_table_probe_magic));
    assert(h.subrange(8, 16) =~= u64_bytes(ns));
    assert(h.subrange(16, 24) =~= u64_bytes(0));
    law_reads_see_a_part(h, 0, 4);
    law_reads_see_a_part(h, 4, 8);
    law_reads_see_a_part(h, 8, 16);
    law_reads_see_a_part(h, 16, 24);
}

/// A helper that reports an error ends the table, and so does one that names no
/// next symbol; one that would go back is stuck.  Otherwise the next chunk
/// starts where the helper says, unless this was the sixteenth.
pub proof fn law_what_follows_a_chunk(c: SymtabChunk, written: i32, next: u32)
    requires
        c.chunk < 16,
    ensures
        after_chunk(c, written, next) is Failed <==> written < 0,
        after_chunk(c, written, next) is Complete <==> written >= 0 && next == 0,
        after_chunk(c, written, next) is Stuck <==> written >= 0 && 0 < next <= c.sym_idx,
        after_chunk(c, written, next) is Truncated <==> written >= 0 && next > c.sym_idx && c.chunk
            == 15,
        written >= 0 && next > c.sym_idx && c.chunk < 15 ==> after_chunk(c, written, next) == (
        SymtabStep::Next { next: SymtabChunk { chunk: (c.chunk + 1) as u32, sym_idx: next } }),
{
}

} // verus!
