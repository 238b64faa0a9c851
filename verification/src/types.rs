//! Wire-format types of the control path.
//!
//! All fields are little-endian and may stand at any alignment: the
//! variable-length strings of a command can leave a later field on an odd
//! offset.

use vstd::prelude::*;

use crate::bytes::{
    bits16, bits32, law_signed_round_trip, law_u16_read_write, law_u32_read_write,
    law_u32_round_trip, le_u16, le_u32, lemma_splice, push_u16, push_u32, read_u16_le_unaligned, read_u32_le_unaligned, signed16, signed32, splice,
    to_bits16, to_bits32, to_signed16, to_signed32, u16_bytes, u32_bytes, u32_le, write_at,
};

verus! {

/// Size of a command header: `op` and `len`.
pub const CMD_HDR: usize = 8;

/// Header of a command on the control queue.
#[derive(Clone, Copy, PartialEq, Eq, Structural, Debug)]
pub struct BifrostCmd {
    pub op: u32,
    pub len: u32,
}

impl BifrostCmd {
    /// The header that command `s` begins with.
    pub open spec fn at_start(s: Seq<u8>) -> Self {
        BifrostCmd { op: le_u32(s, 0), len: le_u32(s, 4) }
    }

    /// Decode the header of a command.
    pub fn read_le_unaligned(p: &[u8]) -> (r: Self)
        requires
            p@.len() >= CMD_HDR,
        ensures
            r == Self::at_start(p@),
    {
        BifrostCmd { op: read_u32_le_unaligned(p, 0), len: read_u32_le_unaligned(p, 4) }
    }
}

/// On-wire size of a map definition.
pub const MAP_DEF_WIRE_SIZE: usize = 24;

/// On-wire size of an instruction.
pub const BPF_INSN_WIRE_SIZE: usize = 8;

/// Map definition in a program-load command.
#[derive(Clone, Copy, PartialEq, Eq, Structural, Debug)]
pub struct MapDef {
    pub map_type: u32,
    pub key_size: u32,
    pub value_size: u32,
    pub max_entries: u32,
    pub fake_fd: i32,
    /// Low byte: aggregation kind.  Other bits reserved.
    pub flags: u32,
}

impl MapDef {
    /// The map definition encoded at `off` in `s`.
    pub open spec fn at(s: Seq<u8>, off: int) -> Self {
        MapDef {
            map_type: le_u32(s, off),
            key_size: le_u32(s, off + 4),
            value_size: le_u32(s, off + 8),
            max_entries: le_u32(s, off + 12),
            fake_fd: signed32(le_u32(s, off + 16)),
            flags: le_u32(s, off + 20),
        }
    }

    /// The aggregation kind that the flags carry.
    pub open spec fn kind(self) -> u8 {
        (self.flags % 0x100) as u8
    }

    /// The aggregation kind that the flags carry.
    pub fn agg_kind(&self) -> (r: u8)
        ensures
            r == self.kind(),
    {
        (self.flags % 0x100) as u8
    }

    /// Decode a map definition.
    pub fn read_le_unaligned(p: &[u8], off: usize) -> (r: Self)
        requires
            off + MAP_DEF_WIRE_SIZE <= p@.len(),
        ensures
            r == Self::at(p@, off as int),
    {
        assert(p@.len() == p.len());
        MapDef {
            map_type: read_u32_le_unaligned(p, off),
            key_size: read_u32_le_unaligned(p, off + 4),
            value_size: read_u32_le_unaligned(p, off + 8),
            max_entries: read_u32_le_unaligned(p, off + 12),
            fake_fd: to_signed32(read_u32_le_unaligned(p, off + 16)),
            flags: read_u32_le_unaligned(p, off + 20),
        }
    }
}

/// BPF instruction.
#[derive(Clone, Copy, PartialEq, Eq, Structural, Debug)]
pub struct BpfInsn {
    pub code: u8,
    /// Destination register in the low four bits, source register in the high four.
    pub regs: u8,
    pub off: i16,
    pub imm: i32,
}

impl BpfInsn {
    /// The instruction encoded at `off` in `s`.
    pub open spec fn at(s: Seq<u8>, off: int) -> Self {
        BpfInsn {
            code: s[off],
            regs: s[off + 1],
            off: signed16(le_u16(s, off + 2)),
            imm: signed32(le_u32(s, off + 4)),
        }
    }

    /// The eight bytes that encode the instruction.
    pub open spec fn wire(self) -> Seq<u8> {
        seq![self.code, self.regs] + u16_bytes(bits16(self.off)) + u32_bytes(bits32(self.imm))
    }

    /// The source register.
    pub open spec fn src(self) -> u8 {
        self.regs / 16
    }

    /// The destination register.
    pub open spec fn dst(self) -> u8 {
        self.regs % 16
    }

    /// The source register.
    pub fn src_reg(&self) -> (r: u8)
        ensures
            r == self.src(),
    {
        let regs: u8 = self.regs;
        assert(regs >> 4 == regs / 16) by (bit_vector);
        regs >> 4
    }

    /// Replace the source register by the low four bits of `r`.
    pub fn set_src_reg(&mut self, r: u8)
        ensures
            final(self).src() == r % 16,
            final(self).dst() == old(self).dst(),
            final(self).code == old(self).code,
            final(self).off == old(self).off,
            final(self).imm == old(self).imm,
    {
        let regs: u8 = self.regs;
        assert(((regs & 0x0f) | (r << 4)) / 16 == r % 16) by (bit_vector);
        assert(((regs & 0x0f) | (r << 4)) % 16 == regs % 16) by (bit_vector);
        self.regs = (regs & 0x0f) | (r << 4);
    }

    /// Decode an instruction.
    pub fn read_le_unaligned(p: &[u8], off: usize) -> (r: Self)
        requires
            off + BPF_INSN_WIRE_SIZE <= p@.len(),
        ensures
            r == Self::at(p@, off as int),
    {
        assert(p@.len() == p.len());
        BpfInsn {
            code: p[off],
            regs: p[off + 1],
            off: to_signed16(read_u16_le_unaligned(p, off + 2)),
            imm: to_signed32(read_u32_le_unaligned(p, off + 4)),
        }
    }

    /// Encode an instruction in place.
    pub fn write_le_unaligned(p: &mut [u8], off: usize, v: BpfInsn)
        requires
            off + BPF_INSN_WIRE_SIZE <= old(p)@.len(),
        ensures
            final(p)@ == splice(old(p)@, off as int, v.wire()),
    {
        let o: u16 = to_bits16(v.off);
        let i: [u8; 4] = u32_le(to_bits32(v.imm));
        let buf: [u8; 8] = [
            v.code,
            v.regs,
            (o % 0x100) as u8,
            (o / 0x100) as u8,
            i[0],
            i[1],
            i[2],
            i[3],
        ];
        assert(buf@ =~= v.wire());
        write_at(p, off, &buf);
    }

    /// Append the encoding of the instruction.
    pub fn push_wire(&self, buf: &mut Vec<u8>)
        ensures
            final(buf)@ == old(buf)@ + self.wire(),
    {
        let ghost s0 = buf@;
        buf.push(self.code);
        buf.push(self.regs);
        push_u16(buf, to_bits16(self.off));
        push_u32(buf, to_bits32(self.imm));
        assert(buf@ =~= s0 + self.wire());
    }
}

/// Reading an instruction back from where it was written gives that
/// instruction, and no byte outside its eight has changed.
pub proof fn law_insn_write_read(s: Seq<u8>, off: int, v: BpfInsn)
    requires
        0 <= off,
        off + BPF_INSN_WIRE_SIZE <= s.len(),
    ensures
        BpfInsn::at(splice(s, off, v.wire()), off) == v,
        forall|k: int|
            0 <= k < s.len() && !(off <= k < off + BPF_INSN_WIRE_SIZE) ==> #[trigger] splice(
                s,
                off,
                v.wire(),
            )[k] == s[k],
{
    let t = splice(s, off, v.wire());
    lemma_splice(s, off, v.wire());
    law_signed_round_trip(v.imm, 0, v.off, 0);
    law_u32_round_trip(bits32(v.imm));
    assert forall|k: int| 0 <= k < 8 implies #[trigger] t[off + k] == v.wire()[k] by {}
    assert(t[off + 0] == v.code);
    assert(t[off + 1] == v.regs);
    assert(t[off + 2] == u16_bytes(bits16(v.off))[0]);
    assert(t[off + 3] == u16_bytes(bits16(v.off))[1]);
    assert(le_u16(t, off + 2) == bits16(v.off));
    let ib = u32_bytes(bits32(v.imm));
    assert(t[off + 4] == ib[0]);
    assert(t[off + 5] == ib[1]);
    assert(t[off + 6] == ib[2]);
    assert(t[off + 7] == ib[3]);
    assert(le_u32(t, off + 4) == le_u32(ib, 0));
}

/// Writing back an instruction where it was read leaves the bytes as they were.
pub proof fn law_insn_read_write(s: Seq<u8>, off: int)
    requires
        0 <= off,
        off + BPF_INSN_WIRE_SIZE <= s.len(),
    ensures
        BpfInsn::at(s, off).wire() == s.subrange(off, off + BPF_INSN_WIRE_SIZE),
        splice(s, off, BpfInsn::at(s, off).wire()) == s,
{
    let w = BpfInsn::at(s, off).wire();
    law_signed_round_trip(0, le_u32(s, off + 4), 0, le_u16(s, off + 2));
    law_u16_read_write(s, off + 2);
    law_u32_read_write(s, off + 4);
    assert forall|k: int| 0 <= k < 8 implies w[k] == #[trigger] s[off + k] by {
        if 2 <= k < 4 {
            assert(w[k] == s.subrange(off + 2, off + 4)[k - 2]);
        } else if 4 <= k {
            assert(w[k] == s.subrange(off + 4, off + 8)[k - 4]);
        }
    }
    assert(w =~= s.subrange(off, off + BPF_INSN_WIRE_SIZE));
    assert(splice(s, off, w) =~= s);
}

/// The aggregation kind of a map is the byte that its definition has at 20, the
/// lowest of its flags.
pub proof fn law_where_the_aggregation_kind_stands(s: Seq<u8>, off: int)
    ensures
        MapDef::at(s, off).kind() == s[off + 20],
{
}

/// Where the parts of an instruction, of a map definition and of a command
/// header stand.
pub proof fn law_where_fields_stand(s: Seq<u8>, off: int)
    ensures
        BpfInsn::at(s, off).code == s[off],
        BpfInsn::at(s, off).regs == s[off + 1],
        BpfInsn::at(s, off).off == signed16(le_u16(s, off + 2)),
        BpfInsn::at(s, off).imm == signed32(le_u32(s, off + 4)),
        MapDef::at(s, off).map_type == le_u32(s, off),
        MapDef::at(s, off).key_size == le_u32(s, off + 4),
        MapDef::at(s, off).value_size == le_u32(s, off + 8),
        MapDef::at(s, off).max_entries == le_u32(s, off + 12),
        MapDef::at(s, off).fake_fd == signed32(le_u32(s, off + 16)),
        MapDef::at(s, off).flags == le_u32(s, off + 20),
        BifrostCmd::at_start(s).op == le_u32(s, 0),
        BifrostCmd::at_start(s).len == le_u32(s, 4),
{
}

} // verus!
