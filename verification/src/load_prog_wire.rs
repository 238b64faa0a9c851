//! The byte layout of a program-load command, as its sender writes it.
//!
//! The parser is held to this layout: whatever a sender encodes within the
//! caps, the parser accepts and reads back unchanged.

use vstd::prelude::*;

use crate::bytes::{
    bits16, bits32, first_nul, law_signed_round_trip, law_u16_round_trip, law_u32_read_write,
    law_u32_round_trip, le_u32, le_u64, lemma_first_nul, u16_bytes, u32_bytes, u64_bytes,
};
use crate::insn_patch::{law_program_image_round_trip, program_image};
use crate::load_prog::initial_state;
use crate::load_prog_parse::{
    body_of, counted, empty_trailer, insns_at, law_relocs_are_valid, load_prog_content, map_defs, pairs_complete,
    parse_body, relocs_at, trailer, LoadProgView, RelocView, TrailerView, FIXED,
    MAX_MAPS_PER_PROG, TARGET_NAME_LEN, UPROBE_BASENAME_MAX, UPROBE_PATH_MAX, UPROBE_PROVIDER_MAX,
    UPROBE_SYMBOL_MAX,
};
use crate::types::{law_insn_read_write, BpfInsn, MapDef, MAP_DEF_WIRE_SIZE};
use crate::wire::{ProbeType, ProbeTypeCodes};

verus! {

/// What a sender puts into a program-load command.
pub struct LoadProgSent {
    pub target_name: Seq<u8>,
    pub flags: u32,
    /// Path of the probed file, for a probe at a file offset.
    pub path: Seq<u8>,
    pub basename: Seq<u8>,
    pub provider: Seq<u8>,
    pub symbol: Seq<u8>,
    pub file_offset: u64,
    pub maps: Seq<MapDef>,
    pub insns: Seq<BpfInsn>,
    pub relocs: Seq<RelocView>,
}

/// A string with its length before it.
pub open spec fn counted_bytes(s: Seq<u8>) -> Seq<u8> {
    u32_bytes(s.len() as u32) + s
}

/// The trailer of a command of family `t`.
pub open spec fn trailer_bytes(t: ProbeType, c: LoadProgSent) -> Seq<u8> {
    match t {
        ProbeType::Uprobe | ProbeType::Uretprobe => counted_bytes(c.path) + u64_bytes(
            c.file_offset,
        ),
        ProbeType::UprobeBySym | ProbeType::UretprobeBySym => counted_bytes(c.basename)
            + counted_bytes(c.symbol),
        ProbeType::Usdt => counted_bytes(c.basename) + counted_bytes(c.provider) + counted_bytes(
            c.symbol,
        ),
        _ => Seq::empty(),
    }
}

/// What the parser finds in that trailer.
pub open spec fn sent_trailer(t: ProbeType, c: LoadProgSent, end: int) -> TrailerView {
    match t {
        ProbeType::Uprobe | ProbeType::Uretprobe => TrailerView {
            path: c.path,
            file_offset: c.file_offset,
            ..empty_trailer(end)
        },
        ProbeType::UprobeBySym | ProbeType::UretprobeBySym => TrailerView {
            basename: c.basename,
            symbol: c.symbol,
            ..empty_trailer(end)
        },
        ProbeType::Usdt => TrailerView {
            basename: c.basename,
            provider: c.provider,
            symbol: c.symbol,
            ..empty_trailer(end)
        },
        _ => empty_trailer(end),
    }
}

/// The strings of the trailer are within their caps.
pub open spec fn trailer_fits(t: ProbeType, c: LoadProgSent) -> bool {
    match t {
        ProbeType::Uprobe | ProbeType::Uretprobe => c.path.len() <= UPROBE_PATH_MAX,
        ProbeType::UprobeBySym | ProbeType::UretprobeBySym => {
            &&& 1 <= c.basename.len() <= UPROBE_BASENAME_MAX
            &&& 1 <= c.symbol.len() <= UPROBE_SYMBOL_MAX
        },
        ProbeType::Usdt => {
            &&& 1 <= c.basename.len() <= UPROBE_BASENAME_MAX
            &&& 1 <= c.provider.len() <= UPROBE_PROVIDER_MAX
            &&& 1 <= c.symbol.len() <= UPROBE_SYMBOL_MAX
        },
        _ => true,
    }
}

/// The bytes of a map definition.
pub open spec fn map_bytes(m: MapDef) -> Seq<u8> {
    u32_bytes(m.map_type) + u32_bytes(m.key_size) + u32_bytes(m.value_size) + u32_bytes(
        m.max_entries,
    ) + u32_bytes(bits32(m.fake_fd)) + u32_bytes(m.flags)
}

/// The bytes of a list of map definitions.
pub open spec fn maps_bytes(maps: Seq<MapDef>) -> Seq<u8>
    decreases maps.len(),
{
    if maps.len() == 0 {
        Seq::empty()
    } else {
        maps_bytes(maps.drop_last()) + map_bytes(maps.last())
    }
}

/// The bytes of a relocation.
pub open spec fn reloc_bytes(r: RelocView) -> Seq<u8> {
    u32_bytes(r.insn_idx) + seq![r.name.len() as u8] + r.name
}

/// The bytes of a list of relocations.
pub open spec fn relocs_bytes(rs: Seq<RelocView>) -> Seq<u8>
    decreases rs.len(),
{
    if rs.len() == 0 {
        Seq::empty()
    } else {
        reloc_bytes(rs[0]) + relocs_bytes(rs.skip(1))
    }
}

/// The body of a command.
pub open spec fn body_bytes(codes: ProbeTypeCodes, c: LoadProgSent) -> Seq<u8> {
    u32_bytes(c.maps.len() as u32) + c.target_name + u32_bytes(c.flags) + trailer_bytes(
        c.family(codes),
        c,
    ) + maps_bytes(c.maps) + u32_bytes(c.insns.len() as u32) + program_image(c.insns) + u32_bytes(
        c.relocs.len() as u32,
    ) + relocs_bytes(c.relocs)
}

/// A command with operation `op` and body `body`.
pub open spec fn cmd_bytes(op: u32, body: Seq<u8>) -> Seq<u8> {
    u32_bytes(op) + u32_bytes(body.len() as u32) + body
}

impl LoadProgSent {
    /// The probe family that the flags name.
    pub open spec fn family(self, codes: ProbeTypeCodes) -> ProbeType {
        codes.family((self.flags % 0x100) as u8)
    }

    /// The command is within the caps, no map load is cut in half, and every
    /// relocation has a name and an instruction to patch.
    pub open spec fn valid(self, codes: ProbeTypeCodes) -> bool {
        &&& self.target_name.len() == TARGET_NAME_LEN
        &&& trailer_fits(self.family(codes), self)
        &&& self.maps.len() <= MAX_MAPS_PER_PROG
        &&& self.insns.len() <= u32::MAX
        &&& pairs_complete(self.insns, 0)
        &&& self.relocs.len() <= u32::MAX
        &&& forall|i: int|
            0 <= i < self.relocs.len() ==> (#[trigger] self.relocs[i]).insn_idx < self.insns.len()
                && 1 <= self.relocs[i].name.len() <= 255
        &&& body_bytes(codes, self).len() <= u32::MAX
    }
}

/// `b` stands at `off` in `s`.
pub open spec fn stands(s: Seq<u8>, off: int, b: Seq<u8>) -> bool {
    &&& 0 <= off
    &&& off + b.len() <= s.len()
    &&& s.subrange(off, off + b.len()) == b
}

proof fn lemma_split(s: Seq<u8>, off: int, a: Seq<u8>, b: Seq<u8>)
    requires
        stands(s, off, a + b),
    ensures
        stands(s, off, a),
        stands(s, off + a.len(), b),
{
    let w = s.subrange(off, off + (a + b).len());
    assert(w.subrange(0, a.len() as int) =~= a);
    assert(w.subrange(a.len() as int, (a + b).len() as int) =~= b);
    assert(s.subrange(off, off + a.len()) =~= w.subrange(0, a.len() as int));
    assert(s.subrange(off + a.len(), off + a.len() + b.len()) =~= w.subrange(
        a.len() as int,
        (a + b).len() as int,
    ));
}

proof fn lemma_stands_at(s: Seq<u8>, off: int, b: Seq<u8>, i: int)
    requires
        stands(s, off, b),
        0 <= i < b.len(),
    ensures
        s[off + i] == b[i],
{
    assert(s.subrange(off, off + b.len())[i] == s[off + i]);
}

proof fn lemma_u32_stands(s: Seq<u8>, off: int, v: u32)
    requires
        stands(s, off, u32_bytes(v)),
    ensures
        le_u32(s, off) == v,
{
    let b = u32_bytes(v);
    law_u32_round_trip(v);
    lemma_stands_at(s, off, b, 0);
    lemma_stands_at(s, off, b, 1);
    lemma_stands_at(s, off, b, 2);
    lemma_stands_at(s, off, b, 3);
}

proof fn lemma_u64_stands(s: Seq<u8>, off: int, v: u64)
    requires
        stands(s, off, u64_bytes(v)),
    ensures
        le_u64(s, off) == v,
{
    let lo = (v % 0x1_0000_0000) as u32;
    let hi = (v / 0x1_0000_0000) as u32;
    lemma_split(s, off, u32_bytes(lo), u32_bytes(hi));
    lemma_u32_stands(s, off, lo);
    lemma_u32_stands(s, off + 4, hi);
}

proof fn lemma_counted(s: Seq<u8>, off: int, str: Seq<u8>, min: int, max: int)
    requires
        stands(s, off, counted_bytes(str)),
        min <= str.len() <= max <= u32::MAX,
    ensures
        counted(s, off, min, max) == Some((str, off + 4 + str.len())),
{
    lemma_split(s, off, u32_bytes(str.len() as u32), str);
    lemma_u32_stands(s, off, str.len() as u32);
}

proof fn lemma_trailer(s: Seq<u8>, off: int, t: ProbeType, c: LoadProgSent)
    requires
        stands(s, off, trailer_bytes(t, c)),
        trailer_fits(t, c),
    ensures
        trailer(t, s, off) == Some(sent_trailer(t, c, off + trailer_bytes(t, c).len())),
{
    match t {
        ProbeType::Uprobe | ProbeType::Uretprobe => {
            lemma_split(s, off, counted_bytes(c.path), u64_bytes(c.file_offset));
            lemma_counted(s, off, c.path, 0, UPROBE_PATH_MAX as int);
            lemma_u64_stands(s, off + counted_bytes(c.path).len(), c.file_offset);
        },
        ProbeType::UprobeBySym | ProbeType::UretprobeBySym => {
            lemma_split(s, off, counted_bytes(c.basename), counted_bytes(c.symbol));
            lemma_counted(s, off, c.basename, 1, UPROBE_BASENAME_MAX as int);
            lemma_counted(
                s,
                off + counted_bytes(c.basename).len(),
                c.symbol,
                1,
                UPROBE_SYMBOL_MAX as int,
            );
        },
        ProbeType::Usdt => {
            let a = counted_bytes(c.basename);
            let b = counted_bytes(c.provider);
            lemma_split(s, off, a + b, counted_bytes(c.symbol));
            lemma_split(s, off, a, b);
            lemma_counted(s, off, c.basename, 1, UPROBE_BASENAME_MAX as int);
            lemma_counted(s, off + a.len(), c.provider, 1, UPROBE_PROVIDER_MAX as int);
            lemma_counted(s, off + (a + b).len(), c.symbol, 1, UPROBE_SYMBOL_MAX as int);
        },
        _ => {},
    }
}

proof fn lemma_map(s: Seq<u8>, off: int, m: MapDef)
    requires
        stands(s, off, map_bytes(m)),
    ensures
        MapDef::at(s, off) == m,
{
    let a = u32_bytes(m.map_type);
    let b = u32_bytes(m.key_size);
    let c = u32_bytes(m.value_size);
    let d = u32_bytes(m.max_entries);
    let e = u32_bytes(bits32(m.fake_fd));
    let f = u32_bytes(m.flags);
    lemma_split(s, off, a + b + c + d + e, f);
    lemma_split(s, off, a + b + c + d, e);
    lemma_split(s, off, a + b + c, d);
    lemma_split(s, off, a + b, c);
    lemma_split(s, off, a, b);
    lemma_u32_stands(s, off, m.map_type);
    lemma_u32_stands(s, off + 4, m.key_size);
    lemma_u32_stands(s, off + 8, m.value_size);
    lemma_u32_stands(s, off + 12, m.max_entries);
    lemma_u32_stands(s, off + 16, bits32(m.fake_fd));
    lemma_u32_stands(s, off + 20, m.flags);
    law_signed_round_trip(m.fake_fd, 0, 0, 0);
}

proof fn lemma_maps(s: Seq<u8>, off: int, maps: Seq<MapDef>)
    requires
        stands(s, off, maps_bytes(maps)),
    ensures
        maps_bytes(maps).len() == MAP_DEF_WIRE_SIZE * maps.len(),
        map_defs(s, off, maps.len()) == maps,
    decreases maps.len(),
{
    if maps.len() > 0 {
        let front = maps.drop_last();
        lemma_split(s, off, maps_bytes(front), map_bytes(maps.last()));
        lemma_maps(s, off, front);
        lemma_map(s, off + maps_bytes(front).len(), maps.last());
        assert forall|i: int| 0 <= i < maps.len() implies #[trigger] map_defs(s, off, maps.len())[i]
            == maps[i] by {
            if i < front.len() {
                assert(map_defs(s, off, front.len())[i] == front[i]);
            }
        }
    }
    assert(map_defs(s, off, maps.len()) =~= maps);
}

proof fn lemma_insn(s: Seq<u8>, off: int, v: BpfInsn)
    requires
        stands(s, off, v.wire()),
    ensures
        BpfInsn::at(s, off) == v,
{
    let a = seq![v.code, v.regs];
    let b = u16_bytes(bits16(v.off));
    let c = u32_bytes(bits32(v.imm));
    lemma_split(s, off, a + b, c);
    lemma_split(s, off, a, b);
    lemma_stands_at(s, off, a, 0);
    lemma_stands_at(s, off, a, 1);
    lemma_stands_at(s, off + 2, b, 0);
    lemma_stands_at(s, off + 2, b, 1);
    law_u16_round_trip(bits16(v.off));
    lemma_u32_stands(s, off + 4, bits32(v.imm));
    law_signed_round_trip(v.imm, 0, v.off, 0);
}

proof fn lemma_insns(s: Seq<u8>, off: int, insns: Seq<BpfInsn>)
    requires
        stands(s, off, program_image(insns)),
    ensures
        insns_at(s, off, insns.len()) == insns,
    decreases insns.len(),
{
    if insns.len() > 0 {
        let front = insns.drop_last();
        law_program_image_round_trip(front);
        lemma_split(s, off, program_image(front), insns.last().wire());
        lemma_insns(s, off, front);
        lemma_insn(s, off + program_image(front).len(), insns.last());
        assert forall|i: int| 0 <= i < insns.len() implies #[trigger] insns_at(
            s,
            off,
            insns.len(),
        )[i] == insns[i] by {
            if i < front.len() {
                assert(insns_at(s, off, front.len())[i] == front[i]);
            }
        }
    }
    assert(insns_at(s, off, insns.len()) =~= insns);
}

proof fn lemma_relocs(s: Seq<u8>, off: int, rs: Seq<RelocView>, num_insns: u32)
    requires
        stands(s, off, relocs_bytes(rs)),
        forall|i: int|
            0 <= i < rs.len() ==> (#[trigger] rs[i]).insn_idx < num_insns && 1 <= rs[i].name.len()
                <= 255,
    ensures
        relocs_at(s, off, rs.len(), num_insns) == Some((rs, off + relocs_bytes(rs).len())),
    decreases rs.len(),
{
    if rs.len() > 0 {
        let r = rs[0];
        let rest = rs.skip(1);
        let a = u32_bytes(r.insn_idx);
        let b = seq![r.name.len() as u8];
        lemma_split(s, off, reloc_bytes(r), relocs_bytes(rest));
        lemma_split(s, off, a + b, r.name);
        lemma_split(s, off, a, b);
        lemma_u32_stands(s, off, r.insn_idx);
        lemma_stands_at(s, off + 4, b, 0);
        assert forall|i: int| 0 <= i < rest.len() implies (#[trigger] rest[i]).insn_idx < num_insns
            && 1 <= rest[i].name.len() <= 255 by {
            assert(rest[i] == rs[i + 1]);
        }
        lemma_relocs(s, off + reloc_bytes(r).len(), rest, num_insns);
        assert(s.subrange(off + 5, off + 5 + r.name.len()) == r.name);
        assert(seq![r] + rest =~= rs);
    } else {
        assert(rs =~= Seq::<RelocView>::empty());
    }
}

/// Where the parts of an encoded body stand.
proof fn lemma_parts(codes: ProbeTypeCodes, c: LoadProgSent)
    requires
        c.valid(codes),
    ensures
        ({
            let body = body_bytes(codes, c);
            let t = c.family(codes);
            let o4 = FIXED + trailer_bytes(t, c).len();
            let o5 = o4 + maps_bytes(c.maps).len();
            let o7 = o5 + 4 + program_image(c.insns).len();
            &&& stands(body, 0, u32_bytes(c.maps.len() as u32))
            &&& stands(body, 4, c.target_name)
            &&& stands(body, 36, u32_bytes(c.flags))
            &&& stands(body, FIXED as int, trailer_bytes(t, c))
            &&& stands(body, o4, maps_bytes(c.maps))
            &&& stands(body, o5, u32_bytes(c.insns.len() as u32))
            &&& stands(body, o5 + 4, program_image(c.insns))
            &&& stands(body, o7, u32_bytes(c.relocs.len() as u32))
            &&& stands(body, o7 + 4, relocs_bytes(c.relocs))
        }),
{
    let body = body_bytes(codes, c);
    let s0 = u32_bytes(c.maps.len() as u32);
    let s1 = c.target_name;
    let s2 = u32_bytes(c.flags);
    let s3 = trailer_bytes(c.family(codes), c);
    let s4 = maps_bytes(c.maps);
    let s5 = u32_bytes(c.insns.len() as u32);
    let s6 = program_image(c.insns);
    let s7 = u32_bytes(c.relocs.len() as u32);
    let s8 = relocs_bytes(c.relocs);
    let p2 = s0 + s1;
    let p3 = p2 + s2;
    let p4 = p3 + s3;
    let p5 = p4 + s4;
    let p6 = p5 + s5;
    let p7 = p6 + s6;
    let p8 = p7 + s7;
    assert(body == p8 + s8);
    assert(body.subrange(0, body.len() as int) =~= body);
    lemma_split(body, 0, p8, s8);
    lemma_split(body, 0, p7, s7);
    lemma_split(body, 0, p6, s6);
    lemma_split(body, 0, p5, s5);
    lemma_split(body, 0, p4, s4);
    lemma_split(body, 0, p3, s3);
    lemma_split(body, 0, p2, s2);
    lemma_split(body, 0, s0, s1);
}

/// The parser accepts an encoded body and finds its parts.
proof fn lemma_body(codes: ProbeTypeCodes, c: LoadProgSent)
    requires
        c.valid(codes),
    ensures
        ({
            let body = body_bytes(codes, c);
            &&& parse_body(codes, body) is Some
            &&& reads_as(codes, body, parse_body(codes, body)->0, c)
        }),
{
    let t = c.family(codes);
    let body = body_bytes(codes, c);
    let o4 = FIXED + trailer_bytes(t, c).len();
    let o5 = o4 + maps_bytes(c.maps).len();
    let o7 = o5 + 4 + program_image(c.insns).len();
    lemma_parts(codes, c);
    lemma_u32_stands(body, 0, c.maps.len() as u32);
    lemma_u32_stands(body, 36, c.flags);
    lemma_trailer(body, FIXED as int, t, c);
    lemma_maps(body, o4, c.maps);
    lemma_u32_stands(body, o5, c.insns.len() as u32);
    law_program_image_round_trip(c.insns);
    lemma_insns(body, o5 + 4, c.insns);
    lemma_u32_stands(body, o7, c.relocs.len() as u32);
    lemma_relocs(body, o7 + 4, c.relocs, c.insns.len() as u32);
}

/// What the parser says of `body` is what the sender put in.
pub open spec fn reads_as(
    codes: ProbeTypeCodes,
    body: Seq<u8>,
    v: LoadProgView,
    c: LoadProgSent,
) -> bool {
    &&& v.target_name == c.target_name
    &&& v.flags == c.flags
    &&& v.trailer == sent_trailer(c.family(codes), c, v.maps_off)
    &&& v.num_maps == c.maps.len()
    &&& map_defs(body, v.maps_off, v.num_maps as nat) == c.maps
    &&& v.num_insns == c.insns.len()
    &&& insns_at(body, v.insns_off, v.num_insns as nat) == c.insns
    &&& v.num_relocs == c.relocs.len()
    &&& (relocs_at(body, v.relocs_off + 4, v.num_relocs as nat, v.num_insns)->0).0 == c.relocs
}

/// The body of a command is found, whatever follows it.
proof fn lemma_cmd(op: u32, body: Seq<u8>, behind: Seq<u8>)
    requires
        body.len() <= u32::MAX,
    ensures
        body_of(cmd_bytes(op, body) + behind) == Some(body),
{
    let cmd = cmd_bytes(op, body) + behind;
    let n = u32_bytes(body.len() as u32);
    assert(cmd.subrange(0, cmd.len() as int) =~= cmd);
    lemma_split(cmd, 0, cmd_bytes(op, body), behind);
    lemma_split(cmd, 0, u32_bytes(op) + n, body);
    lemma_split(cmd, 0, u32_bytes(op), n);
    lemma_u32_stands(cmd, 4, body.len() as u32);
}

/// The parser reads back what a sender encodes: a valid command is accepted,
/// with the target name, flags and trailer that it was given, and its map
/// definitions, instructions and relocations stand where the parser says.
/// What follows the body, such as a sequence number, makes no difference.
pub proof fn law_parser_reads_back(
    codes: ProbeTypeCodes,
    op: u32,
    c: LoadProgSent,
    behind: Seq<u8>,
)
    requires
        c.valid(codes),
    ensures
        ({
            let body = body_bytes(codes, c);
            let cmd = cmd_bytes(op, body) + behind;
            &&& body_of(cmd) == Some(body)
            &&& load_prog_content(codes, cmd) is Some
            &&& reads_as(codes, body, load_prog_content(codes, cmd)->0, c)
        }),
{
    lemma_body(codes, c);
    lemma_cmd(op, body_bytes(codes, c), behind);
}

proof fn lemma_join(s: Seq<u8>, a: int, b: int, c: int)
    requires
        0 <= a <= b <= c <= s.len(),
    ensures
        s.subrange(a, b) + s.subrange(b, c) == s.subrange(a, c),
{
    assert(s.subrange(a, b) + s.subrange(b, c) =~= s.subrange(a, c));
}

proof fn lemma_u64_read_write(s: Seq<u8>, off: int)
    requires
        0 <= off,
        off + 8 <= s.len(),
    ensures
        u64_bytes(le_u64(s, off)) == s.subrange(off, off + 8),
{
    lemma_u64_halves(le_u32(s, off), le_u32(s, off + 4));
    law_u32_read_write(s, off);
    law_u32_read_write(s, off + 4);
    lemma_join(s, off, off + 4, off + 8);
}

proof fn lemma_u64_halves(lo: u32, hi: u32)
    ensures
        u64_bytes((lo + 0x1_0000_0000 * hi) as u64) == u32_bytes(lo) + u32_bytes(hi),
{
    let v = (lo + 0x1_0000_0000 * hi) as u64;
    assert(v % 0x1_0000_0000 == lo && v / 0x1_0000_0000 == hi) by (nonlinear_arith)
        requires
            v == lo + 0x1_0000_0000 * hi,
    ;
}

proof fn lemma_counted_back(s: Seq<u8>, off: int, min: int, max: int)
    requires
        0 <= off,
        counted(s, off, min, max) is Some,
    ensures
        ({
            let (str, end) = counted(s, off, min, max)->0;
            &&& min <= str.len() <= max
            &&& off + 4 <= end <= s.len()
            &&& counted_bytes(str) == s.subrange(off, end)
        }),
{
    let (str, end) = counted(s, off, min, max)->0;
    law_u32_read_write(s, off);
    assert(str.len() == le_u32(s, off));
    lemma_join(s, off, off + 4, end);
}

proof fn lemma_trailer_back(t: ProbeType, s: Seq<u8>, off: int, c: LoadProgSent)
    requires
        0 <= off <= s.len(),
        trailer(t, s, off) is Some,
        trailer(t, s, off)->0 == sent_trailer(t, c, trailer(t, s, off)->0.end),
    ensures
        ({
            let end = trailer(t, s, off)->0.end;
            &&& off <= end <= s.len()
            &&& trailer_fits(t, c)
            &&& trailer_bytes(t, c) == s.subrange(off, end)
        }),
{
    match t {
        ProbeType::Uprobe | ProbeType::Uretprobe => {
            lemma_counted_back(s, off, 0, UPROBE_PATH_MAX as int);
            let mid = (counted(s, off, 0, UPROBE_PATH_MAX as int)->0).1;
            lemma_u64_read_write(s, mid);
            lemma_join(s, off, mid, mid + 8);
        },
        ProbeType::UprobeBySym | ProbeType::UretprobeBySym => {
            lemma_counted_back(s, off, 1, UPROBE_BASENAME_MAX as int);
            let mid = (counted(s, off, 1, UPROBE_BASENAME_MAX as int)->0).1;
            lemma_counted_back(s, mid, 1, UPROBE_SYMBOL_MAX as int);
            let end = (counted(s, mid, 1, UPROBE_SYMBOL_MAX as int)->0).1;
            lemma_join(s, off, mid, end);
        },
        ProbeType::Usdt => {
            lemma_counted_back(s, off, 1, UPROBE_BASENAME_MAX as int);
            let mid = (counted(s, off, 1, UPROBE_BASENAME_MAX as int)->0).1;
            lemma_counted_back(s, mid, 1, UPROBE_PROVIDER_MAX as int);
            let mid2 = (counted(s, mid, 1, UPROBE_PROVIDER_MAX as int)->0).1;
            lemma_counted_back(s, mid2, 1, UPROBE_SYMBOL_MAX as int);
            let end = (counted(s, mid2, 1, UPROBE_SYMBOL_MAX as int)->0).1;
            lemma_join(s, off, mid, mid2);
            lemma_join(s, off, mid2, end);
        },
        _ => {
            assert(s.subrange(off, off) =~= Seq::<u8>::empty());
        },
    }
}

proof fn lemma_map_back(s: Seq<u8>, off: int)
    requires
        0 <= off,
        off + 24 <= s.len(),
    ensures
        map_bytes(MapDef::at(s, off)) == s.subrange(off, off + 24),
{
    law_signed_round_trip(0, le_u32(s, off + 16), 0, 0);
    law_u32_read_write(s, off);
    law_u32_read_write(s, off + 4);
    law_u32_read_write(s, off + 8);
    law_u32_read_write(s, off + 12);
    law_u32_read_write(s, off + 16);
    law_u32_read_write(s, off + 20);
    lemma_join(s, off, off + 4, off + 8);
    lemma_join(s, off, off + 8, off + 12);
    lemma_join(s, off, off + 12, off + 16);
    lemma_join(s, off, off + 16, off + 20);
    lemma_join(s, off, off + 20, off + 24);
}

proof fn lemma_maps_back(s: Seq<u8>, off: int, n: nat)
    requires
        0 <= off,
        off + 24 * n <= s.len(),
    ensures
        maps_bytes(map_defs(s, off, n)) == s.subrange(off, off + 24 * n),
    decreases n,
{
    let maps = map_defs(s, off, n);
    if n == 0 {
        assert(s.subrange(off, off) =~= Seq::<u8>::empty());
    } else {
        lemma_maps_back(s, off, (n - 1) as nat);
        lemma_map_back(s, off + 24 * (n - 1));
        assert(maps.drop_last() =~= map_defs(s, off, (n - 1) as nat));
        lemma_join(s, off, off + 24 * (n - 1), off + 24 * n);
    }
}

proof fn lemma_insns_back(s: Seq<u8>, off: int, n: nat)
    requires
        0 <= off,
        off + 8 * n <= s.len(),
    ensures
        program_image(insns_at(s, off, n)) == s.subrange(off, off + 8 * n),
    decreases n,
{
    let insns = insns_at(s, off, n);
    if n == 0 {
        assert(s.subrange(off, off) =~= Seq::<u8>::empty());
    } else {
        lemma_insns_back(s, off, (n - 1) as nat);
        law_insn_read_write(s, off + 8 * (n - 1));
        assert(insns.drop_last() =~= insns_at(s, off, (n - 1) as nat));
        lemma_join(s, off, off + 8 * (n - 1), off + 8 * n);
    }
}

proof fn lemma_relocs_back(s: Seq<u8>, off: int, n: nat, num_insns: u32)
    requires
        0 <= off <= s.len(),
        relocs_at(s, off, n, num_insns) is Some,
    ensures
        ({
            let (rs, end) = relocs_at(s, off, n, num_insns)->0;
            off <= end <= s.len() && relocs_bytes(rs) == s.subrange(off, end)
        }),
    decreases n,
{
    let (rs, end) = relocs_at(s, off, n, num_insns)->0;
    if n == 0 {
        assert(s.subrange(off, off) =~= Seq::<u8>::empty());
    } else {
        let mid = off + 5 + s[off + 4];
        lemma_relocs_back(s, mid, (n - 1) as nat, num_insns);
        let rest = (relocs_at(s, mid, (n - 1) as nat, num_insns)->0).0;
        assert(rs.skip(1) =~= rest);
        law_u32_read_write(s, off);
        assert(seq![s[off + 4]] =~= s.subrange(off + 4, off + 5));
        lemma_join(s, off, off + 4, off + 5);
        lemma_join(s, off, off + 5, mid);
        lemma_join(s, off, mid, end);
    }
}

/// What the parser says of a body, as its sender would have put it.
pub open spec fn as_sent(body: Seq<u8>, v: LoadProgView) -> LoadProgSent {
    LoadProgSent {
        target_name: v.target_name,
        flags: v.flags,
        path: v.trailer.path,
        basename: v.trailer.basename,
        provider: v.trailer.provider,
        symbol: v.trailer.symbol,
        file_offset: v.trailer.file_offset,
        maps: map_defs(body, v.maps_off, v.num_maps as nat),
        insns: insns_at(body, v.insns_off, v.num_insns as nat),
        relocs: (relocs_at(body, v.relocs_off + 4, v.num_relocs as nat, v.num_insns)->0).0,
    }
}

/// The parser accepts nothing else: a command that it accepts begins, header and
/// body, with the encoding of a valid command, namely of what it reads in it.
#[verifier::rlimit(60)]
pub proof fn law_parser_accepts_only_what_is_sent(codes: ProbeTypeCodes, cmd: Seq<u8>)
    requires
        load_prog_content(codes, cmd) is Some,
    ensures
        ({
            let n = le_u32(cmd, 4) as int;
            let body = cmd.subrange(8, 8 + n);
            let c = as_sent(body, load_prog_content(codes, cmd)->0);
            let sent = body_bytes(codes, c);
            &&& 8 + n <= cmd.len()
            &&& c.valid(codes)
            &&& sent.len() <= n
            &&& body.take(sent.len() as int) == sent
        }),
{
    let n = le_u32(cmd, 4) as int;
    let body = cmd.subrange(8, 8 + n);
    let v = load_prog_content(codes, cmd)->0;
    let c = as_sent(body, v);
    let t = c.family(codes);
    assert(body_of(cmd) == Some(body));
    lemma_trailer_back(t, body, 40, c);
    lemma_maps_back(body, v.maps_off, v.num_maps as nat);
    lemma_insns_back(body, v.insns_off, v.num_insns as nat);
    lemma_relocs_back(body, v.relocs_off + 4, v.num_relocs as nat, v.num_insns);
    law_relocs_are_valid(body, v.relocs_off + 4, v.num_relocs as nat, v.num_insns);
    law_u32_read_write(body, 0);
    law_u32_read_write(body, 36);
    law_u32_read_write(body, v.insns_header_off);
    law_u32_read_write(body, v.relocs_off);
    let end = (relocs_at(body, v.relocs_off + 4, v.num_relocs as nat, v.num_insns)->0).1;
    lemma_join(body, 0, 4, 36);
    lemma_join(body, 0, 36, 40);
    lemma_join(body, 0, 40, v.maps_off);
    lemma_join(body, 0, v.maps_off, v.insns_header_off);
    lemma_join(body, 0, v.insns_header_off, v.insns_off);
    lemma_join(body, 0, v.insns_off, v.relocs_off);
    lemma_join(body, 0, v.relocs_off, v.relocs_off + 4);
    lemma_join(body, 0, v.relocs_off + 4, end);
    assert(body.take(end) =~= body.subrange(0, end));
}

/// The caps of the format.
pub proof fn law_caps_of_the_format(t: ProbeType, c: LoadProgSent)
    ensures
        t == ProbeType::Uprobe || t == ProbeType::Uretprobe ==> (trailer_fits(t, c)
            <==> c.path.len() <= 256),
        t == ProbeType::UprobeBySym || t == ProbeType::UretprobeBySym ==> (trailer_fits(t, c) <==> 1
            <= c.basename.len() <= 64 && 1 <= c.symbol.len() <= 256),
        t == ProbeType::Usdt ==> (trailer_fits(t, c) <==> 1 <= c.basename.len() <= 64 && 1
            <= c.provider.len() <= 64 && 1 <= c.symbol.len() <= 256),
        MAX_MAPS_PER_PROG == 8,
        TARGET_NAME_LEN == 32,
{
}

/// A load begins with what was sent: the maps, instructions and relocations of
/// the command, the family that the lowest byte of its flags names, the name of
/// its target without the padding, and the next free slot.
pub proof fn law_a_load_begins_with_what_was_sent(
    codes: ProbeTypeCodes,
    op: u32,
    c: LoadProgSent,
    behind: Seq<u8>,
    slot: int,
    name: Seq<u8>,
    padding: Seq<u8>,
)
    requires
        c.valid(codes),
        c.target_name == name + padding,
        forall|i: int| 0 <= i < name.len() ==> #[trigger] name[i] != 0,
        padding.len() > 0 ==> padding[0] == 0,
    ensures
        ({
            let cmd = cmd_bytes(op, body_bytes(codes, c)) + behind;
            let s = initial_state(codes, cmd, load_prog_content(codes, cmd)->0, slot);
            &&& s.maps == c.maps
            &&& s.insns == c.insns
            &&& s.relocs == c.relocs
            &&& s.family == codes.family((c.flags % 256) as u8)
            &&& s.target == name
            &&& s.slot == slot
            &&& s.to_close.len() == 0
            &&& s.detail.len() == 0
        }),
{
    law_parser_reads_back(codes, op, c, behind);
    let z = first_nul(c.target_name);
    lemma_first_nul(c.target_name);
    if z < name.len() {
        assert(c.target_name[z] == name[z]);
    }
    if z > name.len() {
        assert(c.target_name[name.len() as int] == padding[0]);
    }
    assert(c.target_name.take(z) =~= name);
}

} // verus!
