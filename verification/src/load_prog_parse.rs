//! Bounded parser for program-load command payloads.
//!
//! The parser is the single source of truth for the byte layout of a
//! program-load command.  It validates every read against the declared length
//! and returns the offsets, counts and trailer strings that the loader needs.
//!
//! The body of a command, all little-endian:
//!
//! ```text
//! u32 num_maps | [u8; 32] target_name | u32 flags (low byte: probe type)
//! trailer of the probe family (counted strings, file offset)
//! num_maps * MapDef
//! u32 num_insns | num_insns * BpfInsn
//! u32 num_relocs | num_relocs * (u32 insn_idx, u8 name_len, name)
//! ```

use vstd::prelude::*;

use crate::bpf_consts::{BPF_LD_IMM64, BPF_PSEUDO_MAP_FD};
use crate::bytes::{le_u32, le_u64, read_u32_le_unaligned, read_u64_le_unaligned};
use crate::errno::EINVAL;
use crate::types::{BifrostCmd, BpfInsn, MapDef, BPF_INSN_WIRE_SIZE, CMD_HDR, MAP_DEF_WIRE_SIZE};
use crate::wire::{ProbeType, ProbeTypeCodes};

verus! {

pub const UPROBE_PATH_MAX: usize = 256;

pub const UPROBE_BASENAME_MAX: usize = 64;

pub const UPROBE_SYMBOL_MAX: usize = 256;

pub const UPROBE_PROVIDER_MAX: usize = 64;

/// Cap on the maps of one program.
pub const MAX_MAPS_PER_PROG: usize = 8;

pub const TARGET_NAME_LEN: usize = 32;

/// `num_maps`, `target_name` and `flags`.
pub const FIXED: usize = 40;

/// Offsets, lengths and extracted strings of one validated command.
///
/// Every offset counts from the first byte after the command header.  The
/// string buffers are NUL-padded to one byte more than their longest content.
pub struct LoadProgLayout {
    pub num_maps: u32,
    pub target_name: Vec<u8>,
    pub flags: u32,
    pub probe_type: u8,
    pub maps_off: usize,
    pub insns_header_off: usize,
    pub insns_off: usize,
    pub num_insns: u32,
    pub relocs_off: usize,
    pub num_relocs: u32,
    pub uprobe_path_buf: Vec<u8>,
    pub uprobe_path_len: usize,
    pub uprobe_basename: Vec<u8>,
    pub uprobe_basename_len: usize,
    pub uprobe_symbol: Vec<u8>,
    pub uprobe_symbol_len: usize,
    pub uprobe_provider: Vec<u8>,
    pub uprobe_provider_len: usize,
    pub uprobe_file_offset: u64,
}

/// What the trailer of a probe family says, and where it ends.
pub struct TrailerView {
    pub path: Seq<u8>,
    pub basename: Seq<u8>,
    pub provider: Seq<u8>,
    pub symbol: Seq<u8>,
    pub file_offset: u64,
    pub end: int,
}

/// One relocation: the instruction to patch and the kernel function to call.
pub struct RelocView {
    pub insn_idx: u32,
    pub name: Seq<u8>,
}

/// The content of a well-formed program-load command.
pub struct LoadProgView {
    pub num_maps: u32,
    pub target_name: Seq<u8>,
    pub flags: u32,
    pub trailer: TrailerView,
    pub maps_off: int,
    pub insns_header_off: int,
    pub insns_off: int,
    pub num_insns: u32,
    pub relocs_off: int,
    pub num_relocs: u32,
}

/// `s` followed by zero bytes up to length `n`.
pub open spec fn padded(s: Seq<u8>, n: nat) -> Seq<u8> {
    Seq::new(
        n,
        |i: int|
            if i < s.len() {
                s[i]
            } else {
                0
            },
    )
}

impl LoadProgLayout {
    /// Each string buffer has its full size, holds its string first and zeros after it.
    pub open spec fn wf(&self) -> bool {
        &&& self.target_name@.len() == TARGET_NAME_LEN
        &&& self.probe_type == (self.flags % 0x100) as u8
        &&& self.uprobe_path_len <= UPROBE_PATH_MAX
        &&& self.uprobe_basename_len <= UPROBE_BASENAME_MAX
        &&& self.uprobe_symbol_len <= UPROBE_SYMBOL_MAX
        &&& self.uprobe_provider_len <= UPROBE_PROVIDER_MAX
        &&& self.uprobe_path_buf@ == padded(self.path(), (UPROBE_PATH_MAX + 1) as nat)
        &&& self.uprobe_basename@ == padded(self.basename(), (UPROBE_BASENAME_MAX + 1) as nat)
        &&& self.uprobe_symbol@ == padded(self.symbol(), (UPROBE_SYMBOL_MAX + 1) as nat)
        &&& self.uprobe_provider@ == padded(self.provider(), (UPROBE_PROVIDER_MAX + 1) as nat)
    }

    pub open spec fn path(&self) -> Seq<u8> {
        self.uprobe_path_buf@.take(self.uprobe_path_len as int)
    }

    pub open spec fn basename(&self) -> Seq<u8> {
        self.uprobe_basename@.take(self.uprobe_basename_len as int)
    }

    pub open spec fn symbol(&self) -> Seq<u8> {
        self.uprobe_symbol@.take(self.uprobe_symbol_len as int)
    }

    pub open spec fn provider(&self) -> Seq<u8> {
        self.uprobe_provider@.take(self.uprobe_provider_len as int)
    }

    /// The layout says what `v` says.
    pub open spec fn says(&self, v: LoadProgView) -> bool {
        &&& self.wf()
        &&& self.num_maps == v.num_maps
        &&& self.target_name@ == v.target_name
        &&& self.flags == v.flags
        &&& self.path() == v.trailer.path
        &&& self.basename() == v.trailer.basename
        &&& self.symbol() == v.trailer.symbol
        &&& self.provider() == v.trailer.provider
        &&& self.uprobe_file_offset == v.trailer.file_offset
        &&& self.maps_off == v.maps_off
        &&& self.insns_header_off == v.insns_header_off
        &&& self.insns_off == v.insns_off
        &&& self.num_insns == v.num_insns
        &&& self.relocs_off == v.relocs_off
        &&& self.num_relocs == v.num_relocs
    }

    /// The layout of an empty command.
    pub fn zeroed() -> (r: Self)
        ensures
            r.wf(),
            r.num_maps == 0,
            r.target_name@ == padded(Seq::empty(), TARGET_NAME_LEN as nat),
            r.flags == 0,
            r.path() == Seq::<u8>::empty(),
            r.basename() == Seq::<u8>::empty(),
            r.symbol() == Seq::<u8>::empty(),
            r.provider() == Seq::<u8>::empty(),
            r.uprobe_file_offset == 0,
            r.maps_off == 0,
            r.insns_header_off == 0,
            r.insns_off == 0,
            r.num_insns == 0,
            r.relocs_off == 0,
            r.num_relocs == 0,
    {
        let none: [u8; 0] = [];
        let r = LoadProgLayout {
            num_maps: 0,
            target_name: padded_copy(&none, 0, 0, TARGET_NAME_LEN),
            flags: 0,
            probe_type: 0,
            maps_off: 0,
            insns_header_off: 0,
            insns_off: 0,
            num_insns: 0,
            relocs_off: 0,
            num_relocs: 0,
            uprobe_path_buf: padded_copy(&none, 0, 0, UPROBE_PATH_MAX + 1),
            uprobe_path_len: 0,
            uprobe_basename: padded_copy(&none, 0, 0, UPROBE_BASENAME_MAX + 1),
            uprobe_basename_len: 0,
            uprobe_symbol: padded_copy(&none, 0, 0, UPROBE_SYMBOL_MAX + 1),
            uprobe_symbol_len: 0,
            uprobe_provider: padded_copy(&none, 0, 0, UPROBE_PROVIDER_MAX + 1),
            uprobe_provider_len: 0,
            uprobe_file_offset: 0,
        };
        assert(none@.subrange(0, 0) =~= Seq::<u8>::empty());
        assert(r.path() =~= Seq::<u8>::empty());
        assert(r.basename() =~= Seq::<u8>::empty());
        assert(r.symbol() =~= Seq::<u8>::empty());
        assert(r.provider() =~= Seq::<u8>::empty());
        r
    }
}

/// A string at `off` with a `u32` length before it, of `min` to `max` bytes:
/// the string and where it ends.
pub open spec fn counted(body: Seq<u8>, off: int, min: int, max: int) -> Option<(Seq<u8>, int)> {
    if off + 4 > body.len() {
        None
    } else {
        let n = le_u32(body, off) as int;
        if min <= n <= max && off + 4 + n <= body.len() {
            Some((body.subrange(off + 4, off + 4 + n), off + 4 + n))
        } else {
            None
        }
    }
}

pub open spec fn empty_trailer(end: int) -> TrailerView {
    TrailerView {
        path: Seq::empty(),
        basename: Seq::empty(),
        provider: Seq::empty(),
        symbol: Seq::empty(),
        file_offset: 0,
        end,
    }
}

/// The trailer that a command of family `t` carries at `off`.  Only the
/// user-space families have one.  In particular a command for a profile timer
/// carries no period: its file offset, from which the period is taken when the
/// timer is attached, is 0, and a period of 0 is refused there.
pub open spec fn trailer(t: ProbeType, body: Seq<u8>, off: int) -> Option<TrailerView> {
    match t {
        ProbeType::Uprobe | ProbeType::Uretprobe => match counted(
            body,
            off,
            0,
            UPROBE_PATH_MAX as int,
        ) {
            Some((path, end)) if end + 8 <= body.len() => Some(
                TrailerView {
                    path,
                    file_offset: le_u64(body, end),
                    ..empty_trailer(end + 8)
                },
            ),
            _ => None,
        },
        ProbeType::UprobeBySym | ProbeType::UretprobeBySym => match counted(
            body,
            off,
            1,
            UPROBE_BASENAME_MAX as int,
        ) {
            Some((basename, mid)) => match counted(body, mid, 1, UPROBE_SYMBOL_MAX as int) {
                Some((symbol, end)) => Some(
                    TrailerView { basename, symbol, ..empty_trailer(end) },
                ),
                None => None,
            },
            None => None,
        },
        ProbeType::Usdt => match counted(body, off, 1, UPROBE_BASENAME_MAX as int) {
            Some((basename, mid)) => match counted(body, mid, 1, UPROBE_PROVIDER_MAX as int) {
                Some((provider, mid2)) => match counted(body, mid2, 1, UPROBE_SYMBOL_MAX as int) {
                    Some((symbol, end)) => Some(
                        TrailerView { basename, provider, symbol, ..empty_trailer(end) },
                    ),
                    None => None,
                },
                None => None,
            },
            None => None,
        },
        _ => Some(empty_trailer(off)),
    }
}

/// The `n` map definitions that stand at `off`.
pub open spec fn map_defs(body: Seq<u8>, off: int, n: nat) -> Seq<MapDef> {
    Seq::new(n, |i: int| MapDef::at(body, off + MAP_DEF_WIRE_SIZE * i))
}

/// The `n` instructions that stand at `off`.
pub open spec fn insns_at(body: Seq<u8>, off: int, n: nat) -> Seq<BpfInsn> {
    Seq::new(n, |i: int| BpfInsn::at(body, off + BPF_INSN_WIRE_SIZE * i))
}

/// Whether `insn` is the first half of a map load.
pub open spec fn is_map_load(insn: BpfInsn) -> bool {
    insn.code == BPF_LD_IMM64 && insn.src() == BPF_PSEUDO_MAP_FD
}

/// Reading on from instruction `idx`, every map load has its second half.
pub open spec fn pairs_complete(insns: Seq<BpfInsn>, idx: int) -> bool
    decreases insns.len() - idx,
{
    if idx < 0 || idx >= insns.len() {
        true
    } else if is_map_load(insns[idx]) {
        idx + 1 < insns.len() && pairs_complete(insns, idx + 2)
    } else {
        pairs_complete(insns, idx + 1)
    }
}

/// The `n` relocations that stand at `off`, each with a name and an
/// instruction below `num_insns`; and where they end.
pub open spec fn relocs_at(body: Seq<u8>, off: int, n: nat, num_insns: u32) -> Option<
    (Seq<RelocView>, int),
>
    decreases n,
{
    if n == 0 {
        Some((Seq::empty(), off))
    } else if off + 5 > body.len() {
        None
    } else {
        let insn_idx = le_u32(body, off);
        let name_len = body[off + 4] as int;
        let end = off + 5 + name_len;
        if name_len == 0 || end > body.len() || insn_idx >= num_insns {
            None
        } else {
            let first = RelocView { insn_idx, name: body.subrange(off + 5, end) };
            match relocs_at(body, end, (n - 1) as nat, num_insns) {
                Some((rest, last)) => Some((seq![first] + rest, last)),
                None => None,
            }
        }
    }
}

/// The body that the header of `cmd` declares, if `cmd` holds that much.
pub open spec fn body_of(cmd: Seq<u8>) -> Option<Seq<u8>> {
    if cmd.len() < CMD_HDR {
        None
    } else {
        let declared = BifrostCmd::at_start(cmd).len as int;
        if CMD_HDR + declared <= cmd.len() {
            Some(cmd.subrange(CMD_HDR as int, CMD_HDR + declared))
        } else {
            None
        }
    }
}

/// The content of body `body`, if it is well-formed.
pub open spec fn parse_body(codes: ProbeTypeCodes, body: Seq<u8>) -> Option<LoadProgView> {
    if body.len() < FIXED {
        None
    } else {
        let num_maps = le_u32(body, 0);
        let flags = le_u32(body, 36);
        let t = codes.family((flags % 0x100) as u8);
        match trailer(t, body, FIXED as int) {
            None => None,
            Some(tr) => {
                let maps_off = tr.end;
                let header_off = maps_off + MAP_DEF_WIRE_SIZE * num_maps;
                let insns_off = header_off + 4;
                let num_insns = le_u32(body, header_off);
                let relocs_off = insns_off + BPF_INSN_WIRE_SIZE * num_insns;
                let num_relocs = le_u32(body, relocs_off);
                if {
                    &&& num_maps <= MAX_MAPS_PER_PROG
                    &&& insns_off <= body.len()
                    &&& relocs_off + 4 <= body.len()
                    &&& pairs_complete(insns_at(body, insns_off, num_insns as nat), 0)
                    &&& relocs_at(body, relocs_off + 4, num_relocs as nat, num_insns) is Some
                } {
                    Some(
                        LoadProgView {
                            num_maps,
                            target_name: body.subrange(4, 36),
                            flags,
                            trailer: tr,
                            maps_off,
                            insns_header_off: header_off,
                            insns_off,
                            num_insns,
                            relocs_off,
                            num_relocs,
                        },
                    )
                } else {
                    None
                }
            },
        }
    }
}

/// The content of command `cmd`, if it is well-formed.
pub open spec fn load_prog_content(codes: ProbeTypeCodes, cmd: Seq<u8>) -> Option<LoadProgView> {
    match body_of(cmd) {
        Some(body) => parse_body(codes, body),
        None => None,
    }
}

/// Copy `src[start..end]` and pad it with zeros to length `n`.
pub fn padded_copy(src: &[u8], start: usize, end: usize, n: usize) -> (r: Vec<u8>)
    requires
        start <= end <= src@.len(),
    ensures
        r@ == padded(src@.subrange(start as int, end as int), n as nat),
{
    let mut r: Vec<u8> = Vec::new();
    let ghost want = padded(src@.subrange(start as int, end as int), n as nat);
    let mut i: usize = 0;
    while i < n
        invariant
            start <= end <= src@.len(),
            i <= n,
            want == padded(src@.subrange(start as int, end as int), n as nat),
            r@ == want.take(i as int),
        decreases n - i,
    {
        if i < end - start {
            r.push(src[start + i]);
        } else {
            r.push(0);
        }
        i += 1;
        assert(r@ =~= want.take(i as int));
    }
    assert(want.take(n as int) =~= want);
    r
}

/// A string that was padded is what stands before the padding.
proof fn lemma_padded(s: Seq<u8>, n: nat)
    requires
        s.len() <= n,
    ensures
        padded(s, n).take(s.len() as int) == s,
{
    assert(padded(s, n).take(s.len() as int) =~= s);
}

/// Read a counted string: where it starts and ends.
fn read_counted(body: &[u8], off: usize, min: usize, max: usize) -> (r: Option<(usize, usize)>)
    requires
        off <= body@.len(),
    ensures
        match r {
            Some((start, end)) => start <= end <= body@.len() && end - start <= max && counted(
                body@,
                off as int,
                min as int,
                max as int,
            ) == Some((body@.subrange(start as int, end as int), end as int)),
            None => counted(body@, off as int, min as int, max as int) is None,
        },
{
    let limit: usize = body.len();
    if limit - off < 4 {
        return None;
    }
    let n32: u32 = read_u32_le_unaligned(body, off);
    let n: usize = n32 as usize;
    let start: usize = off + 4;
    if n < min || n > max || n > limit - start {
        return None;
    }
    Some((start, start + n))
}

/// Read the trailer of family `t` into `layout`; where it ends.
fn read_trailer(t: ProbeType, body: &[u8], layout: &mut LoadProgLayout) -> (r: Option<usize>)
    requires
        body@.len() >= FIXED,
        old(layout).wf(),
        old(layout).path() == Seq::<u8>::empty(),
        old(layout).basename() == Seq::<u8>::empty(),
        old(layout).symbol() == Seq::<u8>::empty(),
        old(layout).provider() == Seq::<u8>::empty(),
        old(layout).uprobe_file_offset == 0,
    ensures
        match r {
            Some(end) => {
                &&& end <= body@.len()
                &&& trailer(t, body@, FIXED as int) matches Some(tr)
                &&& tr.end == end
                &&& final(layout).wf()
                &&& final(layout).path() == tr.path
                &&& final(layout).basename() == tr.basename
                &&& final(layout).symbol() == tr.symbol
                &&& final(layout).provider() == tr.provider
                &&& final(layout).uprobe_file_offset == tr.file_offset
                &&& final(layout).num_maps == old(layout).num_maps
                &&& final(layout).flags == old(layout).flags
                &&& final(layout).target_name@ == old(layout).target_name@
            },
            None => trailer(t, body@, FIXED as int) is None,
        },
{
    match t {
        ProbeType::Uprobe | ProbeType::Uretprobe => {
            match read_counted(body, FIXED, 0, UPROBE_PATH_MAX) {
                Some((start, end)) => {
                    if body.len() - end < 8 {
                        return None;
                    }
                    proof {
                        lemma_padded(
                            body@.subrange(start as int, end as int),
                            (UPROBE_PATH_MAX + 1) as nat,
                        );
                    }
                    layout.uprobe_path_buf = padded_copy(body, start, end, UPROBE_PATH_MAX + 1);
                    layout.uprobe_path_len = end - start;
                    layout.uprobe_file_offset = read_u64_le_unaligned(body, end);
                    Some(end + 8)
                },
                None => None,
            }
        },
        ProbeType::UprobeBySym | ProbeType::UretprobeBySym => {
            let (bs, be): (usize, usize) = match read_counted(body, FIXED, 1, UPROBE_BASENAME_MAX) {
                Some(p) => p,
                None => return None,
            };
            let (ss, se): (usize, usize) = match read_counted(body, be, 1, UPROBE_SYMBOL_MAX) {
                Some(p) => p,
                None => return None,
            };
            proof {
                lemma_padded(
                    body@.subrange(bs as int, be as int),
                    (UPROBE_BASENAME_MAX + 1) as nat,
                );
                lemma_padded(
                    body@.subrange(ss as int, se as int),
                    (UPROBE_SYMBOL_MAX + 1) as nat,
                );
            }
            layout.uprobe_basename = padded_copy(body, bs, be, UPROBE_BASENAME_MAX + 1);
            layout.uprobe_basename_len = be - bs;
            layout.uprobe_symbol = padded_copy(body, ss, se, UPROBE_SYMBOL_MAX + 1);
            layout.uprobe_symbol_len = se - ss;
            Some(se)
        },
        ProbeType::Usdt => {
            let (bs, be): (usize, usize) = match read_counted(body, FIXED, 1, UPROBE_BASENAME_MAX) {
                Some(p) => p,
                None => return None,
            };
            let (ps, pe): (usize, usize) = match read_counted(body, be, 1, UPROBE_PROVIDER_MAX) {
                Some(p) => p,
                None => return None,
            };
            let (ss, se): (usize, usize) = match read_counted(body, pe, 1, UPROBE_SYMBOL_MAX) {
                Some(p) => p,
                None => return None,
            };
            proof {
                lemma_padded(
                    body@.subrange(bs as int, be as int),
                    (UPROBE_BASENAME_MAX + 1) as nat,
                );
                lemma_padded(
                    body@.subrange(ps as int, pe as int),
                    (UPROBE_PROVIDER_MAX + 1) as nat,
                );
                lemma_padded(
                    body@.subrange(ss as int, se as int),
                    (UPROBE_SYMBOL_MAX + 1) as nat,
                );
            }
            layout.uprobe_basename = padded_copy(body, bs, be, UPROBE_BASENAME_MAX + 1);
            layout.uprobe_basename_len = be - bs;
            layout.uprobe_provider = padded_copy(body, ps, pe, UPROBE_PROVIDER_MAX + 1);
            layout.uprobe_provider_len = pe - ps;
            layout.uprobe_symbol = padded_copy(body, ss, se, UPROBE_SYMBOL_MAX + 1);
            layout.uprobe_symbol_len = se - ss;
            Some(se)
        },
        _ => Some(FIXED),
    }
}

/// Walk the instructions and check that every map load has its second half.
fn check_pairs(body: &[u8], insns_off: usize, num_insns: usize) -> (ok: bool)
    requires
        insns_off + BPF_INSN_WIRE_SIZE * num_insns <= body@.len(),
    ensures
        ok == pairs_complete(insns_at(body@, insns_off as int, num_insns as nat), 0),
{
    let ghost insns = insns_at(body@, insns_off as int, num_insns as nat);
    assert(body@.len() == body.len());
    let mut idx: usize = 0;
    while idx < num_insns
        invariant
            body@.len() == body.len(),
            insns_off + BPF_INSN_WIRE_SIZE * num_insns <= body@.len(),
            insns == insns_at(body@, insns_off as int, num_insns as nat),
            pairs_complete(insns, 0) == pairs_complete(insns, idx as int),
        decreases num_insns - idx,
    {
        let insn = BpfInsn::read_le_unaligned(body, insns_off + idx * BPF_INSN_WIRE_SIZE);
        assert(insn == insns[idx as int]);
        if insn.code == BPF_LD_IMM64 && insn.src_reg() == BPF_PSEUDO_MAP_FD {
            if idx + 1 >= num_insns {
                return false;
            }
            idx += 2;
        } else {
            idx += 1;
        }
    }
    true
}

/// Walk the relocations and check each against the body and the instruction count.
fn check_relocs(body: &[u8], off: usize, num_relocs: u32, num_insns: u32) -> (ok: bool)
    requires
        off <= body@.len(),
    ensures
        ok == (relocs_at(body@, off as int, num_relocs as nat, num_insns) is Some),
{
    let limit: usize = body.len();
    let mut cur: usize = off;
    let mut k: u32 = 0;
    while k < num_relocs
        invariant
            limit == body@.len(),
            cur <= limit,
            k <= num_relocs,
            (relocs_at(body@, off as int, num_relocs as nat, num_insns) is Some) == (relocs_at(
                body@,
                cur as int,
                (num_relocs - k) as nat,
                num_insns,
            ) is Some),
        decreases num_relocs - k,
    {
        if limit - cur < 5 {
            return false;
        }
        let insn_idx: u32 = read_u32_le_unaligned(body, cur);
        let name_len: usize = body[cur + 4] as usize;
        cur += 5;
        if name_len == 0 || name_len > limit - cur {
            return false;
        }
        if insn_idx >= num_insns {
            return false;
        }
        cur += name_len;
        k += 1;
    }
    true
}

/// Parse and validate a program-load command.
///
/// `cmd` is the whole received command, header included.  A command that is
/// not well-formed is refused with `-EINVAL`.
pub fn parse_load_prog(codes: &ProbeTypeCodes, cmd: &[u8]) -> (r: Result<LoadProgLayout, i32>)
    ensures
        match r {
            Ok(layout) => load_prog_content(*codes, cmd@) matches Some(v) && layout.says(v),
            Err(e) => e == -EINVAL && load_prog_content(*codes, cmd@) is None,
        },
{
    if cmd.len() < CMD_HDR {
        return Err(-EINVAL);
    }
    let hdr = BifrostCmd::read_le_unaligned(cmd);
    let declared: usize = hdr.len as usize;
    let avail: usize = cmd.len() - CMD_HDR;
    if declared > avail || declared < FIXED {
        return Err(-EINVAL);
    }
    let body: &[u8] = vstd::slice::slice_subrange(cmd, CMD_HDR, CMD_HDR + declared);
    let limit: usize = body.len();
    assert(body_of(cmd@) == Some(body@));

    let mut layout = LoadProgLayout::zeroed();
    layout.num_maps = read_u32_le_unaligned(body, 0);
    layout.target_name = padded_copy(body, 4, 36, TARGET_NAME_LEN);
    assert(layout.target_name@ =~= body@.subrange(4, 36));
    layout.flags = read_u32_le_unaligned(body, 36);
    layout.probe_type = (layout.flags % 0x100) as u8;

    let t = codes.probe_type(layout.probe_type);
    let maps_off: usize = match read_trailer(t, body, &mut layout) {
        Some(end) => end,
        None => return Err(-EINVAL),
    };
    layout.probe_type = (layout.flags % 0x100) as u8;

    if layout.num_maps as usize > MAX_MAPS_PER_PROG {
        return Err(-EINVAL);
    }
    let map_bytes: usize = layout.num_maps as usize * MAP_DEF_WIRE_SIZE;
    if map_bytes > limit - maps_off {
        return Err(-EINVAL);
    }
    layout.maps_off = maps_off;
    let header_off: usize = maps_off + map_bytes;

    if limit - header_off < 4 {
        return Err(-EINVAL);
    }
    layout.insns_header_off = header_off;
    layout.num_insns = read_u32_le_unaligned(body, header_off);
    let insns_off: usize = header_off + 4;
    let insn_bytes: u64 = layout.num_insns as u64 * BPF_INSN_WIRE_SIZE as u64;
    if insn_bytes > (limit - insns_off) as u64 {
        return Err(-EINVAL);
    }
    layout.insns_off = insns_off;
    if !check_pairs(body, insns_off, layout.num_insns as usize) {
        return Err(-EINVAL);
    }
    let relocs_off: usize = insns_off + insn_bytes as usize;

    if limit - relocs_off < 4 {
        return Err(-EINVAL);
    }
    layout.relocs_off = relocs_off;
    layout.num_relocs = read_u32_le_unaligned(body, relocs_off);
    if !check_relocs(body, relocs_off + 4, layout.num_relocs, layout.num_insns) {
        return Err(-EINVAL);
    }
    Ok(layout)
}

/// The parts of an accepted command follow one another: fixed fields, trailer,
/// map definitions, instruction count, instructions, relocations; all of it
/// within the declared body, and no map load is cut in half.
pub proof fn law_parts_lie_within_the_body(codes: ProbeTypeCodes, cmd: Seq<u8>)
    requires
        load_prog_content(codes, cmd) is Some,
    ensures
        ({
            let v = load_prog_content(codes, cmd)->0;
            let body = body_of(cmd)->0;
            &&& CMD_HDR + body.len() <= cmd.len()
            &&& FIXED <= v.maps_off
            &&& v.num_maps <= MAX_MAPS_PER_PROG
            &&& v.insns_header_off == v.maps_off + MAP_DEF_WIRE_SIZE * v.num_maps
            &&& v.insns_off == v.insns_header_off + 4
            &&& v.relocs_off == v.insns_off + BPF_INSN_WIRE_SIZE * v.num_insns
            &&& v.relocs_off + 4 <= body.len()
            &&& pairs_complete(insns_at(body, v.insns_off, v.num_insns as nat), 0)
        }),
{
}

/// The relocations of an accepted command lie within its body, each names an
/// instruction of the program, and each name has 1 to 255 bytes.
pub proof fn law_relocs_are_valid(body: Seq<u8>, off: int, n: nat, num_insns: u32)
    requires
        0 <= off <= body.len(),
        relocs_at(body, off, n, num_insns) is Some,
    ensures
        ({
            let (rs, end) = relocs_at(body, off, n, num_insns)->0;
            &&& rs.len() == n
            &&& off <= end <= body.len()
            &&& forall|i: int|
                0 <= i < n ==> (#[trigger] rs[i]).insn_idx < num_insns && 1 <= rs[i].name.len()
                    <= 255
        }),
    decreases n,
{
    if n > 0 {
        let end = off + 5 + body[off + 4];
        law_relocs_are_valid(body, end, (n - 1) as nat, num_insns);
        let (rest, _) = relocs_at(body, end, (n - 1) as nat, num_insns)->0;
        let (rs, _) = relocs_at(body, off, n, num_insns)->0;
        assert forall|i: int| 0 <= i < n implies (#[trigger] rs[i]).insn_idx < num_insns && 1
            <= rs[i].name.len() <= 255 by {
            if i > 0 {
                assert(rs[i] == rest[i - 1]);
            }
        }
    }
}

/// What a command says depends on nothing behind the body that it declares.
pub proof fn law_ignores_what_follows_the_body(
    codes: ProbeTypeCodes,
    cmd: Seq<u8>,
    more: Seq<u8>,
)
    requires
        body_of(cmd) is Some,
    ensures
        load_prog_content(codes, cmd + more) == load_prog_content(codes, cmd),
{
    assert(BifrostCmd::at_start(cmd + more) == BifrostCmd::at_start(cmd));
    assert(body_of(cmd + more)->0 =~= body_of(cmd)->0);
}

/// A layout that says what `v` says has each of its strings at the start of its
/// buffer, with zeros behind it so that it ends in a NUL, and each number and
/// offset as `v` has it; its probe type is the lowest byte of the flags.
pub proof fn law_what_a_layout_says(l: LoadProgLayout, v: LoadProgView, i: int)
    requires
        l.says(v),
        0 <= i,
    ensures
        l.num_maps == v.num_maps && l.flags == v.flags && l.target_name@ == v.target_name,
        l.target_name@.len() == 32,
        l.probe_type == l.flags % 256,
        l.uprobe_path_buf@.len() == 257 && l.uprobe_path_buf@.take(l.uprobe_path_len as int)
            == v.trailer.path,
        l.uprobe_basename@.len() == 65 && l.uprobe_basename@.take(l.uprobe_basename_len as int)
            == v.trailer.basename,
        l.uprobe_symbol@.len() == 257 && l.uprobe_symbol@.take(l.uprobe_symbol_len as int)
            == v.trailer.symbol,
        l.uprobe_provider@.len() == 65 && l.uprobe_provider@.take(l.uprobe_provider_len as int)
            == v.trailer.provider,
        l.uprobe_path_len <= i < 257 ==> l.uprobe_path_buf@[i] == 0,
        l.uprobe_basename_len <= i < 65 ==> l.uprobe_basename@[i] == 0,
        l.uprobe_symbol_len <= i < 257 ==> l.uprobe_symbol@[i] == 0,
        l.uprobe_provider_len <= i < 65 ==> l.uprobe_provider@[i] == 0,
        l.uprobe_file_offset == v.trailer.file_offset,
        l.maps_off == v.maps_off && l.insns_header_off == v.insns_header_off,
        l.insns_off == v.insns_off && l.num_insns == v.num_insns,
        l.relocs_off == v.relocs_off && l.num_relocs == v.num_relocs,
        l.path() == v.trailer.path && l.basename() == v.trailer.basename,
        l.symbol() == v.trailer.symbol && l.provider() == v.trailer.provider,
{
    assert(l.uprobe_path_buf@ == padded(l.path(), 257));
    assert(l.uprobe_basename@ == padded(l.basename(), 65));
    assert(l.uprobe_symbol@ == padded(l.symbol(), 257));
    assert(l.uprobe_provider@ == padded(l.provider(), 65));
}

} // verus!
