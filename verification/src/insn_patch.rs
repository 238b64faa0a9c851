//! Decoding the parts of an accepted command, and patching its instructions.

use vstd::prelude::*;

use crate::bpf_consts::{BPF_LD_IMM64, BPF_PSEUDO_MAP_FD};
use crate::bytes::read_u32_le_unaligned;
use crate::load_prog_parse::{
    insns_at, is_map_load, map_defs, pairs_complete, relocs_at, RelocView,
};
use crate::maps::{find_fd, lemma_find_fd, MapSlot, MapTable};
use crate::types::{BpfInsn, MapDef, BPF_INSN_WIRE_SIZE, MAP_DEF_WIRE_SIZE};

verus! {

/// One relocation: the instruction to patch and the kernel function to call.
pub struct Reloc {
    pub insn_idx: u32,
    pub name: Vec<u8>,
}

impl View for Reloc {
    type V = RelocView;

    open spec fn view(&self) -> RelocView {
        RelocView { insn_idx: self.insn_idx, name: self.name@ }
    }
}

/// What a list of relocations says.
pub open spec fn reloc_views(s: Seq<Reloc>) -> Seq<RelocView> {
    s.map_values(|r: Reloc| r@)
}

/// Decode the map definitions of a body.
pub fn read_map_defs(body: &[u8], off: usize, n: usize) -> (r: Vec<MapDef>)
    requires
        off + MAP_DEF_WIRE_SIZE * n <= body@.len(),
    ensures
        r@ == map_defs(body@, off as int, n as nat),
{
    assert(body@.len() == body.len());
    let mut r: Vec<MapDef> = Vec::new();
    let mut i: usize = 0;
    while i < n
        invariant
            body@.len() == body.len(),
            off + MAP_DEF_WIRE_SIZE * n <= body@.len(),
            i <= n,
            r@ == map_defs(body@, off as int, i as nat),
        decreases n - i,
    {
        r.push(MapDef::read_le_unaligned(body, off + i * MAP_DEF_WIRE_SIZE));
        i += 1;
        assert(r@ =~= map_defs(body@, off as int, i as nat));
    }
    r
}

/// Decode the instructions of a body.
pub fn read_insns(body: &[u8], off: usize, n: usize) -> (r: Vec<BpfInsn>)
    requires
        off + BPF_INSN_WIRE_SIZE * n <= body@.len(),
    ensures
        r@ == insns_at(body@, off as int, n as nat),
{
    assert(body@.len() == body.len());
    let mut r: Vec<BpfInsn> = Vec::new();
    let mut i: usize = 0;
    while i < n
        invariant
            body@.len() == body.len(),
            off + BPF_INSN_WIRE_SIZE * n <= body@.len(),
            i <= n,
            r@ == insns_at(body@, off as int, i as nat),
        decreases n - i,
    {
        r.push(BpfInsn::read_le_unaligned(body, off + i * BPF_INSN_WIRE_SIZE));
        i += 1;
        assert(r@ =~= insns_at(body@, off as int, i as nat));
    }
    r
}

/// Decode the relocations of a body.
pub fn read_relocs(body: &[u8], off: usize, n: u32, num_insns: u32) -> (r: Vec<Reloc>)
    requires
        off <= body@.len(),
        relocs_at(body@, off as int, n as nat, num_insns) is Some,
    ensures
        reloc_views(r@) == (relocs_at(body@, off as int, n as nat, num_insns)->0).0,
{
    let ghost all = (relocs_at(body@, off as int, n as nat, num_insns)->0).0;
    assert(body@.len() == body.len());
    let mut r: Vec<Reloc> = Vec::new();
    let mut cur: usize = off;
    let mut k: u32 = 0;
    assert(reloc_views(r@) + all =~= all);
    while k < n
        invariant
            body@.len() == body.len(),
            cur <= body@.len(),
            k <= n,
            relocs_at(body@, cur as int, (n - k) as nat, num_insns) is Some,
            all == reloc_views(r@) + (relocs_at(
                body@,
                cur as int,
                (n - k) as nat,
                num_insns,
            )->0).0,
        decreases n - k,
    {
        let ghost r0 = r@;
        let ghost rest0 = (relocs_at(body@, cur as int, (n - k) as nat, num_insns)->0).0;
        let insn_idx: u32 = read_u32_le_unaligned(body, cur);
        let name_len: usize = body[cur + 4] as usize;
        let start: usize = cur + 5;
        let end: usize = start + name_len;
        let name: Vec<u8> = vstd::slice::slice_to_vec(
            vstd::slice::slice_subrange(body, start, end),
        );
        let item = Reloc { insn_idx, name };
        let ghost rest = (relocs_at(body@, end as int, (n - k - 1) as nat, num_insns)->0).0;
        assert(rest0 == seq![item@] + rest);
        r.push(item);
        assert(reloc_views(r@) =~= reloc_views(r0).push(item@));
        assert(reloc_views(r0) + (seq![item@] + rest) =~= reloc_views(r0).push(item@) + rest);
        cur = end;
        k += 1;
    }
    assert(reloc_views(r@) + Seq::<RelocView>::empty() =~= reloc_views(r@));
    r
}

/// Whether reading instructions from `from` on, two at a map load and one at
/// anything else, comes to instruction `k`.
pub open spec fn walk_reaches(insns: Seq<BpfInsn>, from: int, k: int) -> bool
    decreases k + 1 - from,
{
    if from >= k {
        from == k
    } else if is_map_load(insns[from]) {
        walk_reaches(insns, from + 2, k)
    } else {
        walk_reaches(insns, from + 1, k)
    }
}

/// Whether instruction `k` is the first half of a map load.
pub open spec fn is_load_head(insns: Seq<BpfInsn>, k: int) -> bool {
    0 <= k < insns.len() && walk_reaches(insns, 0, k) && is_map_load(insns[k])
}

/// The real descriptor behind fake descriptor `fake_fd`, if the map has one.
pub open spec fn real_fd_of(live: Seq<MapSlot>, fake_fd: i32) -> Option<i32> {
    match find_fd(live, fake_fd) {
        Some(j) => if live[j].real_fd >= 0 {
            Some(live[j].real_fd)
        } else {
            None
        },
        None => None,
    }
}

/// Instruction `k` with map references resolved: the first half of a map load
/// carries the real descriptor, the second half zero.
pub open spec fn resolved_insn(insns: Seq<BpfInsn>, live: Seq<MapSlot>, k: int) -> BpfInsn {
    if is_load_head(insns, k) && real_fd_of(live, insns[k].imm) is Some {
        BpfInsn { imm: real_fd_of(live, insns[k].imm)->0, ..insns[k] }
    } else if is_load_head(insns, k - 1) && real_fd_of(live, insns[k - 1].imm) is Some {
        BpfInsn { imm: 0, ..insns[k] }
    } else {
        insns[k]
    }
}

/// The program with its map references resolved.
pub open spec fn resolved(insns: Seq<BpfInsn>, live: Seq<MapSlot>) -> Seq<BpfInsn> {
    Seq::new(insns.len(), |k: int| resolved_insn(insns, live, k))
}

proof fn lemma_walk(insns: Seq<BpfInsn>, a: int, b: int, k: int)
    requires
        walk_reaches(insns, a, b),
        b <= k,
    ensures
        walk_reaches(insns, a, k) == walk_reaches(insns, b, k),
    decreases b + 1 - a,
{
    if a < b {
        if is_map_load(insns[a]) {
            lemma_walk(insns, a + 2, b, k);
        } else {
            lemma_walk(insns, a + 1, b, k);
        }
    }
}

/// Rewrite the map references of a program from fake to real descriptors.
pub fn patch_map_fds(insns: &mut Vec<BpfInsn>, maps: &MapTable)
    requires
        maps.wf(),
    ensures
        final(insns)@ == resolved(old(insns)@, maps.live()),
{
    let ghost s = insns@;
    let ghost live = maps.live();
    let n: usize = insns.len();
    let mut idx: usize = 0;
    while idx < n
        invariant
            maps.wf(),
            live == maps.live(),
            n == s.len() == insns@.len(),
            idx <= n,
            idx < n ==> walk_reaches(s, 0, idx as int) && !is_load_head(s, idx - 1),
            forall|k: int| 0 <= k < idx ==> insns@[k] == #[trigger] resolved_insn(s, live, k),
            forall|k: int| idx <= k < n ==> insns@[k] == s[k],
        decreases n - idx,
    {
        let insn = insns[idx];
        assert(insn == s[idx as int]);
        if insn.code == BPF_LD_IMM64 && insn.src_reg() == BPF_PSEUDO_MAP_FD {
            assert(is_load_head(s, idx as int));
            assert(walk_reaches(s, idx as int, idx + 2)) by {
                assert(walk_reaches(s, idx + 2, idx + 2));
            }
            proof {
                lemma_walk(s, 0, idx as int, idx + 2);
                lemma_walk(s, 0, idx as int, idx + 1);
                assert(!walk_reaches(s, idx + 2, idx + 1));
                lemma_find_fd(live, insn.imm);
            }
            match maps.find(insn.imm) {
                Some(j) => {
                    let real_fd: i32 = maps.slots[j].real_fd;
                    assert(live[j as int] == maps.slots@[j as int]);
                    if real_fd >= 0 {
                        let mut patched = insn;
                        patched.imm = real_fd;
                        insns[idx] = patched;
                        if idx + 1 < n {
                            let mut second = insns[idx + 1];
                            second.imm = 0;
                            insns[idx + 1] = second;
                        }
                    }
                },
                None => {},
            }
            idx = if n - idx < 2 {
                n
            } else {
                idx + 2
            };
        } else {
            assert(walk_reaches(s, idx as int, idx + 1)) by {
                assert(walk_reaches(s, idx + 1, idx + 1));
            }
            proof {
                lemma_walk(s, 0, idx as int, idx + 1);
            }
            idx += 1;
        }
    }
    assert(insns@ =~= resolved(s, live));
}

/// Resolving map references changes nothing but immediates, and those only in
/// map loads.
pub proof fn law_resolving_touches_only_map_loads(
    insns: Seq<BpfInsn>,
    live: Seq<MapSlot>,
    k: int,
)
    requires
        0 <= k < insns.len(),
    ensures
        resolved(insns, live).len() == insns.len(),
        resolved(insns, live)[k].code == insns[k].code,
        resolved(insns, live)[k].regs == insns[k].regs,
        resolved(insns, live)[k].off == insns[k].off,
        !is_load_head(insns, k) && !is_load_head(insns, k - 1) ==> resolved(insns, live)[k]
            == insns[k],
{
}

/// The bytes of a program.
pub open spec fn program_image(insns: Seq<BpfInsn>) -> Seq<u8>
    decreases insns.len(),
{
    if insns.len() == 0 {
        Seq::empty()
    } else {
        program_image(insns.drop_last()) + insns.last().wire()
    }
}

/// Encode a program.
pub fn encode_program(insns: &Vec<BpfInsn>) -> (r: Vec<u8>)
    ensures
        r@ == program_image(insns@),
{
    let mut r: Vec<u8> = Vec::new();
    let mut i: usize = 0;
    let n: usize = insns.len();
    assert(insns@.take(0) =~= Seq::<BpfInsn>::empty());
    while i < n
        invariant
            i <= n == insns@.len(),
            r@ == program_image(insns@.take(i as int)),
        decreases n - i,
    {
        insns[i].push_wire(&mut r);
        assert(insns@.take(i + 1).drop_last() =~= insns@.take(i as int));
        i += 1;
    }
    assert(insns@.take(n as int) =~= insns@);
    r
}

/// Decoding an encoded program gives back its instructions.
pub proof fn law_program_image_round_trip(insns: Seq<BpfInsn>)
    ensures
        program_image(insns).len() == BPF_INSN_WIRE_SIZE * insns.len(),
        insns_at(program_image(insns), 0, insns.len()) == insns,
    decreases insns.len(),
{
    let img = program_image(insns);
    if insns.len() > 0 {
        let n = insns.len() - 1;
        let front = insns.drop_last();
        law_program_image_round_trip(front);
        let fimg = program_image(front);
        let last = insns.last();
        assert(img == fimg + last.wire());
        assert forall|i: int| 0 <= i < insns.len() implies #[trigger] insns_at(
            img,
            0,
            insns.len(),
        )[i] == insns[i] by {
            if i < n {
                assert(insns_at(fimg, 0, n as nat)[i] == front[i]);
                let o = BPF_INSN_WIRE_SIZE * i;
                assert(forall|d: int| 0 <= d < 8 ==> img[o + d] == #[trigger] fimg[o + d]);
                assert(img[o + 0] == fimg[o + 0]);
                assert(BpfInsn::at(img, o) == BpfInsn::at(fimg, o));
            } else {
                crate::types::law_insn_write_read(img, BPF_INSN_WIRE_SIZE * n, last);
                assert(crate::bytes::splice(img, BPF_INSN_WIRE_SIZE * n, last.wire()) =~= img);
            }
        }
        assert(insns_at(img, 0, insns.len()) =~= insns);
    } else {
        assert(insns_at(img, 0, insns.len()) =~= insns);
    }
}

/// The walk comes to instruction `k` unless it comes to the one before and that
/// is a map load.
proof fn lemma_walk_steps(insns: Seq<BpfInsn>, from: int, k: int)
    requires
        from < k,
    ensures
        walk_reaches(insns, from, k) <==> !(walk_reaches(insns, from, k - 1) && is_map_load(
            insns[k - 1],
        )),
    decreases k - from,
{
    reveal_with_fuel(walk_reaches, 2);
    if from < k - 1 {
        if is_map_load(insns[from]) {
            if from + 2 < k {
                lemma_walk_steps(insns, from + 2, k);
            }
        } else {
            lemma_walk_steps(insns, from + 1, k);
        }
    }
}

/// An instruction is the first half of a map load exactly if its code is `0x18`,
/// its source register is 1, and the instruction before it is not the first
/// half of one.
pub proof fn law_which_instructions_load_maps(insns: Seq<BpfInsn>, k: int)
    requires
        0 <= k < insns.len(),
    ensures
        is_load_head(insns, k) <==> insns[k].code == 0x18 && insns[k].regs / 16 == 1 && !(k > 0
            && is_load_head(insns, k - 1)),
{
    if k > 0 {
        lemma_walk_steps(insns, 0, k);
    }
}

/// A program is cut in half at a map load exactly if its last instruction is the
/// first half of one.
pub proof fn law_whole_map_loads(insns: Seq<BpfInsn>)
    ensures
        pairs_complete(insns, 0) <==> !(insns.len() > 0 && is_load_head(insns, insns.len() - 1)),
{
    if insns.len() > 0 {
        lemma_pairs(insns, 0);
    }
}

proof fn lemma_pairs(insns: Seq<BpfInsn>, idx: int)
    requires
        0 <= idx < insns.len(),
    ensures
        pairs_complete(insns, idx) <==> !(walk_reaches(insns, idx, insns.len() - 1) && is_map_load(
            insns[insns.len() - 1],
        )),
    decreases insns.len() - idx,
{
    reveal_with_fuel(walk_reaches, 2);
    reveal_with_fuel(pairs_complete, 2);
    let last = insns.len() - 1;
    if is_map_load(insns[idx]) {
        if idx + 2 <= last {
            lemma_pairs(insns, idx + 2);
        }
    } else if idx + 1 <= last {
        lemma_pairs(insns, idx + 1);
    }
}

/// A map load whose immediate is the fake descriptor of a map that has a real
/// one carries the real one, and zero in its second half; one whose map has none,
/// or that names no map, stays as it is.
pub proof fn law_map_loads_name_real_descriptors(
    insns: Seq<BpfInsn>,
    live: Seq<MapSlot>,
    k: int,
    j: int,
)
    requires
        0 <= k < insns.len(),
        is_load_head(insns, k),
        0 <= j <= live.len(),
        forall|i: int| 0 <= i < j ==> (#[trigger] live[i]).fake_fd != insns[k].imm,
        j < live.len() ==> live[j].fake_fd == insns[k].imm,
    ensures
        ({
            let r = resolved(insns, live);
            let known = j < live.len() && live[j].real_fd >= 0;
            &&& known ==> r[k] == (BpfInsn { imm: live[j].real_fd, ..insns[k] })
            &&& known && k + 1 < insns.len() ==> r[k + 1] == (BpfInsn { imm: 0, ..insns[k + 1] })
            &&& !known ==> r[k] == insns[k]
            &&& !known && k + 1 < insns.len() ==> r[k + 1] == insns[k + 1]
        }),
{
    lemma_find_fd(live, insns[k].imm);
    if k + 1 < insns.len() {
        law_which_instructions_load_maps(insns, k + 1);
    }
    if k > 0 {
        law_which_instructions_load_maps(insns, k);
    }
}

} // verus!
