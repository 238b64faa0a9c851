//! What a program load does at each of its steps.

use vstd::prelude::*;
use vstd::utf8::{encode_utf8, is_ascii_chars_encode_utf8};

use crate::errno::is_err_ptr;
use crate::insn_patch::resolved;
use crate::load_maps::knows;
use crate::load_prog::{
    after, answers, enter_fds, enter_maps, enter_relocs, enter_slot, in_range, no_btf_detail, Answer,
    FbtTarget, LoadProg, LoadState, Phase, Request, Step,
};
use crate::maps::{find_fd, lemma_find_fd, open_fds, MapSlot, MapsView};
use crate::types::BpfInsn;
use crate::wire::ProbeType;

verus! {

/// The family is one of the two function boundaries.
pub open spec fn on_functions(s: LoadState) -> bool {
    s.family == ProbeType::Fentry || s.family == ProbeType::Fexit
}

/// Only a function-boundary program has an attach target.
pub open spec fn targets_fit(s: LoadState) -> bool {
    &&& s.phase is FbtBtf || s.phase is FbtFunc ==> on_functions(s)
    &&& s.phase matches Phase::SetType { btf_id: Some(_) } ==> on_functions(s)
}

/// The request is one that a load makes before it has a program.
pub open spec fn before_the_program(st: Step) -> bool {
    match st.s.phase {
        Phase::AllocMap { i, .. } => st.req == (Request::AllocMap { i }),
        Phase::BindFd { place, .. } => st.req == (Request::BindFd { place }),
        Phase::RelocBtf => st.req == Request::VmlinuxBtf,
        Phase::Kfunc { k } => st.req == (Request::FindKfunc { k }),
        Phase::AllocProg => st.req == Request::AllocProg,
        Phase::Done => st.req is Reply || st.req is MapTableFull,
        _ => false,
    }
}

/// What no step of a load changes: the family, the target, the definitions, the
/// relocations and the slot.
pub open spec fn leaves_alone(s: LoadState, t: LoadState) -> bool {
    &&& t.family == s.family
    &&& t.target == s.target
    &&& t.maps == s.maps
    &&& t.relocs == s.relocs
    &&& t.slot == s.slot
}

proof fn lemma_fds_first(s: LoadState, m: MapsView, i: int)
    ensures
        before_the_program(enter_fds(s, m, i)),
        leaves_alone(s, enter_fds(s, m, i).s),
        enter_fds(s, m, i).s.detail == s.detail,
        enter_fds(s, m, i).s.to_close == s.to_close,
        enter_fds(s, m, i).s.phase is BindFd ==> enter_fds(s, m, i).s.insns == s.insns,
        !(enter_fds(s, m, i).s.phase is BindFd) ==> enter_fds(s, m, i).s.insns == resolved(
            s.insns,
            m.live(),
        ),
        enter_fds(s, m, i).m == m,
        !(enter_fds(s, m, i).s.phase is AllocMap),
    decreases s.maps.len() - i,
{
    if i < s.maps.len() {
        lemma_fds_first(s, m, i + 1);
    }
}

proof fn lemma_maps_first(s: LoadState, m: MapsView, i: int, status: i32)
    ensures
        before_the_program(enter_maps(s, m, i, status)),
        leaves_alone(s, enter_maps(s, m, i, status).s),
        enter_maps(s, m, i, status).s.detail == s.detail,
        enter_maps(s, m, i, status).s.to_close == s.to_close,
        enter_maps(s, m, i, status).s.phase is AllocMap || enter_maps(
            s,
            m,
            i,
            status,
        ).s.phase is BindFd ==> enter_maps(s, m, i, status).s.insns == s.insns,
        enter_maps(s, m, i, status).m == m,
    decreases s.maps.len() - i,
{
    if i < s.maps.len() {
        lemma_maps_first(s, m, i + 1, status);
    } else {
        lemma_fds_first(s, m, 0);
    }
}

proof fn lemma_first_answers(s: LoadState, m: MapsView, a: Answer)
    requires
        answers(s.phase, a),
        a is MapAllocated || a is FdBound,
    ensures
        before_the_program(after(s, m, a)),
        leaves_alone(s, after(s, m, a).s),
        after(s, m, a).s.detail == s.detail,
        after(s, m, a).s.to_close == s.to_close,
        after(s, m, a).s.phase is AllocMap || after(s, m, a).s.phase is BindFd ==> after(
            s,
            m,
            a,
        ).s.insns == s.insns,
{
    let d = s.at(Phase::Done);
    match a {
        Answer::MapAllocated { raw } => {
            if let Phase::AllocMap { i, status } = s.phase {
                let def = s.maps[i as int];
                let st = if status == 0 {
                    -12i32
                } else {
                    status
                };
                lemma_maps_first(d, m, i + 1, st);
                lemma_maps_first(d, m.recorded(raw, def.fake_fd, def.kind()), i + 1, status);
            }
        },
        Answer::FdBound { fd } => {
            if let Phase::BindFd { i, place } = s.phase {
                lemma_fds_first(d, m, i + 1);
                lemma_fds_first(d, m.bound(place as int, fd), i + 1);
            }
        },
        _ => {},
    }
}

/// A load asks for the type of a raw tracepoint exactly when a tracepoint
/// program has been allocated, and for that of a perf event exactly when the
/// program of a profile timer has; for that of tracing only for a
/// function-boundary program whose target was found.  A program of any other
/// family goes from its allocation to the verifier, with the type it has.
pub proof fn law_types_of_programs(s: LoadState, m: MapsView, a: Answer)
    requires
        in_range(s),
        answers(s.phase, a),
        targets_fit(s),
    ensures
        targets_fit(after(s, m, a).s),
        after(s, m, a).s.family == s.family,
        after(s, m, a).req == (Request::SetProgType { prog_type: 17 }) <==> a == (
        Answer::ProgAllocated { allocated: true, has_aux: true }) && s.family
            == ProbeType::Tracepoint,
        after(s, m, a).req == (Request::SetProgType { prog_type: 7 }) <==> a == (
        Answer::ProgAllocated { allocated: true, has_aux: true }) && s.family
            == ProbeType::ProfileTimer,
        after(s, m, a).req == (Request::SetProgType { prog_type: 26 }) <==> s.phase is FbtFunc && (
        a matches Answer::FuncFound { btf_id } && btf_id >= 0),
        after(s, m, a).req == (Request::SetProgType { prog_type: 26 }) ==> on_functions(s),
        after(s, m, a).req matches Request::SetProgType { prog_type } ==> prog_type == 17
            || prog_type == 7 || prog_type == 26,
        a matches Answer::ProgAllocated { allocated: true, has_aux } && (!has_aux || !(s.family
            == ProbeType::Tracepoint || s.family == ProbeType::ProfileTimer || on_functions(s)))
            ==> after(s, m, a).req == (Request::VerifyProg { target: None }),
{
    if a is MapAllocated || a is FdBound {
        lemma_first_answers(s, m, a);
    }
}

/// The first definition from `i` on whose descriptor no map has is given a map;
/// if there is none, the load ends with the first failure to allocate one, or
/// goes on to the descriptors.
pub proof fn law_which_map_is_next(s: LoadState, m: MapsView, i: int, j: int, status: i32)
    requires
        0 <= i <= j <= s.maps.len() <= usize::MAX,
        forall|k: int| i <= k < j ==> knows(m.live(), (#[trigger] s.maps[k]).fake_fd),
        j < s.maps.len() ==> !knows(m.live(), s.maps[j].fake_fd),
    ensures
        j < s.maps.len() ==> enter_maps(s, m, i, status).req == (Request::AllocMap {
            i: j as usize,
        }) && enter_maps(s, m, i, status).s.phase == (Phase::AllocMap { i: j as usize, status }),
        j == s.maps.len() && status != 0 ==> enter_maps(s, m, i, status).req == (Request::Reply {
            status,
            free_prog: false,
        }),
        j == s.maps.len() && status == 0 ==> enter_maps(s, m, i, status) == enter_fds(s, m, 0),
    decreases j - i,
{
    if i < s.maps.len() {
        lemma_find_fd(m.live(), s.maps[i].fake_fd);
        let f = find_fd(m.live(), s.maps[i].fake_fd);
        if f is Some {
            assert(m.live()[f->0].fake_fd == s.maps[i].fake_fd);
        }
        if i < j {
            law_which_map_is_next(s, m, i + 1, j, status);
        }
    }
}

/// A map that could not be allocated is remembered as out of memory, unless a
/// failure is remembered already; one that could is entered under the
/// descriptor and kind of its definition.  Either way the load goes on with the
/// definitions that follow.
pub proof fn law_allocating_a_map(s: LoadState, m: MapsView, i: usize, status: i32, raw: u64)
    requires
        s.phase == (Phase::AllocMap { i, status }),
        i < s.maps.len(),
    ensures
        ({
            let r = after(s, m, Answer::MapAllocated { raw });
            let t = s.at(Phase::Done);
            let d = s.maps[i as int];
            &&& raw == 0 || is_err_ptr(raw) ==> r == enter_maps(
                t,
                m,
                i + 1,
                if status == 0 {
                    -12i32
                } else {
                    status
                },
            )
            &&& raw != 0 && !is_err_ptr(raw) && m.num_maps >= 8 ==> r.req is MapTableFull && r.m == m
            &&& raw != 0 && !is_err_ptr(raw) && m.num_maps < 8 ==> r == enter_maps(
                t,
                MapsView {
                    slots: m.slots.update(
                        m.num_maps,
                        MapSlot {
                            handle: raw,
                            fake_fd: d.fake_fd,
                            agg_kind: (d.flags % 256) as u8,
                            real_fd: m.slots[m.num_maps].real_fd,
                        },
                    ),
                    num_maps: m.num_maps + 1,
                },
                i + 1,
                status,
            )
        }),
{
}

/// The first definition from `i` on whose map has no real descriptor has one
/// bound to the place of its map; if there is none, the map references are
/// resolved, and the kernel's type information is asked for if there is anything
/// to relocate.
pub proof fn law_which_descriptor_is_next(
    s: LoadState,
    m: MapsView,
    i: int,
    j: int,
    place: int,
)
    requires
        0 <= i <= j <= s.maps.len() <= usize::MAX,
        0 <= m.num_maps <= m.slots.len() <= usize::MAX,
        forall|k: int, p: int|
            i <= k < j && 0 <= p < m.num_maps && (#[trigger] s.maps[k]).fake_fd == (
            #[trigger] m.slots[p]).fake_fd ==> m.slots[p].real_fd >= 0,
        j < s.maps.len() ==> {
            &&& 0 <= place < m.num_maps
            &&& m.slots[place].fake_fd == s.maps[j].fake_fd
            &&& m.slots[place].real_fd < 0
            &&& forall|p: int|
                0 <= p < m.num_maps && (#[trigger] m.slots[p]).fake_fd == s.maps[j].fake_fd ==> p
                    == place
        },
    ensures
        j < s.maps.len() ==> enter_fds(s, m, i).req == (Request::BindFd { place: place as usize })
            && enter_fds(s, m, i).s.phase == (Phase::BindFd {
            i: j as usize,
            place: place as usize,
        }) && enter_fds(s, m, i).m == m,
        j == s.maps.len() ==> enter_fds(s, m, i).s.insns == resolved(s.insns, m.live()) && (
        s.relocs.len() > 0 ==> enter_fds(s, m, i).req == Request::VmlinuxBtf && enter_fds(
            s,
            m,
            i,
        ).s.phase is RelocBtf),
    decreases j - i,
{
    if i < s.maps.len() {
        let live = m.live();
        lemma_find_fd(live, s.maps[i].fake_fd);
        match find_fd(live, s.maps[i].fake_fd) {
            Some(p) => {
                assert(live[p] == m.slots[p]);
                if i < j {
                    assert(s.maps[i].fake_fd == m.slots[p].fake_fd);
                }
            },
            None => {
                if i == j {
                    assert(live[place] == m.slots[place]);
                }
            },
        }
        if i < j {
            law_which_descriptor_is_next(s, m, i + 1, j, place);
        }
    } else {
        assert(enter_fds(s, m, i) == enter_relocs(s, m));
    }
}

/// A real descriptor that was bound is noted at the place of its map; one that
/// was not leaves the table as it is.  Either way the load goes on with the
/// definitions that follow.
pub proof fn law_binding_a_descriptor(s: LoadState, m: MapsView, i: usize, place: usize, fd: i32)
    requires
        s.phase == (Phase::BindFd { i, place }),
    ensures
        ({
            let r = after(s, m, Answer::FdBound { fd });
            let t = s.at(Phase::Done);
            &&& fd < 0 ==> r == enter_fds(t, m, i + 1)
            &&& fd >= 0 ==> r == enter_fds(
                t,
                MapsView {
                    slots: m.slots.update(
                        place as int,
                        MapSlot { real_fd: fd, ..m.slots[place as int] },
                    ),
                    num_maps: m.num_maps,
                },
                i + 1,
            )
        }),
{
}

/// A slot is there for the program as long as fewer than 256 are taken; then the
/// load ends for want of space.
pub proof fn law_a_slot_for_the_program(s: LoadState, m: MapsView)
    ensures
        s.slot < 256 ==> enter_slot(s, m).req == Request::AllocProg && enter_slot(
            s,
            m,
        ).s.phase is AllocProg,
        s.slot >= 256 ==> enter_slot(s, m).req == (Request::Reply {
            status: -28i32,
            free_prog: false,
        }),
        enter_slot(s, m).s.insns == s.insns,
        s.relocs.len() == 0 ==> enter_relocs(s, m) == enter_slot(
            LoadState { insns: resolved(s.insns, m.live()), ..s },
            m,
        ),
{
}

/// Each relocation puts the id of its function into the immediate of its
/// instruction and changes nothing else; the next one follows, and after the
/// last the slot.  A function that is not there is named in a reply of
/// `-EINVAL`, and the open descriptors are closed.
pub proof fn law_relocating(s: LoadState, m: MapsView, k: usize, btf_id: i32)
    requires
        s.phase == (Phase::Kfunc { k }),
        k < s.relocs.len() <= usize::MAX,
        s.relocs[k as int].insn_idx < s.insns.len(),
    ensures
        ({
            let r = after(s, m, Answer::FuncFound { btf_id });
            let idx = s.relocs[k as int].insn_idx as int;
            &&& btf_id < 0 ==> {
                &&& r.req == (Request::Reply { status: -22i32, free_prog: false })
                &&& r.s.detail == s.relocs[k as int].name
                &&& r.s.to_close == open_fds(m.live())
                &&& r.m == m.closed()
            }
            &&& btf_id >= 0 ==> {
                &&& r.s.insns.len() == s.insns.len()
                &&& r.s.insns[idx] == (BpfInsn { imm: btf_id, ..s.insns[idx] })
                &&& forall|i: int|
                    0 <= i < s.insns.len() && i != idx ==> #[trigger] r.s.insns[i] == s.insns[i]
                &&& k + 1 < s.relocs.len() ==> r.req == (Request::FindKfunc { k: (k + 1) as usize })
                &&& k + 1 == s.relocs.len() && s.slot < 256 ==> r.req == Request::AllocProg
                &&& r.m == m
            }
        }),
{
}

/// Without the kernel's type information nothing can be relocated, and the reply
/// of `-EINVAL` says so; with it the first relocation follows.
pub proof fn law_looking_for_type_information(s: LoadState, m: MapsView, found: bool)
    requires
        s.phase is RelocBtf,
        s.relocs.len() > 0,
    ensures
        ({
            let r = after(s, m, Answer::BtfFound { found });
            &&& found ==> r.req == (Request::FindKfunc { k: 0 }) && r.m == m
            &&& !found ==> {
                &&& r.req == (Request::Reply { status: -22i32, free_prog: false })
                &&& r.s.to_close == open_fds(m.live())
                &&& r.m == m.closed()
                &&& r.s.detail.len() == 23
                &&& r.s.detail.take(8) == seq![
                    0x76u8,
                    0x6du8,
                    0x6cu8,
                    0x69u8,
                    0x6eu8,
                    0x75u8,
                    0x78u8,
                    0x20u8,
                ]
            }
        }),
{
    reveal_strlit("vmlinux BTF unavailable");
    is_ascii_chars_encode_utf8("vmlinux BTF unavailable"@);
    let d = encode_utf8("vmlinux BTF unavailable"@);
    assert(d == no_btf_detail());
    assert(d.take(8) =~= seq![0x76u8, 0x6du8, 0x6cu8, 0x69u8, 0x6eu8, 0x75u8, 0x78u8, 0x20u8]);
}

/// A function-boundary program that was allocated looks for the kernel's type
/// information and then for its target; found, the target goes to the verifier
/// once the type is set, for entry or for return as the family says.
pub proof fn law_targets_of_functions(s: LoadState, m: MapsView, btf_id: i32, rc: i32)
    ensures
        s.phase is AllocProg && on_functions(s) ==> after(
            s,
            m,
            Answer::ProgAllocated { allocated: true, has_aux: true },
        ).req == Request::VmlinuxBtf,
        s.phase is FbtBtf ==> after(s, m, Answer::BtfFound { found: true }).req
            == Request::FindTarget,
        s.phase is FbtFunc && btf_id >= 0 ==> after(s, m, Answer::FuncFound { btf_id }).s.phase == (
        Phase::SetType { btf_id: Some(btf_id) }),
        s.phase == (Phase::SetType { btf_id: Some(btf_id) }) && rc == 0 && s.family
            == ProbeType::Fentry ==> after(s, m, Answer::TypeSet { rc }).req == (
        Request::VerifyProg { target: Some(FbtTarget { attach_type: 24, btf_id }) }),
        s.phase == (Phase::SetType { btf_id: Some(btf_id) }) && rc == 0 && s.family
            == ProbeType::Fexit ==> after(s, m, Answer::TypeSet { rc }).req == (
        Request::VerifyProg { target: Some(FbtTarget { attach_type: 25, btf_id }) }),
        s.phase == (Phase::SetType { btf_id: None }) || (s.phase is SetType && rc != 0) ==> after(
            s,
            m,
            Answer::TypeSet { rc },
        ).req == (Request::VerifyProg { target: None }),
{
}

/// A program that cannot be allocated is out of memory.  What the verifier or
/// the compiler refuses is freed and answered with their status; a compiler that
/// reports no error but gives no program is answered `-EINVAL`.  A program that
/// passes both is attached to the slot of the load, and the reply is the status
/// of that.
pub proof fn law_from_allocation_to_reply(
    s: LoadState,
    m: MapsView,
    rc: i32,
    prog: u64,
    has_aux: bool,
)
    requires
        0 <= s.slot <= usize::MAX,
    ensures
        s.phase is AllocProg ==> after(
            s,
            m,
            Answer::ProgAllocated { allocated: false, has_aux },
        ).req == (Request::Reply { status: -12i32, free_prog: false }),
        s.phase is Verify && rc != 0 ==> after(s, m, Answer::Verified { rc }).req == (
        Request::Reply { status: rc, free_prog: true }),
        s.phase is Verify && rc == 0 ==> after(s, m, Answer::Verified { rc }).req
            == Request::SelectRuntime,
        s.phase is Jit && rc == 0 && prog != 0 ==> after(
            s,
            m,
            Answer::Jitted { err: rc, prog },
        ).req == (Request::AttachSlot { slot: s.slot as usize }),
        s.phase is Jit && rc != 0 ==> after(s, m, Answer::Jitted { err: rc, prog }).req == (
        Request::Reply { status: rc, free_prog: true }),
        s.phase is Jit && rc == 0 && prog == 0 ==> after(
            s,
            m,
            Answer::Jitted { err: rc, prog },
        ).req == (Request::Reply { status: -22i32, free_prog: true }),
        s.phase is Attach ==> after(s, m, Answer::Attached { rc }).req == (Request::Reply {
            status: rc,
            free_prog: false,
        }),
{
}

/// No step of a load changes the family, the target, the definitions, the
/// relocations or the slot.  Instructions change only when the map references
/// are resolved, after the last descriptor, and when a relocation is.  The
/// descriptors to close are handed out once, when a relocation failed or the
/// verifier is done, and are gone when the program is compiled; the diagnostic
/// changes only when a relocation failed, a target was not found, or the attach
/// succeeded; the map table only while maps are entered and bound, and when
/// their descriptors are closed.
pub proof fn law_what_a_load_leaves_alone(s: LoadState, m: MapsView, a: Answer)
    requires
        in_range(s),
        answers(s.phase, a),
    ensures
        ({
            let r = after(s, m, a);
            let lost = (a matches Answer::BtfFound { found } && !found) || (
            a matches Answer::FuncFound { btf_id } && btf_id < 0);
            &&& r.s.family == s.family && r.s.target == s.target && r.s.maps == s.maps
            &&& r.s.relocs == s.relocs && r.s.slot == s.slot
            &&& r.s.phase is AllocMap || r.s.phase is BindFd ==> r.s.insns == s.insns
            &&& !(a is MapAllocated) && !(a is FdBound) && !(s.phase is Kfunc) ==> r.s.insns
                == s.insns
            &&& a is Jitted ==> r.s.to_close.len() == 0
            &&& !(a is Jitted) && !(a is Verified) && !(lost && (s.phase is RelocBtf
                || s.phase is Kfunc)) ==> r.s.to_close == s.to_close
            &&& !lost && a != (Answer::Attached { rc: 0 }) ==> r.s.detail == s.detail
            &&& !(a is MapAllocated) && !(a is FdBound) && !(a is Verified) && !(lost && (
            s.phase is RelocBtf || s.phase is Kfunc)) ==> r.m == m
        }),
{
    if a is MapAllocated || a is FdBound {
        lemma_first_answers(s, m, a);
    }
}

/// Of one command the layout, the family, the definitions, the relocations and
/// the slot stay what they are.
pub proof fn law_what_stays_of_a_command(a: LoadProg, b: LoadProg)
    requires
        a.same_command(&b),
    ensures
        a.layout == b.layout,
        a.family == b.family,
        a.maps == b.maps,
        a.relocs == b.relocs,
        a.slot == b.slot,
{
}

} // verus!
