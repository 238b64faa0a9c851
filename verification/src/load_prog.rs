//! Loading one program.
//!
//! A program-load command is worked off in phases that alternate between
//! decisions, which are made here, and kernel calls, which the driver shell
//! makes.  Each entry point takes the answer to the last request and returns
//! the next request; the last request is always the reply to the host.

use vstd::prelude::*;

use crate::bpf_consts::{
    BPF_PROG_TYPE_PERF_EVENT, BPF_PROG_TYPE_RAW_TRACEPOINT, BPF_PROG_TYPE_TRACING,
    BPF_TRACE_FENTRY, BPF_TRACE_FEXIT,
};
use crate::bytes::{first_nul, lemma_first_nul, nul_position};
use crate::errno::{is_err_ptr, ptr_is_err, EINVAL, ENOMEM, ENOSPC};
use crate::guest::BifrostGuest;
use crate::insn_patch::{
    encode_program, patch_map_fds, program_image, read_insns, read_map_defs, read_relocs,
    reloc_views, resolved, Reloc,
};
use crate::load_prog_parse::{
    body_of, insns_at, law_parts_lie_within_the_body, law_relocs_are_valid, load_prog_content,
    map_defs, parse_load_prog, relocs_at, LoadProgLayout, LoadProgView, RelocView,
    MAX_MAPS_PER_PROG,
};
use crate::maps::{
    fds_closed, find_fd, law_closed_fds_stay_closed, lemma_find_fd, open_fds, MapsView, NO_FD,
};
use crate::types::{BifrostCmd, BpfInsn, MapDef, CMD_HDR};
use crate::wire::{ProbeType, ProbeTypeCodes, MAX_PROBE_SLOTS};

verus! {

/// Where a function-boundary program attaches.
#[derive(Clone, Copy, PartialEq, Eq, Structural, Debug)]
pub struct FbtTarget {
    pub attach_type: u32,
    pub btf_id: i32,
}

/// How far a load has come: the request that is waiting for its answer.
#[derive(Clone, Copy, PartialEq, Eq, Structural, Debug)]
pub enum Phase {
    /// Allocating the map of definition `i`; `status` is the first failure so far.
    AllocMap { i: usize, status: i32 },
    /// Binding a real descriptor for definition `i` to the map at `place`.
    BindFd { i: usize, place: usize },
    /// Looking for the kernel's type information, for relocations.
    RelocBtf,
    /// Looking up the function of relocation `k`.
    Kfunc { k: usize },
    /// Allocating the program.
    AllocProg,
    /// Looking for the kernel's type information, for an attach target.
    FbtBtf,
    /// Looking up the attach target.
    FbtFunc,
    /// Setting the program's type; `btf_id` is the attach target, if there is one.
    SetType { btf_id: Option<i32> },
    Verify,
    Jit,
    Attach,
    Done,
}

/// What the driver shell has to do next.
#[derive(Clone, Copy, PartialEq, Eq, Structural, Debug)]
pub enum Request {
    /// Allocate the map of definition `i`; answer with `map_allocated`.
    AllocMap { i: usize },
    /// Get a descriptor for the map at `place`; answer with `fd_bound`.
    BindFd { place: usize },
    /// Get the kernel's type information; answer with `btf_found`.
    VmlinuxBtf,
    /// Look up the function of relocation `k`; answer with `func_found`.
    FindKfunc { k: usize },
    /// Allocate a program and copy the image into it; answer with `prog_allocated`.
    AllocProg,
    /// Look up the function that the target name names; answer with `func_found`.
    FindTarget,
    /// Set the program's type; answer with `type_set`.
    SetProgType { prog_type: u32 },
    /// Set the attach target, if there is one, and run the verifier; answer
    /// with `verified`.
    VerifyProg { target: Option<FbtTarget> },
    /// Close the descriptors of `to_close`, then compile; answer with `jitted`.
    SelectRuntime,
    /// Attach the program of `slot`; answer with `attached`.
    AttachSlot { slot: usize },
    /// Free the program if so told, close the descriptors of `to_close`, and
    /// reply with `status` and `detail`.
    Reply { status: i32, free_prog: bool },
    /// A new map found no free place in the map table; the driver cannot go on.
    MapTableFull,
}

/// What a load in progress knows.
pub struct LoadState {
    pub family: ProbeType,
    /// The target name without its padding.
    pub target: Seq<u8>,
    pub maps: Seq<MapDef>,
    pub insns: Seq<BpfInsn>,
    pub relocs: Seq<RelocView>,
    pub slot: int,
    pub phase: Phase,
    pub to_close: Seq<i32>,
    pub detail: Seq<u8>,
}

/// The outcome of one answer: the load, the map table, and the next request.
pub struct Step {
    pub s: LoadState,
    pub m: MapsView,
    pub req: Request,
}

/// The outcome that consists of these parts.
pub open spec fn step(s: LoadState, m: MapsView, req: Request) -> Step {
    Step { s, m, req }
}

/// Diagnostic of a load that fails for want of type information.
pub open spec fn no_btf_detail() -> Seq<u8> {
    vstd::utf8::encode_utf8("vmlinux BTF unavailable"@)
}

impl LoadState {
    pub open spec fn at(self, phase: Phase) -> Self {
        LoadState { phase, ..self }
    }
}

/// Reply with `status`.
pub open spec fn reply(s: LoadState, m: MapsView, status: i32, free_prog: bool) -> Step {
    Step { s: s.at(Phase::Done), m, req: Request::Reply { status, free_prog } }
}

/// Give up the open descriptors.
pub open spec fn closing(s: LoadState, m: MapsView) -> LoadState {
    LoadState { to_close: open_fds(m.live()), ..s }
}

/// All relocations are resolved: take the next slot, if there is one.
pub open spec fn enter_slot(s: LoadState, m: MapsView) -> Step {
    if s.slot < MAX_PROBE_SLOTS {
        Step { s: s.at(Phase::AllocProg), m, req: Request::AllocProg }
    } else {
        reply(s, m, (-ENOSPC) as i32, false)
    }
}

/// Relocations below `k` are resolved.
pub open spec fn enter_kfunc(s: LoadState, m: MapsView, k: int) -> Step {
    if k < s.relocs.len() {
        Step {
            s: s.at(Phase::Kfunc { k: k as usize }),
            m,
            req: Request::FindKfunc { k: k as usize },
        }
    } else {
        enter_slot(s, m)
    }
}

/// The maps have their descriptors: resolve map references, then relocations.
pub open spec fn enter_relocs(s: LoadState, m: MapsView) -> Step {
    let t = LoadState { insns: resolved(s.insns, m.live()), ..s };
    if s.relocs.len() > 0 {
        Step { s: t.at(Phase::RelocBtf), m, req: Request::VmlinuxBtf }
    } else {
        enter_slot(t, m)
    }
}

/// Definitions below `i` have been given descriptors: go on with the next
/// whose map has none.
pub open spec fn enter_fds(s: LoadState, m: MapsView, i: int) -> Step
    decreases s.maps.len() - i,
{
    if i >= s.maps.len() {
        enter_relocs(s, m)
    } else {
        match find_fd(m.live(), s.maps[i].fake_fd) {
            Some(j) if m.live()[j].real_fd < 0 => Step {
                s: s.at(Phase::BindFd { i: i as usize, place: j as usize }),
                m,
                req: Request::BindFd { place: j as usize },
            },
            _ => enter_fds(s, m, i + 1),
        }
    }
}

/// Definitions below `i` have their maps, or have failed with `status`: go on
/// with the next whose descriptor is new.
pub open spec fn enter_maps(s: LoadState, m: MapsView, i: int, status: i32) -> Step
    decreases s.maps.len() - i,
{
    if i >= s.maps.len() {
        if status != 0 {
            reply(s, m, status, false)
        } else {
            enter_fds(s, m, 0)
        }
    } else if find_fd(m.live(), s.maps[i].fake_fd) is Some {
        enter_maps(s, m, i + 1, status)
    } else {
        Step {
            s: s.at(Phase::AllocMap { i: i as usize, status }),
            m,
            req: Request::AllocMap { i: i as usize },
        }
    }
}

/// The kernel answered the allocation of a map with pointer `raw`.
pub open spec fn after_map_allocated(s: LoadState, m: MapsView, raw: u64) -> Step {
    match s.phase {
        Phase::AllocMap { i, status } => if is_err_ptr(raw) || raw == 0 {
            let st = if status == 0 {
                (-ENOMEM) as i32
            } else {
                status
            };
            enter_maps(s.at(Phase::Done), m, i + 1, st)
        } else if m.num_maps >= MAX_MAPS_PER_PROG {
            Step { s: s.at(Phase::Done), m, req: Request::MapTableFull }
        } else {
            let d = s.maps[i as int];
            enter_maps(
                s.at(Phase::Done),
                m.recorded(raw, d.fake_fd, d.kind()),
                i + 1,
                status,
            )
        },
        _ => arbitrary(),
    }
}

/// The kernel answered the request for a descriptor with `fd`.
pub open spec fn after_fd_bound(s: LoadState, m: MapsView, fd: i32) -> Step {
    match s.phase {
        Phase::BindFd { i, place } => if fd < 0 {
            enter_fds(s.at(Phase::Done), m, i + 1)
        } else {
            enter_fds(s.at(Phase::Done), m.bound(place as int, fd), i + 1)
        },
        _ => arbitrary(),
    }
}

/// Relocation failed: close what was opened and say why.
pub open spec fn reloc_failed(s: LoadState, m: MapsView, detail: Seq<u8>) -> Step {
    reply(
        LoadState { detail, ..closing(s, m) },
        m.closed(),
        (-EINVAL) as i32,
        false,
    )
}

/// Verify, with attach target `target` if there is one.
pub open spec fn verify(s: LoadState, m: MapsView, target: Option<FbtTarget>) -> Step {
    Step { s: s.at(Phase::Verify), m, req: Request::VerifyProg { target } }
}

/// The attach target could not be resolved: verify without it, and name it in
/// the reply should the load fail.
pub open spec fn unresolved(s: LoadState, m: MapsView) -> Step {
    verify(LoadState { detail: s.target, ..s }, m, None)
}

/// The kernel's type information is there, or is not.
pub open spec fn after_btf_found(s: LoadState, m: MapsView, found: bool) -> Step {
    match s.phase {
        Phase::RelocBtf => if found {
            enter_kfunc(s, m, 0)
        } else {
            reloc_failed(s, m, no_btf_detail())
        },
        Phase::FbtBtf => if found {
            Step { s: s.at(Phase::FbtFunc), m, req: Request::FindTarget }
        } else {
            unresolved(s, m)
        },
        _ => arbitrary(),
    }
}

/// The lookup of a function gave `btf_id`, which is negative if there is none.
pub open spec fn after_func_found(s: LoadState, m: MapsView, btf_id: i32) -> Step {
    match s.phase {
        Phase::Kfunc { k } => {
            let r = s.relocs[k as int];
            if btf_id < 0 {
                reloc_failed(s, m, r.name)
            } else {
                let insn = BpfInsn { imm: btf_id, ..s.insns[r.insn_idx as int] };
                let t = LoadState { insns: s.insns.update(r.insn_idx as int, insn), ..s };
                enter_kfunc(t, m, k + 1)
            }
        },
        Phase::FbtFunc => if btf_id < 0 {
            unresolved(s, m)
        } else {
            Step {
                s: s.at(Phase::SetType { btf_id: Some(btf_id) }),
                m,
                req: Request::SetProgType { prog_type: BPF_PROG_TYPE_TRACING },
            }
        },
        _ => arbitrary(),
    }
}

/// The type that a program of family `t` has to be given before it is verified.
pub open spec fn plain_prog_type(t: ProbeType) -> Option<u32> {
    match t {
        ProbeType::Tracepoint => Some(BPF_PROG_TYPE_RAW_TRACEPOINT),
        ProbeType::ProfileTimer => Some(BPF_PROG_TYPE_PERF_EVENT),
        _ => None,
    }
}

/// The program was allocated, or was not; `has_aux` tells whether it has its
/// auxiliary part.
pub open spec fn after_prog_allocated(
    s: LoadState,
    m: MapsView,
    allocated: bool,
    has_aux: bool,
) -> Step {
    if !allocated {
        reply(s, m, (-ENOMEM) as i32, false)
    } else if !has_aux {
        verify(s, m, None)
    } else if s.family == ProbeType::Fentry || s.family == ProbeType::Fexit {
        Step { s: s.at(Phase::FbtBtf), m, req: Request::VmlinuxBtf }
    } else {
        match plain_prog_type(s.family) {
            Some(prog_type) => Step {
                s: s.at(Phase::SetType { btf_id: None }),
                m,
                req: Request::SetProgType { prog_type },
            },
            None => verify(s, m, None),
        }
    }
}

/// The attach type of a function-boundary program.
pub open spec fn fbt_attach_type(t: ProbeType) -> u32 {
    if t == ProbeType::Fentry {
        BPF_TRACE_FENTRY
    } else {
        BPF_TRACE_FEXIT
    }
}

/// Setting the type gave `rc`.
pub open spec fn after_type_set(s: LoadState, m: MapsView, rc: i32) -> Step {
    match s.phase {
        Phase::SetType { btf_id } => verify(
            s,
            m,
            match btf_id {
                Some(btf_id) if rc == 0 => Some(
                    FbtTarget { attach_type: fbt_attach_type(s.family), btf_id },
                ),
                _ => None,
            },
        ),
        _ => arbitrary(),
    }
}

/// The verifier gave `rc`.  Either way the descriptors are no longer needed.
pub open spec fn after_verified(s: LoadState, m: MapsView, rc: i32) -> Step {
    if rc != 0 {
        reply(closing(s, m), m.closed(), rc, true)
    } else {
        Step { s: closing(s, m).at(Phase::Jit), m: m.closed(), req: Request::SelectRuntime }
    }
}

/// The compiler gave `err` and program `prog`.
pub open spec fn after_jitted(s: LoadState, m: MapsView, err: i32, prog: u64) -> Step {
    let t = LoadState { to_close: Seq::empty(), ..s };
    if err == 0 && prog != 0 {
        Step { s: t.at(Phase::Attach), m, req: Request::AttachSlot { slot: s.slot as usize } }
    } else {
        reply(
            t,
            m,
            if err != 0 {
                err
            } else {
                (-EINVAL) as i32
            },
            true,
        )
    }
}

/// Attaching gave `rc`.  A success has nothing to diagnose.
pub open spec fn after_attached(s: LoadState, m: MapsView, rc: i32) -> Step {
    if rc == 0 {
        reply(LoadState { detail: Seq::empty(), ..s }, m, rc, false)
    } else {
        reply(s, m, rc, false)
    }
}

/// The state of a load at its start, before any map is there.
pub open spec fn initial_state(
    codes: ProbeTypeCodes,
    cmd: Seq<u8>,
    v: LoadProgView,
    slot: int,
) -> LoadState {
    let body = body_of(cmd)->0;
    LoadState {
        family: codes.family((v.flags % 0x100) as u8),
        target: v.target_name.take(first_nul(v.target_name)),
        maps: map_defs(body, v.maps_off, v.num_maps as nat),
        insns: insns_at(body, v.insns_off, v.num_insns as nat),
        relocs: (relocs_at(body, v.relocs_off + 4, v.num_relocs as nat, v.num_insns)->0).0,
        slot,
        phase: Phase::Done,
        to_close: Seq::empty(),
        detail: Seq::empty(),
    }
}

/// One program-load command in progress.
pub struct LoadProg {
    pub layout: LoadProgLayout,
    pub family: ProbeType,
    pub maps: Vec<MapDef>,
    pub insns: Vec<BpfInsn>,
    pub relocs: Vec<Reloc>,
    pub slot: usize,
    pub phase: Phase,
    /// Descriptors that the next request asks to close.
    pub to_close: Vec<i32>,
    /// Diagnostic for the reply.
    pub detail: Vec<u8>,
}

impl View for LoadProg {
    type V = LoadState;

    open spec fn view(&self) -> LoadState {
        LoadState {
            family: self.family,
            target: self.layout.target_name@.take(first_nul(self.layout.target_name@)),
            maps: self.maps@,
            insns: self.insns@,
            relocs: reloc_views(self.relocs@),
            slot: self.slot as int,
            phase: self.phase,
            to_close: self.to_close@,
            detail: self.detail@,
        }
    }
}

impl LoadProg {
    /// The layout is whole, every relocation names an instruction, the phase
    /// speaks of what is there, and past program allocation there is a slot.
    pub open spec fn wf(&self, guest: &BifrostGuest) -> bool {
        &&& guest.wf()
        &&& self.layout.wf()
        &&& self.maps@.len() <= MAX_MAPS_PER_PROG
        &&& self.slot <= MAX_PROBE_SLOTS
        &&& forall|k: int|
            0 <= k < self.relocs@.len() ==> (#[trigger] self.relocs@[k]).insn_idx
                < self.insns@.len()
        &&& match self.phase {
            Phase::AllocMap { i, .. } => i < self.maps@.len() && find_fd(
                guest.maps.live(),
                self.maps@[i as int].fake_fd,
            ) is None,
            Phase::BindFd { i, place } => i < self.maps@.len() && place < guest.maps.num_maps,
            Phase::Kfunc { k } => k < self.relocs@.len(),
            Phase::AllocProg
            | Phase::FbtBtf
            | Phase::FbtFunc
            | Phase::SetType { .. }
            | Phase::Verify
            | Phase::Jit
            | Phase::Attach => self.slot < MAX_PROBE_SLOTS,
            _ => true,
        }
    }

    /// What the layout and the decoded parts of the command say stays as it is.
    pub open spec fn same_command(&self, other: &Self) -> bool {
        &&& self.layout == other.layout
        &&& self.family == other.family
        &&& self.maps == other.maps
        &&& self.relocs == other.relocs
        &&& self.slot == other.slot
    }

    /// Take up a command: decode it and make the first request.  A command
    /// that is not well-formed is refused with `-EINVAL`.
    pub fn begin(codes: &ProbeTypeCodes, cmd: &[u8], guest: &BifrostGuest) -> (r: Result<
        (LoadProg, Request),
        i32,
    >)
        requires
            guest.wf(),
        ensures
            match r {
                Ok((lp, req)) => {
                    &&& load_prog_content(*codes, cmd@) matches Some(v)
                    &&& lp.layout.says(v)
                    &&& lp.wf(guest)
                    &&& step(lp@, guest.maps@, req) == enter_maps(
                        initial_state(*codes, cmd@, v, guest.slots.num_kprobes as int),
                        guest.maps@,
                        0,
                        0,
                    )
                },
                Err(e) => e == -EINVAL && load_prog_content(*codes, cmd@) is None,
            },
    {
        let layout = match parse_load_prog(codes, cmd) {
            Ok(layout) => layout,
            Err(e) => return Err(e),
        };
        let ghost v = load_prog_content(*codes, cmd@)->0;
        proof {
            law_parts_lie_within_the_body(*codes, cmd@);
            law_relocs_are_valid(
                body_of(cmd@)->0,
                v.relocs_off + 4,
                v.num_relocs as nat,
                v.num_insns,
            );
        }
        let hdr = BifrostCmd::read_le_unaligned(cmd);
        assert(cmd@.len() == cmd.len());
        let body: &[u8] = vstd::slice::slice_subrange(cmd, CMD_HDR, CMD_HDR + hdr.len as usize);
        assert(body@ == body_of(cmd@)->0);
        assert(body@.len() == body.len());
        let maps: Vec<MapDef> = read_map_defs(body, layout.maps_off, layout.num_maps as usize);
        let insns: Vec<BpfInsn> = read_insns(body, layout.insns_off, layout.num_insns as usize);
        let relocs: Vec<Reloc> = read_relocs(
            body,
            layout.relocs_off + 4,
            layout.num_relocs,
            layout.num_insns,
        );
        let family = codes.probe_type(layout.probe_type);
        let mut lp = LoadProg {
            layout,
            family,
            maps,
            insns,
            relocs,
            slot: guest.slots.num_kprobes,
            phase: Phase::Done,
            to_close: Vec::new(),
            detail: Vec::new(),
        };
        proof {
            let rs = (relocs_at(body@, v.relocs_off + 4, v.num_relocs as nat, v.num_insns)->0).0;
            assert forall|k: int| 0 <= k < lp.relocs@.len() implies (
            #[trigger] lp.relocs@[k]).insn_idx < lp.insns@.len() by {
                assert(reloc_views(lp.relocs@)[k] == lp.relocs@[k]@);
                assert(rs[k].insn_idx < v.num_insns);
            }
            assert(lp@ == initial_state(*codes, cmd@, v, guest.slots.num_kprobes as int));
        }
        let req = lp.go_maps(guest, 0, 0);
        Ok((lp, req))
    }

    fn go_reply(&mut self, status: i32, free_prog: bool) -> (req: Request)
        ensures
            final(self)@ == old(self)@.at(Phase::Done),
            final(self).same_command(old(self)),
            req == (Request::Reply { status, free_prog }),
    {
        self.phase = Phase::Done;
        Request::Reply { status, free_prog }
    }

    fn go_slot(&mut self, guest: &BifrostGuest) -> (req: Request)
        requires
            guest.wf(),
            old(self).wf(guest),
        ensures
            final(self).wf(guest),
            final(self).same_command(old(self)),
            step(final(self)@, guest.maps@, req) == enter_slot(old(self)@, guest.maps@),
    {
        match guest.slots.slots_ensure(self.slot + 1) {
            Ok(()) => {
                self.phase = Phase::AllocProg;
                Request::AllocProg
            },
            Err(e) => self.go_reply(e, false),
        }
    }

    fn go_kfunc(&mut self, guest: &BifrostGuest, k: usize) -> (req: Request)
        requires
            old(self).wf(guest),
        ensures
            final(self).wf(guest),
            final(self).same_command(old(self)),
            step(final(self)@, guest.maps@, req) == enter_kfunc(
                old(self)@,
                guest.maps@,
                k as int,
            ),
    {
        if k < self.relocs.len() {
            self.phase = Phase::Kfunc { k };
            Request::FindKfunc { k }
        } else {
            self.go_slot(guest)
        }
    }

    fn go_relocs(&mut self, guest: &BifrostGuest) -> (req: Request)
        requires
            old(self).wf(guest),
        ensures
            final(self).wf(guest),
            final(self).same_command(old(self)),
            step(final(self)@, guest.maps@, req) == enter_relocs(
                old(self)@,
                guest.maps@,
            ),
    {
        patch_map_fds(&mut self.insns, &guest.maps);
        if self.relocs.len() > 0 {
            self.phase = Phase::RelocBtf;
            Request::VmlinuxBtf
        } else {
            self.go_slot(guest)
        }
    }

    fn go_fds(&mut self, guest: &BifrostGuest, from: usize) -> (req: Request)
        requires
            old(self).wf(guest),
            from <= old(self).maps@.len(),
        ensures
            final(self).wf(guest),
            final(self).same_command(old(self)),
            step(final(self)@, guest.maps@, req) == enter_fds(
                old(self)@,
                guest.maps@,
                from as int,
            ),
    {
        let mut i: usize = from;
        let n: usize = self.maps.len();
        while i < n
            invariant
                self.wf(guest),
                *self == *old(self),
                n == self.maps@.len(),
                i <= n,
                enter_fds(self@, guest.maps@, from as int) == enter_fds(
                    self@,
                    guest.maps@,
                    i as int,
                ),
            decreases n - i,
        {
            proof {
                lemma_find_fd(guest.maps.live(), self.maps@[i as int].fake_fd);
            }
            match guest.maps.find(self.maps[i].fake_fd) {
                Some(place) => {
                    assert(guest.maps.live()[place as int] == guest.maps.slots@[place as int]);
                    if guest.maps.slots[place].real_fd < 0 {
                        self.phase = Phase::BindFd { i, place };
                        return Request::BindFd { place };
                    }
                },
                None => {},
            }
            i += 1;
        }
        self.go_relocs(guest)
    }

    fn go_maps(&mut self, guest: &BifrostGuest, from: usize, status: i32) -> (req: Request)
        requires
            old(self).wf(guest),
            from <= old(self).maps@.len(),
        ensures
            final(self).wf(guest),
            final(self).same_command(old(self)),
            step(final(self)@, guest.maps@, req) == enter_maps(
                old(self)@,
                guest.maps@,
                from as int,
                status,
            ),
    {
        let mut i: usize = from;
        let n: usize = self.maps.len();
        while i < n
            invariant
                self.wf(guest),
                *self == *old(self),
                n == self.maps@.len(),
                i <= n,
                enter_maps(self@, guest.maps@, from as int, status) == enter_maps(
                    self@,
                    guest.maps@,
                    i as int,
                    status,
                ),
            decreases n - i,
        {
            match guest.maps.find(self.maps[i].fake_fd) {
                Some(_) => {},
                None => {
                    self.phase = Phase::AllocMap { i, status };
                    return Request::AllocMap { i };
                },
            }
            i += 1;
        }
        if status != 0 {
            self.go_reply(status, false)
        } else {
            self.go_fds(guest, 0)
        }
    }

    /// The kernel answered the allocation of a map with pointer `raw`.
    pub fn map_allocated(&mut self, guest: &mut BifrostGuest, raw: u64) -> (req: Request)
        requires
            old(self).wf(old(guest)),
            old(self).phase is AllocMap,
        ensures
            final(self).wf(final(guest)),
            final(self).same_command(old(self)),
            step(final(self)@, final(guest).maps@, req) == after_map_allocated(
                old(self)@,
                old(guest).maps@,
                raw,
            ),
            final(guest).slots == old(guest).slots,
            final(guest).kprobe_attached == old(guest).kprobe_attached,
            final(guest).prog == old(guest).prog,
    {
        match self.phase {
            Phase::AllocMap { i, status } => {
                let def: MapDef = self.maps[i];
                self.phase = Phase::Done;
                if ptr_is_err(raw) || raw == 0 {
                    let st: i32 = if status == 0 {
                        -ENOMEM
                    } else {
                        status
                    };
                    self.go_maps(guest, i + 1, st)
                } else if guest.maps.num_maps >= MAX_MAPS_PER_PROG {
                    Request::MapTableFull
                } else {
                    guest.maps.record(raw, def.fake_fd, def.agg_kind());
                    self.go_maps(guest, i + 1, status)
                }
            },
            _ => vstd::pervasive::unreached(),
        }
    }

    /// The kernel answered the request for a descriptor with `fd`.
    pub fn fd_bound(&mut self, guest: &mut BifrostGuest, fd: i32) -> (req: Request)
        requires
            old(self).wf(old(guest)),
            old(self).phase is BindFd,
        ensures
            final(self).wf(final(guest)),
            final(self).same_command(old(self)),
            step(final(self)@, final(guest).maps@, req) == after_fd_bound(
                old(self)@,
                old(guest).maps@,
                fd,
            ),
            final(guest).slots == old(guest).slots,
            final(guest).kprobe_attached == old(guest).kprobe_attached,
            final(guest).prog == old(guest).prog,
    {
        match self.phase {
            Phase::BindFd { i, place } => {
                self.phase = Phase::Done;
                if fd >= 0 {
                    guest.maps.set_real_fd(place, fd);
                }
                self.go_fds(guest, i + 1)
            },
            _ => vstd::pervasive::unreached(),
        }
    }

    fn go_reloc_failed(&mut self, guest: &mut BifrostGuest, detail: Vec<u8>) -> (req: Request)
        requires
            old(self).wf(old(guest)),
        ensures
            final(self).wf(final(guest)),
            final(self).same_command(old(self)),
            step(final(self)@, final(guest).maps@, req) == reloc_failed(
                old(self)@,
                old(guest).maps@,
                detail@,
            ),
            final(guest).slots == old(guest).slots,
            final(guest).kprobe_attached == old(guest).kprobe_attached,
            final(guest).prog == old(guest).prog,
    {
        self.to_close = guest.maps.take_real_fds();
        self.detail = detail;
        self.go_reply(-EINVAL, false)
    }

    fn go_verify(&mut self, target: Option<FbtTarget>) -> (req: Request)
        ensures
            final(self)@ == old(self)@.at(Phase::Verify),
            final(self).same_command(old(self)),
            req == (Request::VerifyProg { target }),
    {
        self.phase = Phase::Verify;
        Request::VerifyProg { target }
    }

    fn go_unresolved(&mut self) -> (req: Request)
        ensures
            final(self)@ == (LoadState { detail: old(self)@.target, ..old(self)@ }).at(
                Phase::Verify,
            ),
            final(self).same_command(old(self)),
            req == (Request::VerifyProg { target: None }),
    {
        self.detail = vstd::slice::slice_to_vec(self.target());
        self.go_verify(None)
    }

    /// The kernel's type information is there, or is not.
    pub fn btf_found(&mut self, guest: &mut BifrostGuest, found: bool) -> (req: Request)
        requires
            old(self).wf(old(guest)),
            old(self).phase is RelocBtf || old(self).phase is FbtBtf,
        ensures
            final(self).wf(final(guest)),
            final(self).same_command(old(self)),
            step(final(self)@, final(guest).maps@, req) == after_btf_found(
                old(self)@,
                old(guest).maps@,
                found,
            ),
            final(guest).slots == old(guest).slots,
            final(guest).kprobe_attached == old(guest).kprobe_attached,
            final(guest).prog == old(guest).prog,
    {
        match self.phase {
            Phase::RelocBtf => {
                if found {
                    self.go_kfunc(guest, 0)
                } else {
                    let detail: Vec<u8> = vstd::slice::slice_to_vec(
                        "vmlinux BTF unavailable".as_bytes(),
                    );
                    self.go_reloc_failed(guest, detail)
                }
            },
            _ => {
                if found {
                    self.phase = Phase::FbtFunc;
                    Request::FindTarget
                } else {
                    self.go_unresolved()
                }
            },
        }
    }

    /// The lookup of a function gave `btf_id`, which is negative if there is none.
    pub fn func_found(&mut self, guest: &mut BifrostGuest, btf_id: i32) -> (req: Request)
        requires
            old(self).wf(old(guest)),
            old(self).phase is Kfunc || old(self).phase is FbtFunc,
        ensures
            final(self).wf(final(guest)),
            final(self).same_command(old(self)),
            step(final(self)@, final(guest).maps@, req) == after_func_found(
                old(self)@,
                old(guest).maps@,
                btf_id,
            ),
            final(guest).slots == old(guest).slots,
            final(guest).kprobe_attached == old(guest).kprobe_attached,
            final(guest).prog == old(guest).prog,
    {
        match self.phase {
            Phase::Kfunc { k } => {
                assert(reloc_views(self.relocs@)[k as int] == self.relocs@[k as int]@);
                assert(k < self.relocs.len());
                if btf_id < 0 {
                    let detail: Vec<u8> = vstd::slice::slice_to_vec(
                        self.relocs[k].name.as_slice(),
                    );
                    self.go_reloc_failed(guest, detail)
                } else {
                    let idx: usize = self.relocs[k].insn_idx as usize;
                    let mut insn: BpfInsn = self.insns[idx];
                    insn.imm = btf_id;
                    self.insns[idx] = insn;
                    self.go_kfunc(guest, k + 1)
                }
            },
            _ => {
                if btf_id < 0 {
                    self.go_unresolved()
                } else {
                    self.phase = Phase::SetType { btf_id: Some(btf_id) };
                    Request::SetProgType { prog_type: BPF_PROG_TYPE_TRACING }
                }
            },
        }
    }

    /// The program was allocated, or was not.
    pub fn prog_allocated(
        &mut self,
        guest: &BifrostGuest,
        allocated: bool,
        has_aux: bool,
    ) -> (req: Request)
        requires
            old(self).wf(guest),
            old(self).phase is AllocProg,
        ensures
            final(self).wf(guest),
            final(self).same_command(old(self)),
            step(final(self)@, guest.maps@, req) == after_prog_allocated(
                old(self)@,
                guest.maps@,
                allocated,
                has_aux,
            ),
    {
        if !allocated {
            return self.go_reply(-ENOMEM, false);
        }
        if !has_aux {
            return self.go_verify(None);
        }
        match self.family {
            ProbeType::Fentry | ProbeType::Fexit => {
                self.phase = Phase::FbtBtf;
                Request::VmlinuxBtf
            },
            ProbeType::Tracepoint => {
                self.phase = Phase::SetType { btf_id: None };
                Request::SetProgType { prog_type: BPF_PROG_TYPE_RAW_TRACEPOINT }
            },
            ProbeType::ProfileTimer => {
                self.phase = Phase::SetType { btf_id: None };
                Request::SetProgType { prog_type: BPF_PROG_TYPE_PERF_EVENT }
            },
            _ => self.go_verify(None),
        }
    }

    /// Setting the type gave `rc`.
    pub fn type_set(&mut self, guest: &BifrostGuest, rc: i32) -> (req: Request)
        requires
            old(self).wf(guest),
            old(self).phase is SetType,
        ensures
            final(self).wf(guest),
            final(self).same_command(old(self)),
            step(final(self)@, guest.maps@, req) == after_type_set(
                old(self)@,
                guest.maps@,
                rc,
            ),
    {
        match self.phase {
            Phase::SetType { btf_id: Some(btf_id) } if rc == 0 => {
                let attach_type: u32 = if self.family == ProbeType::Fentry {
                    BPF_TRACE_FENTRY
                } else {
                    BPF_TRACE_FEXIT
                };
                self.go_verify(Some(FbtTarget { attach_type, btf_id }))
            },
            _ => self.go_verify(None),
        }
    }

    /// The verifier gave `rc`.
    pub fn verified(&mut self, guest: &mut BifrostGuest, rc: i32) -> (req: Request)
        requires
            old(self).wf(old(guest)),
            old(self).phase is Verify,
        ensures
            final(self).wf(final(guest)),
            final(self).same_command(old(self)),
            step(final(self)@, final(guest).maps@, req) == after_verified(
                old(self)@,
                old(guest).maps@,
                rc,
            ),
            final(guest).slots == old(guest).slots,
            final(guest).kprobe_attached == old(guest).kprobe_attached,
            final(guest).prog == old(guest).prog,
    {
        self.to_close = guest.maps.take_real_fds();
        if rc != 0 {
            self.go_reply(rc, true)
        } else {
            self.phase = Phase::Jit;
            Request::SelectRuntime
        }
    }

    /// The compiler gave `err` and program `prog`.  A compiled program is put
    /// into the slot together with its probe type and target name.
    pub fn jitted(&mut self, guest: &mut BifrostGuest, err: i32, prog: u64) -> (req: Request)
        requires
            old(self).wf(old(guest)),
            old(self).phase is Jit,
        ensures
            final(self).wf(final(guest)),
            final(self).same_command(old(self)),
            step(final(self)@, final(guest).maps@, req) == after_jitted(
                old(self)@,
                old(guest).maps@,
                err,
                prog,
            ),
            final(guest).maps == old(guest).maps,
            final(guest).kprobe_attached == old(guest).kprobe_attached,
            final(guest).slots.num_kprobes == old(guest).slots.num_kprobes,
            final(guest).slots.next_lease == old(guest).slots.next_lease,
            err == 0 && prog != 0 ==> {
                let n = old(self).slot as int;
                let new = final(guest).slots.slots@[n];
                &&& new.prog == prog
                &&& new.probe_type == old(self).layout.probe_type
                &&& new.target_name@ == old(self).layout.target_name@
                &&& new.lease == old(guest).slots.slots@[n].lease
                &&& new.links == old(guest).slots.slots@[n].links
                &&& final(guest).slots.slots@ == old(guest).slots.slots@.update(n, new)
                &&& final(guest).prog == if n == 0 {
                    prog
                } else {
                    old(guest).prog
                }
            },
            !(err == 0 && prog != 0) ==> final(guest).slots == old(guest).slots && final(guest).prog
                == old(guest).prog,
    {
        self.to_close = Vec::new();
        if err == 0 && prog != 0 {
            let n: usize = self.slot;
            let target_name: Vec<u8> = vstd::slice::slice_to_vec(
                self.layout.target_name.as_slice(),
            );
            let probe_type: u8 = self.layout.probe_type;
            guest.slots.slots[n].prog = prog;
            guest.slots.slots[n].probe_type = probe_type;
            guest.slots.slots[n].target_name = target_name;
            if n == 0 {
                guest.prog = prog;
            }
            self.phase = Phase::Attach;
            Request::AttachSlot { slot: n }
        } else if err != 0 {
            self.go_reply(err, true)
        } else {
            self.go_reply(-EINVAL, true)
        }
    }

    /// Attaching gave `rc`.
    pub fn attached(&mut self, guest: &BifrostGuest, rc: i32) -> (req: Request)
        requires
            old(self).wf(guest),
            old(self).phase is Attach,
        ensures
            final(self).wf(guest),
            final(self).same_command(old(self)),
            step(final(self)@, guest.maps@, req) == after_attached(
                old(self)@,
                guest.maps@,
                rc,
            ),
    {
        if rc == 0 {
            self.detail = Vec::new();
        }
        self.go_reply(rc, false)
    }

    /// The program as it is handed to the kernel.
    pub fn image(&self) -> (r: Vec<u8>)
        ensures
            r@ == program_image(self.insns@),
    {
        encode_program(&self.insns)
    }

    /// The target name without its padding.
    pub fn target(&self) -> (r: &[u8])
        ensures
            r@ == self@.target,
    {
        let n: usize = nul_position(self.layout.target_name.as_slice());
        proof {
            lemma_first_nul(self.layout.target_name@);
        }
        vstd::slice::slice_subrange(self.layout.target_name.as_slice(), 0, n)
    }
}

/// An answer of the kernel.
pub enum Answer {
    MapAllocated { raw: u64 },
    FdBound { fd: i32 },
    BtfFound { found: bool },
    FuncFound { btf_id: i32 },
    ProgAllocated { allocated: bool, has_aux: bool },
    TypeSet { rc: i32 },
    Verified { rc: i32 },
    Jitted { err: i32, prog: u64 },
    Attached { rc: i32 },
}

/// Whether `a` answers the request of a load in phase `p`.
pub open spec fn answers(p: Phase, a: Answer) -> bool {
    match a {
        Answer::MapAllocated { .. } => p is AllocMap,
        Answer::FdBound { .. } => p is BindFd,
        Answer::BtfFound { .. } => p is RelocBtf || p is FbtBtf,
        Answer::FuncFound { .. } => p is Kfunc || p is FbtFunc,
        Answer::ProgAllocated { .. } => p is AllocProg,
        Answer::TypeSet { .. } => p is SetType,
        Answer::Verified { .. } => p is Verify,
        Answer::Jitted { .. } => p is Jit,
        Answer::Attached { .. } => p is Attach,
    }
}

/// What follows answer `a`.
pub open spec fn after(s: LoadState, m: MapsView, a: Answer) -> Step {
    match a {
        Answer::MapAllocated { raw } => after_map_allocated(s, m, raw),
        Answer::FdBound { fd } => after_fd_bound(s, m, fd),
        Answer::BtfFound { found } => after_btf_found(s, m, found),
        Answer::FuncFound { btf_id } => after_func_found(s, m, btf_id),
        Answer::ProgAllocated { allocated, has_aux } => after_prog_allocated(
            s,
            m,
            allocated,
            has_aux,
        ),
        Answer::TypeSet { rc } => after_type_set(s, m, rc),
        Answer::Verified { rc } => after_verified(s, m, rc),
        Answer::Jitted { err, prog } => after_jitted(s, m, err, prog),
        Answer::Attached { rc } => after_attached(s, m, rc),
    }
}

/// An upper bound of the answers that a load still needs.
pub open spec fn answers_left(s: LoadState) -> int {
    let n = s.maps.len() as int;
    let r = s.relocs.len() as int;
    match s.phase {
        Phase::AllocMap { i, .. } => 12 + r + 2 * n - i,
        Phase::BindFd { i, .. } => 11 + r + n - i,
        Phase::RelocBtf => 10 + r,
        Phase::Kfunc { k } => 9 + r - k,
        Phase::AllocProg => 8,
        Phase::FbtBtf => 7,
        Phase::FbtFunc => 6,
        Phase::SetType { .. } => 5,
        Phase::Verify => 4,
        Phase::Jit => 3,
        Phase::Attach => 2,
        Phase::Done => 0,
    }
}

/// The phase of a load speaks of a definition or relocation that it has.
pub open spec fn in_range(s: LoadState) -> bool {
    &&& s.maps.len() <= MAX_MAPS_PER_PROG
    &&& s.relocs.len() <= u32::MAX
    &&& match s.phase {
        Phase::AllocMap { i, .. } => i < s.maps.len(),
        Phase::BindFd { i, .. } => i < s.maps.len(),
        Phase::Kfunc { k } => k < s.relocs.len(),
        _ => true,
    }
}

/// Whether a request ends the load.
pub open spec fn ends(req: Request) -> bool {
    req is Reply || req is MapTableFull
}

/// A request for which the load waits, and which it counts on.
pub open spec fn sound(st: Step, s: LoadState) -> bool {
    &&& in_range(st.s)
    &&& st.s.maps == s.maps
    &&& st.s.relocs == s.relocs
    &&& ends(st.req) == (st.s.phase is Done)
    &&& st.req matches Request::Reply { status, .. } ==> status != 0
}

proof fn lemma_enter_fds(s: LoadState, m: MapsView, i: int)
    requires
        0 <= i,
        s.maps.len() <= MAX_MAPS_PER_PROG,
        s.relocs.len() <= u32::MAX,
    ensures
        sound(enter_fds(s, m, i), s),
        answers_left(enter_fds(s, m, i).s) <= 11 + s.relocs.len() + if i < s.maps.len() {
            s.maps.len() - i
        } else {
            0
        },
    decreases s.maps.len() - i,
{
    if i < s.maps.len() {
        lemma_enter_fds(s, m, i + 1);
    }
}

proof fn lemma_enter_maps(s: LoadState, m: MapsView, i: int, status: i32)
    requires
        0 <= i <= s.maps.len(),
        s.maps.len() <= MAX_MAPS_PER_PROG,
        s.relocs.len() <= u32::MAX,
    ensures
        sound(enter_maps(s, m, i, status), s),
        answers_left(enter_maps(s, m, i, status).s) <= 12 + s.relocs.len() + 2 * s.maps.len() - i,
    decreases s.maps.len() - i,
{
    if i < s.maps.len() {
        lemma_enter_maps(s, m, i + 1, status);
    } else {
        lemma_enter_fds(s, m, 0);
    }
}

/// Every answer brings a load nearer to its end, and a load is at its end
/// exactly when it replies or finds the map table full.
pub proof fn law_every_answer_makes_progress(s: LoadState, m: MapsView, a: Answer)
    requires
        in_range(s),
        answers(s.phase, a),
    ensures
        0 <= answers_left(after(s, m, a).s) < answers_left(s),
        in_range(after(s, m, a).s),
        ends(after(s, m, a).req) == (after(s, m, a).s.phase is Done),
{
    match a {
        Answer::MapAllocated { raw } => {
            let d = s.at(Phase::Done);
            if let Phase::AllocMap { i, status } = s.phase {
                let st = if status == 0 {
                    (-ENOMEM) as i32
                } else {
                    status
                };
                lemma_enter_maps(d, m, i + 1, st);
                let def = s.maps[i as int];
                lemma_enter_maps(d, m.recorded(raw, def.fake_fd, def.kind()), i + 1, status);
            }
        },
        Answer::FdBound { fd } => {
            let d = s.at(Phase::Done);
            if let Phase::BindFd { i, place } = s.phase {
                lemma_enter_fds(d, m, i + 1);
                lemma_enter_fds(d, m.bound(place as int, fd), i + 1);
            }
        },
        _ => {},
    }
}

/// A reply with status zero is sent only when the program was attached, and
/// whenever it was; it carries no diagnostic.
pub proof fn law_status_is_truthful(s: LoadState, m: MapsView, a: Answer)
    requires
        in_range(s),
        answers(s.phase, a),
    ensures
        (after(s, m, a).req matches Request::Reply { status, .. } && status == 0) <==> (
        a matches Answer::Attached { rc } && rc == 0),
        a == (Answer::Attached { rc: 0 }) ==> after(s, m, a).s.detail == Seq::<u8>::empty(),
{
    match a {
        Answer::MapAllocated { raw } => {
            let d = s.at(Phase::Done);
            if let Phase::AllocMap { i, status } = s.phase {
                let st = if status == 0 {
                    (-ENOMEM) as i32
                } else {
                    status
                };
                lemma_enter_maps(d, m, i + 1, st);
                let def = s.maps[i as int];
                lemma_enter_maps(d, m.recorded(raw, def.fake_fd, def.kind()), i + 1, status);
            }
        },
        Answer::FdBound { fd } => {
            let d = s.at(Phase::Done);
            if let Phase::BindFd { i, place } = s.phase {
                lemma_enter_fds(d, m, i + 1);
                lemma_enter_fds(d, m.bound(place as int, fd), i + 1);
            }
        },
        _ => {},
    }
}

/// The reply to a function-boundary program that fails the verifier for want of
/// its target names the target.
pub proof fn law_replies_name_an_unresolved_target(s: LoadState, m: MapsView, a: Answer, rc: i32)
    requires
        answers(s.phase, a),
        s.phase is FbtBtf || s.phase is FbtFunc,
        a matches Answer::BtfFound { found } ==> !found,
        a matches Answer::FuncFound { btf_id } ==> btf_id < 0,
        rc != 0,
    ensures
        after(s, m, a).req == (Request::VerifyProg { target: None }),
        after_verified(after(s, m, a).s, after(s, m, a).m, rc).req == (Request::Reply {
            status: rc,
            free_prog: true,
        }),
        after_verified(after(s, m, a).s, after(s, m, a).m, rc).s.detail == s.target,
{
}

/// The load after `n` answers of a kernel that answers step `p` with `kernel(p)`.
pub open spec fn steps(st: Step, kernel: spec_fn(Step) -> Answer, n: nat) -> Step
    decreases n,
{
    if n == 0 {
        st
    } else {
        let p = steps(st, kernel, (n - 1) as nat);
        if p.s.phase is Done {
            p
        } else {
            after(p.s, p.m, kernel(p))
        }
    }
}

/// Every load ends with exactly one reply: whatever the kernel answers, there
/// is one step that ends the load, every step before it asks for something
/// else, and nothing comes after it.  (A full map table ends it without reply.)
pub proof fn law_every_load_ends_once(st: Step, kernel: spec_fn(Step) -> Answer) -> (end: nat)
    requires
        in_range(st.s),
        ends(st.req) == (st.s.phase is Done),
        forall|p: Step| !(p.s.phase is Done) ==> answers(p.s.phase, #[trigger] kernel(p)),
    ensures
        end <= answers_left(st.s),
        ends(steps(st, kernel, end).req),
        forall|n: nat| n < end ==> !ends((#[trigger] steps(st, kernel, n)).req),
        forall|n: nat| n >= end ==> #[trigger] steps(st, kernel, n) == steps(st, kernel, end),
{
    lemma_steps(st, kernel, 0, answers_left(st.s) as nat)
}

/// From step `n`, where `fuel` more answers suffice.
proof fn lemma_steps(st: Step, kernel: spec_fn(Step) -> Answer, n: nat, fuel: nat) -> (end: nat)
    requires
        in_range(steps(st, kernel, n).s),
        forall|k: nat| k <= n ==> ends((#[trigger] steps(st, kernel, k)).req) == (steps(
            st,
            kernel,
            k,
        ).s.phase is Done),
        forall|k: nat| k < n ==> !ends((#[trigger] steps(st, kernel, k)).req),
        0 <= answers_left(steps(st, kernel, n).s) <= fuel,
        forall|p: Step| !(p.s.phase is Done) ==> answers(p.s.phase, #[trigger] kernel(p)),
    ensures
        end <= n + fuel,
        ends(steps(st, kernel, end).req),
        forall|k: nat| k < end ==> !ends((#[trigger] steps(st, kernel, k)).req),
        forall|k: nat| k >= end ==> #[trigger] steps(st, kernel, k) == steps(st, kernel, end),
    decreases fuel,
{
    let p = steps(st, kernel, n);
    if p.s.phase is Done {
        assert forall|k: nat| k >= n implies #[trigger] steps(st, kernel, k) == p by {
            lemma_stays(st, kernel, n, k);
        }
        n
    } else {
        law_every_answer_makes_progress(p.s, p.m, kernel(p));
        assert(steps(st, kernel, n + 1) == after(p.s, p.m, kernel(p)));
        lemma_steps(st, kernel, n + 1, (fuel - 1) as nat)
    }
}

proof fn lemma_stays(st: Step, kernel: spec_fn(Step) -> Answer, n: nat, k: nat)
    requires
        steps(st, kernel, n).s.phase is Done,
        k >= n,
    ensures
        steps(st, kernel, k) == steps(st, kernel, n),
    decreases k,
{
    if k > n {
        lemma_stays(st, kernel, n, (k - 1) as nat);
    }
}

/// Once a program was verified, or a relocation failed, every real descriptor
/// is -1, none is left open, and what was open is what the shell is told to close.
pub proof fn law_descriptors_are_closed(s: LoadState, m: MapsView, rc: i32, detail: Seq<u8>)
    requires
        m.wf(),
    ensures
        forall|j: int|
            0 <= j < m.num_maps ==> (#[trigger] after_verified(s, m, rc).m.slots[j]).real_fd
                == NO_FD,
        forall|j: int|
            0 <= j < m.num_maps ==> (#[trigger] reloc_failed(s, m, detail).m.slots[j]).real_fd
                == NO_FD,
        open_fds(after_verified(s, m, rc).m.live()) == Seq::<i32>::empty(),
        after_verified(s, m, rc).s.to_close == open_fds(m.live()),
        open_fds(reloc_failed(s, m, detail).m.live()) == Seq::<i32>::empty(),
        reloc_failed(s, m, detail).s.to_close == open_fds(m.live()),
{
    assert(m.closed().live() =~= fds_closed(m.live()));
    law_closed_fds_stay_closed(m.live());
}

} // verus!
