//! Taking the device down.
//!
//! No running program may find memory that has been freed.  So the session's
//! timer is stopped, the probes are unregistered and their handlers waited for,
//! the entry points into the driver are cleared, and all readers that are left
//! are waited for, before any program, map or buffer is freed.

use vstd::prelude::*;

use crate::attach::{
    cleaned, cleanup_ops, flow_of, guest_settled, is_uprobe, settled, slot_family_cleanup,
    AttachState, CleanupOp,
};
use crate::device::{holdings, Holding, ProbeState};
use crate::guest::BifrostGuest;
use crate::maps::{MapSlot, MapTable};
use crate::session::SessionTimer;
use crate::slots::{no_links, BifrostSlot, SlotLinks};
use crate::wire::{ProbeTypeCodes, MAX_PROBE_SLOTS};

verus! {

/// A kernel call of taking the device down.
#[derive(Clone, Copy, PartialEq, Eq, Structural, Debug)]
pub enum TeardownOp {
    /// Release the event of the session's timer.
    ReleaseSession { event: u64 },
    /// Clean up a slot.
    Cleanup { slot: usize, op: CleanupOp },
    /// Wait for the handlers of all user-space probes.
    UprobeSync,
    /// Clear the doorbell callback.
    ClearDoorbell,
    /// Clear the address of the shared memory ring.
    ClearShmem,
    /// Wait for all readers.
    SynchronizeRcu,
    FreeProg { prog: u64 },
    FreeMap { map: u64 },
    Reset,
    DelVqs,
    FreeCtrl { buf: u64 },
    FreeEvent { buf: u64 },
    FreeDoorbell { buf: u64 },
    /// Unmap the region that the device offers.
    UnmapShmem { va: u64 },
    /// Free the memory that was allocated.
    FreeShmem { va: u64 },
    FreePfns { pfns: u64 },
    FreeGuest { guest: u64 },
    /// Forget the device's state.
    ClearPriv,
    /// Give up the claim.
    ReleaseDevice,
}

/// The call that stops the session's timer, if there is one.
pub open spec fn session_ops(t: SessionTimer) -> Seq<TeardownOp> {
    if t.event != 0 {
        seq![TeardownOp::ReleaseSession { event: t.event }]
    } else {
        Seq::empty()
    }
}

/// The cleanup calls `ops` of slot `slot`.
pub open spec fn at_slot(slot: int, ops: Seq<CleanupOp>) -> Seq<TeardownOp> {
    ops.map_values(|op: CleanupOp| TeardownOp::Cleanup { slot: slot as usize, op })
}

/// The calls that clean up the first `n` slots.
pub open spec fn slot_ops(codes: ProbeTypeCodes, slots: Seq<BifrostSlot>, n: int) -> Seq<TeardownOp>
    decreases n,
{
    if n <= 0 {
        Seq::empty()
    } else {
        let s = slots[n - 1];
        slot_ops(codes, slots, n - 1) + at_slot(
            n - 1,
            cleanup_ops(codes.family(s.probe_type), s.links),
        )
    }
}

/// Whether slot `s` is of a user-space family.
pub open spec fn of_uprobe_family(codes: ProbeTypeCodes, s: BifrostSlot) -> bool {
    is_uprobe(codes.family(s.probe_type))
}

/// The calls that unregister all probes.
pub open spec fn unregister_ops(codes: ProbeTypeCodes, g: BifrostGuest) -> Seq<TeardownOp> {
    let slots = g.slots.slots@;
    let n = g.slots.num_kprobes as int;
    if !g.kprobe_attached {
        Seq::empty()
    } else if exists|s: int| 0 <= s < n && of_uprobe_family(codes, #[trigger] slots[s]) {
        slot_ops(codes, slots, n).push(TeardownOp::UprobeSync)
    } else {
        slot_ops(codes, slots, n)
    }
}

/// The calls that free the programs of all slots.
pub open spec fn prog_ops(slots: Seq<BifrostSlot>) -> Seq<TeardownOp>
    decreases slots.len(),
{
    if slots.len() == 0 {
        Seq::empty()
    } else if slots.last().prog != 0 {
        prog_ops(slots.drop_last()).push(TeardownOp::FreeProg { prog: slots.last().prog })
    } else {
        prog_ops(slots.drop_last())
    }
}

/// The calls that free the maps.
pub open spec fn map_ops(maps: Seq<MapSlot>) -> Seq<TeardownOp> {
    maps.map_values(|m: MapSlot| TeardownOp::FreeMap { map: m.handle })
}

/// The calls that give back what the device holds.
pub open spec fn device_ops(d: ProbeState) -> Seq<TeardownOp> {
    seq![
        TeardownOp::Reset,
        TeardownOp::DelVqs,
        TeardownOp::FreeCtrl { buf: d.ctrl_buf },
        TeardownOp::FreeEvent { buf: d.event_buf },
        TeardownOp::FreeDoorbell { buf: d.doorbell_buf },
    ] + (if d.shmem_from_virtio {
        seq![TeardownOp::UnmapShmem { va: d.shmem_va }]
    } else {
        seq![
            TeardownOp::FreeShmem { va: d.shmem_va },
            TeardownOp::FreePfns { pfns: d.shmem_pfns },
        ]
    }) + seq![
        TeardownOp::FreeGuest { guest: d.guest },
        TeardownOp::ClearPriv,
        TeardownOp::ReleaseDevice,
    ]
}

/// The calls that cut off whoever might still read what is freed next.
pub open spec fn cut_ops() -> Seq<TeardownOp> {
    seq![TeardownOp::ClearDoorbell, TeardownOp::ClearShmem, TeardownOp::SynchronizeRcu]
}

/// All calls of taking the device down, once the worker has stopped.
pub open spec fn teardown_ops(
    codes: ProbeTypeCodes,
    g: BifrostGuest,
    d: ProbeState,
    t: SessionTimer,
) -> Seq<TeardownOp> {
    session_ops(t) + unregister_ops(codes, g) + cut_ops() + prog_ops(g.slots.slots@) + map_ops(
        g.maps.live(),
    ) + device_ops(d)
}

/// Slot `s` after the teardown; `cleaned_up` tells whether it was cleaned up.
pub open spec fn torn_down(codes: ProbeTypeCodes, s: BifrostSlot, cleaned_up: bool) -> BifrostSlot {
    if cleaned_up {
        BifrostSlot {
            prog: 0,
            lease: 0,
            links: cleaned(codes.family(s.probe_type), s.links),
            ..s
        }
    } else {
        BifrostSlot { prog: 0, ..s }
    }
}

/// Clean up the slots in use, and learn whether one of a user-space family was
/// among them.
fn clean_slots(guest: &mut BifrostGuest, codes: &ProbeTypeCodes, ops: &mut Vec<TeardownOp>) -> (had:
    bool)
    requires
        old(guest).wf(),
    ensures
        final(guest).wf(),
        final(ops)@ == old(ops)@ + slot_ops(
            *codes,
            old(guest).slots.slots@,
            old(guest).slots.num_kprobes as int,
        ),
        had == exists|s: int|
            0 <= s < old(guest).slots.num_kprobes && of_uprobe_family(
                *codes,
                #[trigger] old(guest).slots.slots@[s],
            ),
        forall|s: int|
            0 <= s < MAX_PROBE_SLOTS ==> #[trigger] final(guest).slots.slots@[s] == (if s < old(
                guest,
            ).slots.num_kprobes {
                (BifrostSlot {
                    lease: 0,
                    links: cleaned(
                        codes.family(old(guest).slots.slots@[s].probe_type),
                        old(guest).slots.slots@[s].links,
                    ),
                    ..old(guest).slots.slots@[s]
                })
            } else {
                old(guest).slots.slots@[s]
            }),
        final(guest).slots.num_kprobes == old(guest).slots.num_kprobes,
        final(guest).slots.next_lease == old(guest).slots.next_lease,
        final(guest).kprobe_attached == old(guest).kprobe_attached,
        final(guest).maps == old(guest).maps,
        final(guest).prog == old(guest).prog,
{
    let ghost g0 = *guest;
    let ghost slots0 = guest.slots.slots@;
    let n: usize = guest.slots.num_kprobes;
    let ghost begun = ops@;
    let mut had: bool = false;
    let mut s: usize = 0;
    assert(ops@ =~= begun + slot_ops(*codes, slots0, 0));
    while s < n
        invariant
            s <= n == g0.slots.num_kprobes,
            g0.wf(),
            guest.wf(),
            slots0 == g0.slots.slots@,
            ops@ == begun + slot_ops(*codes, slots0, s as int),
            had == exists|t: int| 0 <= t < s && of_uprobe_family(*codes, #[trigger] slots0[t]),
            forall|t: int|
                0 <= t < MAX_PROBE_SLOTS ==> #[trigger] guest.slots.slots@[t] == (if t < s {
                    (BifrostSlot {
                        lease: 0,
                        links: cleaned(codes.family(slots0[t].probe_type), slots0[t].links),
                        ..slots0[t]
                    })
                } else {
                    slots0[t]
                }),
            guest.slots.num_kprobes == g0.slots.num_kprobes,
            guest.slots.next_lease == g0.slots.next_lease,
            guest.kprobe_attached == g0.kprobe_attached,
            guest.maps == g0.maps,
            guest.prog == g0.prog,
        decreases n - s,
    {
        let probe_type: u8 = guest.slots.slots[s].probe_type;
        let ghost before = guest.slots.slots@;
        assert(before[s as int] == slots0[s as int]);
        let (cleanup, uprobe): (Vec<CleanupOp>, bool) = slot_family_cleanup(
            guest,
            codes,
            s,
            probe_type,
        );
        let ghost head = ops@;
        let ghost tail = at_slot(s as int, cleanup@);
        let mut i: usize = 0;
        while i < cleanup.len()
            invariant
                i <= cleanup@.len(),
                tail == at_slot(s as int, cleanup@),
                ops@ == head + tail.take(i as int),
            decreases cleanup@.len() - i,
        {
            ops.push(TeardownOp::Cleanup { slot: s, op: cleanup[i] });
            assert(tail.take(i + 1) =~= tail.take(i as int).push(tail[i as int]));
            assert(ops@ =~= head + tail.take(i + 1));
            i += 1;
        }
        assert(tail.take(i as int) =~= tail);
        assert(ops@ =~= begun + slot_ops(*codes, slots0, s + 1));
        proof {
            assert(uprobe == of_uprobe_family(*codes, slots0[s as int]));
        }
        had = had || uprobe;
        s += 1;
    }
    had
}

/// Take the programs out of all slots, and add the calls that free them.
fn take_progs(guest: &mut BifrostGuest, ops: &mut Vec<TeardownOp>)
    requires
        old(guest).wf(),
    ensures
        final(guest).wf(),
        final(ops)@ == old(ops)@ + prog_ops(old(guest).slots.slots@),
        forall|s: int|
            0 <= s < MAX_PROBE_SLOTS ==> #[trigger] final(guest).slots.slots@[s] == (BifrostSlot {
                prog: 0,
                ..old(guest).slots.slots@[s]
            }),
        final(guest).slots.num_kprobes == old(guest).slots.num_kprobes,
        final(guest).slots.next_lease == old(guest).slots.next_lease,
        final(guest).kprobe_attached == old(guest).kprobe_attached,
        final(guest).maps == old(guest).maps,
        final(guest).prog == old(guest).prog,
{
    let ghost g0 = *guest;
    let ghost slots0 = guest.slots.slots@;
    let ghost head = ops@;
    let mut s: usize = 0;
    assert(slots0.take(0) =~= Seq::<BifrostSlot>::empty());
    assert(ops@ =~= head + prog_ops(slots0.take(0)));
    while s < guest.slots.slots.len()
        invariant
            s <= MAX_PROBE_SLOTS,
            guest.wf(),
            slots0.len() == MAX_PROBE_SLOTS,
            ops@ == head + prog_ops(slots0.take(s as int)),
            forall|t: int|
                0 <= t < MAX_PROBE_SLOTS ==> #[trigger] guest.slots.slots@[t] == (if t < s {
                    (BifrostSlot { prog: 0, ..slots0[t] })
                } else {
                    slots0[t]
                }),
            guest.slots.num_kprobes == g0.slots.num_kprobes,
            guest.slots.next_lease == g0.slots.next_lease,
            guest.kprobe_attached == g0.kprobe_attached,
            guest.maps == g0.maps,
            guest.prog == g0.prog,
        decreases MAX_PROBE_SLOTS - s,
    {
        let ghost before = ops@;
        assert(slots0.take(s + 1).drop_last() =~= slots0.take(s as int));
        assert(guest.slots.slots@[s as int] == slots0[s as int]);
        match guest.slots.free_slot_prog(s) {
            Some(prog) => {
                ops.push(TeardownOp::FreeProg { prog });
            },
            None => {},
        }
        assert(ops@ =~= head + prog_ops(slots0.take(s + 1)));
        s += 1;
    }
    assert(slots0.take(s as int) =~= slots0);
}

/// Add the calls that free the maps.
fn add_maps(maps: &MapTable, ops: &mut Vec<TeardownOp>)
    requires
        maps.wf(),
    ensures
        final(ops)@ == old(ops)@ + map_ops(maps.live()),
{
    let ghost head = ops@;
    let ghost frees = map_ops(maps.live());
    let mut i: usize = 0;
    while i < maps.num_maps
        invariant
            i <= maps.num_maps,
            maps.wf(),
            frees == map_ops(maps.live()),
            ops@ == head + frees.take(i as int),
        decreases maps.num_maps - i,
    {
        let map: u64 = maps.slots[i].handle;
        if map != 0 {
            ops.push(TeardownOp::FreeMap { map });
        }
        assert(maps.live()[i as int] == maps.slots@[i as int]);
        assert(frees.take(i + 1) =~= frees.take(i as int).push(frees[i as int]));
        assert(ops@ =~= head + frees.take(i + 1));
        i += 1;
    }
    assert(frees.take(i as int) =~= frees);
}

/// Add the calls that give back what the device holds.
fn add_device(d: &ProbeState, ops: &mut Vec<TeardownOp>)
    ensures
        final(ops)@ == old(ops)@ + device_ops(*d),
{
    ops.push(TeardownOp::Reset);
    ops.push(TeardownOp::DelVqs);
    ops.push(TeardownOp::FreeCtrl { buf: d.ctrl_buf });
    ops.push(TeardownOp::FreeEvent { buf: d.event_buf });
    ops.push(TeardownOp::FreeDoorbell { buf: d.doorbell_buf });
    if d.shmem_from_virtio {
        ops.push(TeardownOp::UnmapShmem { va: d.shmem_va });
    } else {
        ops.push(TeardownOp::FreeShmem { va: d.shmem_va });
        ops.push(TeardownOp::FreePfns { pfns: d.shmem_pfns });
    }
    ops.push(TeardownOp::FreeGuest { guest: d.guest });
    ops.push(TeardownOp::ClearPriv);
    ops.push(TeardownOp::ReleaseDevice);
    assert(ops@ =~= old(ops)@ + device_ops(*d));
}

/// Decide how the device is taken down, and bring the driver's state in line.
/// The worker has stopped.
pub fn teardown(
    guest: &mut BifrostGuest,
    timer: &mut SessionTimer,
    codes: &ProbeTypeCodes,
    d: &ProbeState,
) -> (ops: Vec<TeardownOp>)
    requires
        old(guest).wf(),
        d.up(),
    ensures
        final(guest).wf(),
        final(timer).event == 0,
        ops@ == teardown_ops(*codes, *old(guest), *d, *old(timer)),
        forall|s: int|
            0 <= s < MAX_PROBE_SLOTS ==> #[trigger] final(guest).slots.slots@[s] == torn_down(
                *codes,
                old(guest).slots.slots@[s],
                old(guest).kprobe_attached && s < old(guest).slots.num_kprobes,
            ),
        final(guest).slots.num_kprobes == (if old(guest).kprobe_attached {
            0
        } else {
            old(guest).slots.num_kprobes
        }),
        final(guest).slots.next_lease == old(guest).slots.next_lease,
        !final(guest).kprobe_attached,
        final(guest).maps.num_maps == 0,
        final(guest).maps.slots@ == old(guest).maps.slots@.map_values(
            |m: MapSlot| MapSlot { handle: 0, ..m },
        ),
        final(guest).prog == 0,
{
    let ghost g0 = *guest;
    let ghost slots0 = guest.slots.slots@;
    let mut ops: Vec<TeardownOp> = Vec::new();
    match timer.release() {
        Some(event) => {
            ops.push(TeardownOp::ReleaseSession { event });
        },
        None => {},
    }
    assert(ops@ =~= session_ops(*old(timer)));
    if guest.kprobe_attached {
        let had: bool = clean_slots(guest, codes, &mut ops);
        if had {
            ops.push(TeardownOp::UprobeSync);
        }
        guest.kprobe_attached = false;
        guest.slots.num_kprobes = 0;
    }
    let ghost slots1 = guest.slots.slots@;
    let ghost begun = session_ops(*old(timer)) + unregister_ops(*codes, g0);
    assert(ops@ =~= begun);
    ops.push(TeardownOp::ClearDoorbell);
    ops.push(TeardownOp::ClearShmem);
    ops.push(TeardownOp::SynchronizeRcu);
    assert(ops@ =~= begun + cut_ops());
    take_progs(guest, &mut ops);
    proof {
        lemma_prog_ops_agree(slots0, slots1);
    }
    add_maps(&guest.maps, &mut ops);
    add_device(d, &mut ops);
    guest.maps.reset();
    guest.prog = 0;
    ops
}

/// What is freed depends on the programs of the slots alone.
proof fn lemma_prog_ops_agree(a: Seq<BifrostSlot>, b: Seq<BifrostSlot>)
    requires
        a.len() == b.len(),
        forall|s: int| 0 <= s < a.len() ==> (#[trigger] a[s]).prog == b[s].prog,
    ensures
        prog_ops(a) == prog_ops(b),
    decreases a.len(),
{
    if a.len() > 0 {
        lemma_prog_ops_agree(a.drop_last(), b.drop_last());
        assert(a.last() == a[a.len() - 1]);
    }
}

/// The stage of the teardown that a call belongs to.
pub open spec fn stage(op: TeardownOp) -> int {
    match op {
        TeardownOp::ReleaseSession { .. } => 0,
        TeardownOp::Cleanup { .. } => 0,
        TeardownOp::UprobeSync => 1,
        TeardownOp::ClearDoorbell => 2,
        TeardownOp::ClearShmem => 2,
        TeardownOp::SynchronizeRcu => 3,
        TeardownOp::FreeProg { .. } => 4,
        TeardownOp::FreeMap { .. } => 5,
        TeardownOp::ReleaseDevice => 7,
        _ => 6,
    }
}

/// The calls of `ops` follow the stages, and all belong to stages from `lo` to `hi`.
pub open spec fn staged(ops: Seq<TeardownOp>, lo: int, hi: int) -> bool {
    &&& forall|i: int| 0 <= i < ops.len() ==> lo <= stage(#[trigger] ops[i]) <= hi
    &&& forall|i: int, j: int|
        0 <= i < j < ops.len() ==> stage(#[trigger] ops[i]) <= stage(#[trigger] ops[j])
}

proof fn lemma_staged_concat(a: Seq<TeardownOp>, b: Seq<TeardownOp>, lo: int, mid: int, hi: int)
    requires
        staged(a, lo, mid),
        staged(b, mid, hi),
        lo <= mid <= hi,
    ensures
        staged(a + b, lo, hi),
{
    let c = a + b;
    assert forall|i: int| 0 <= i < c.len() implies lo <= stage(#[trigger] c[i]) <= hi by {
        if i < a.len() {
            assert(c[i] == a[i]);
        } else {
            assert(c[i] == b[i - a.len()]);
        }
    }
    assert forall|i: int, j: int| 0 <= i < j < c.len() implies stage(#[trigger] c[i]) <= stage(
        #[trigger] c[j],
    ) by {
        if i < a.len() {
            assert(c[i] == a[i]);
        } else {
            assert(c[i] == b[i - a.len()]);
        }
        if j < a.len() {
            assert(c[j] == a[j]);
        } else {
            assert(c[j] == b[j - a.len()]);
        }
    }
}

proof fn lemma_slot_ops_staged(codes: ProbeTypeCodes, slots: Seq<BifrostSlot>, n: int)
    ensures
        staged(slot_ops(codes, slots, n), 0, 0),
    decreases n,
{
    if n > 0 {
        lemma_slot_ops_staged(codes, slots, n - 1);
        let s = slots[n - 1];
        let b = at_slot(n - 1, cleanup_ops(codes.family(s.probe_type), s.links));
        lemma_staged_concat(slot_ops(codes, slots, n - 1), b, 0, 0, 0);
    }
}

proof fn lemma_prog_ops_staged(slots: Seq<BifrostSlot>)
    ensures
        staged(prog_ops(slots), 4, 4),
    decreases slots.len(),
{
    if slots.len() > 0 {
        lemma_prog_ops_staged(slots.drop_last());
    }
}

/// The teardown follows its order: the timer is stopped and probes are
/// unregistered, then their handlers
/// are waited for, then the entry points are cleared, then the readers are
/// waited for; only then are the programs freed, then the maps, then what the
/// device holds; the claim is given up at the very end.
pub proof fn law_teardown_follows_its_order(
    codes: ProbeTypeCodes,
    g: BifrostGuest,
    d: ProbeState,
    t: SessionTimer,
)
    ensures
        staged(teardown_ops(codes, g, d, t), 0, 7),
        teardown_ops(codes, g, d, t).last() == TeardownOp::ReleaseDevice,
{
    let slots = g.slots.slots@;
    let n = g.slots.num_kprobes as int;
    let v = unregister_ops(codes, g);
    let u = session_ops(t) + v;
    lemma_slot_ops_staged(codes, slots, n);
    lemma_staged_concat(slot_ops(codes, slots, n), seq![TeardownOp::UprobeSync], 0, 1, 1);
    assert(slot_ops(codes, slots, n).push(TeardownOp::UprobeSync) =~= slot_ops(codes, slots, n)
        + seq![TeardownOp::UprobeSync]);
    assert(staged(v, 0, 1));
    lemma_staged_concat(session_ops(t), v, 0, 0, 1);
    lemma_prog_ops_staged(slots);
    let p = prog_ops(slots);
    let m = map_ops(g.maps.live());
    let e = device_ops(d);
    assert(staged(cut_ops(), 1, 3));
    lemma_staged_concat(u, cut_ops(), 0, 1, 3);
    assert(staged(p, 3, 4));
    lemma_staged_concat(u + cut_ops(), p, 0, 3, 4);
    assert(staged(m, 4, 5));
    lemma_staged_concat(u + cut_ops() + p, m, 0, 4, 5);
    assert(staged(e, 5, 7));
    lemma_staged_concat(u + cut_ops() + p + m, e, 0, 5, 7);
    assert(e.last() == TeardownOp::ReleaseDevice);
    assert(teardown_ops(codes, g, d, t).last() == e.last());
}

/// No program, map or buffer is freed before all readers have been waited for.
pub proof fn law_nothing_is_freed_before_the_readers_are_gone(
    codes: ProbeTypeCodes,
    g: BifrostGuest,
    d: ProbeState,
    t: SessionTimer,
    i: int,
)
    requires
        0 <= i < teardown_ops(codes, g, d, t).len(),
        stage(teardown_ops(codes, g, d, t)[i]) >= 4,
    ensures
        exists|k: int| 0 <= k < i && teardown_ops(codes, g, d, t)[k] == TeardownOp::SynchronizeRcu,
{
    law_teardown_follows_its_order(codes, g, d, t);
    let ops = teardown_ops(codes, g, d, t);
    let k = (session_ops(t).len() + unregister_ops(codes, g).len() + 2) as int;
    assert(ops[k] == TeardownOp::SynchronizeRcu);
    assert(stage(ops[k]) == 3);
    if i < k {
        assert(stage(ops[i]) <= stage(ops[k]));
    }
    assert(i != k);
}

proof fn lemma_prog_ops_free_all(slots: Seq<BifrostSlot>, s: int)
    requires
        0 <= s < slots.len(),
        slots[s].prog != 0,
    ensures
        exists|k: int|
            0 <= k < prog_ops(slots).len() && prog_ops(slots)[k] == (TeardownOp::FreeProg {
                prog: slots[s].prog,
            }),
    decreases slots.len(),
{
    let front = slots.drop_last();
    if s < slots.len() - 1 {
        assert(front[s] == slots[s]);
        lemma_prog_ops_free_all(front, s);
        let k = choose|k: int|
            0 <= k < prog_ops(front).len() && prog_ops(front)[k] == (TeardownOp::FreeProg {
                prog: slots[s].prog,
            });
        assert(prog_ops(slots)[k] == prog_ops(front)[k]);
    } else {
        let k = prog_ops(front).len() as int;
        assert(prog_ops(slots)[k] == (TeardownOp::FreeProg { prog: slots[s].prog }));
    }
}

/// The program of every slot and every loaded map is freed.
pub proof fn law_every_program_and_map_is_freed(
    codes: ProbeTypeCodes,
    g: BifrostGuest,
    d: ProbeState,
    t: SessionTimer,
    s: int,
    m: int,
)
    requires
        g.wf(),
        0 <= s < MAX_PROBE_SLOTS,
        0 <= m,
    ensures
        g.slots.slots@[s].prog != 0 ==> teardown_ops(codes, g, d, t).contains(
            TeardownOp::FreeProg { prog: g.slots.slots@[s].prog },
        ),
        m < g.maps.num_maps ==> teardown_ops(codes, g, d, t).contains(
            TeardownOp::FreeMap { map: g.maps.slots@[m].handle },
        ),
{
    let ops = teardown_ops(codes, g, d, t);
    let u = session_ops(t) + unregister_ops(codes, g) + cut_ops();
    let p = prog_ops(g.slots.slots@);
    let f = map_ops(g.maps.live());
    if g.slots.slots@[s].prog != 0 {
        lemma_prog_ops_free_all(g.slots.slots@, s);
        let k = choose|k: int|
            0 <= k < p.len() && p[k] == (TeardownOp::FreeProg { prog: g.slots.slots@[s].prog });
        assert(ops[u.len() + k] == p[k]);
    }
    if m < g.maps.num_maps {
        assert(f[m] == (TeardownOp::FreeMap { map: g.maps.slots@[m].handle }));
        assert(ops[u.len() + p.len() + m] == f[m]);
    }
}

proof fn lemma_slot_ops_have(
    codes: ProbeTypeCodes,
    slots: Seq<BifrostSlot>,
    n: int,
    s: int,
    i: int,
)
    requires
        0 <= s < n <= slots.len() <= usize::MAX,
        0 <= i < cleanup_ops(codes.family(slots[s].probe_type), slots[s].links).len(),
    ensures
        exists|k: int|
            0 <= k < slot_ops(codes, slots, n).len() && slot_ops(codes, slots, n)[k]
                == (TeardownOp::Cleanup {
                slot: s as usize,
                op: cleanup_ops(codes.family(slots[s].probe_type), slots[s].links)[i],
            }),
    decreases n,
{
    let front = slot_ops(codes, slots, n - 1);
    let c = cleanup_ops(codes.family(slots[s].probe_type), slots[s].links);
    let op = TeardownOp::Cleanup { slot: s as usize, op: c[i] };
    if s < n - 1 {
        lemma_slot_ops_have(codes, slots, n - 1, s, i);
        let k = choose|k: int| 0 <= k < front.len() && front[k] == op;
        assert(slot_ops(codes, slots, n)[k] == front[k]);
    } else {
        assert(at_slot(s, c)[i] == op);
        assert(slot_ops(codes, slots, n)[front.len() + i] == at_slot(s, c)[i]);
    }
}

/// While any probe is attached, every cleanup call of every slot in use is
/// among the calls of the teardown.
pub proof fn law_every_probe_is_unregistered(
    codes: ProbeTypeCodes,
    g: BifrostGuest,
    d: ProbeState,
    t: SessionTimer,
    s: int,
    i: int,
)
    requires
        g.wf(),
        g.kprobe_attached,
        0 <= s < g.slots.num_kprobes,
        0 <= i < cleanup_ops(
            codes.family(g.slots.slots@[s].probe_type),
            g.slots.slots@[s].links,
        ).len(),
    ensures
        teardown_ops(codes, g, d, t).contains(
            TeardownOp::Cleanup {
                slot: s as usize,
                op: cleanup_ops(
                    codes.family(g.slots.slots@[s].probe_type),
                    g.slots.slots@[s].links,
                )[i],
            },
        ),
{
    let slots = g.slots.slots@;
    let n = g.slots.num_kprobes as int;
    lemma_slot_ops_have(codes, slots, n, s, i);
    let op = TeardownOp::Cleanup {
        slot: s as usize,
        op: cleanup_ops(codes.family(slots[s].probe_type), slots[s].links)[i],
    };
    let so = slot_ops(codes, slots, n);
    let k = choose|k: int| 0 <= k < so.len() && so[k] == op;
    assert(unregister_ops(codes, g)[k] == op);
    assert(teardown_ops(codes, g, d, t)[session_ops(t).len() + k] == op);
}

proof fn lemma_slot_ops_clean(codes: ProbeTypeCodes, slots: Seq<BifrostSlot>, n: int)
    ensures
        forall|i: int|
            0 <= i < slot_ops(codes, slots, n).len() ==> (#[trigger] slot_ops(
                codes,
                slots,
                n,
            )[i]) is Cleanup,
    decreases n,
{
    if n > 0 {
        lemma_slot_ops_clean(codes, slots, n - 1);
        let front = slot_ops(codes, slots, n - 1);
        let s = slots[n - 1];
        let b = at_slot(n - 1, cleanup_ops(codes.family(s.probe_type), s.links));
        assert forall|i: int| 0 <= i < (front + b).len() implies (#[trigger] (front
            + b)[i]) is Cleanup by {
            if i < front.len() {
                assert((front + b)[i] == front[i]);
            } else {
                assert((front + b)[i] == b[i - front.len()]);
            }
        }
    }
}

/// The event of the session's timer is released once if there is one, before
/// anything else, and never if there is none.
pub proof fn law_the_session_event_is_released_once(
    codes: ProbeTypeCodes,
    g: BifrostGuest,
    d: ProbeState,
    t: SessionTimer,
    i: int,
)
    requires
        0 <= i < teardown_ops(codes, g, d, t).len(),
    ensures
        teardown_ops(codes, g, d, t)[i] is ReleaseSession <==> i == 0 && t.event != 0,
        t.event != 0 ==> teardown_ops(codes, g, d, t)[0] == (TeardownOp::ReleaseSession {
            event: t.event,
        }),
{
    let ops = teardown_ops(codes, g, d, t);
    let slots = g.slots.slots@;
    let n = g.slots.num_kprobes as int;
    let a = session_ops(t);
    let v = unregister_ops(codes, g);
    law_teardown_follows_its_order(codes, g, d, t);
    lemma_slot_ops_clean(codes, slots, n);
    if i < a.len() {
        assert(ops[i] == a[i]);
    } else if i < a.len() + v.len() {
        assert(ops[i] == v[i - a.len()]);
        if i - a.len() < slot_ops(codes, slots, n).len() {
            assert(v[i - a.len()] == slot_ops(codes, slots, n)[i - a.len()]);
        }
    } else {
        let k = a.len() + v.len();
        assert(ops[k as int] == cut_ops()[0]);
        assert(stage(ops[k as int]) == 2);
        assert(stage(ops[i]) >= 2);
    }
}

/// The call that gives `h` back.
pub open spec fn gives_back(d: ProbeState, h: Holding) -> TeardownOp {
    match h {
        Holding::Device => TeardownOp::ReleaseDevice,
        Holding::Guest { guest } => TeardownOp::FreeGuest { guest },
        Holding::Vqs => TeardownOp::DelVqs,
        Holding::Ctrl { buf } => TeardownOp::FreeCtrl { buf },
        Holding::Event { buf } => TeardownOp::FreeEvent { buf },
        Holding::Doorbell { buf } => TeardownOp::FreeDoorbell { buf },
        Holding::Pfns { pfns } => TeardownOp::FreePfns { pfns },
        Holding::Shmem { va } => if d.shmem_from_virtio {
            TeardownOp::UnmapShmem { va }
        } else {
            TeardownOp::FreeShmem { va }
        },
    }
}

/// All that a device holds when it is up is given back.
pub proof fn law_a_device_gives_back_all(
    codes: ProbeTypeCodes,
    g: BifrostGuest,
    d: ProbeState,
    t: SessionTimer,
    h: Holding,
)
    requires
        d.up(),
        holdings(d).contains(h),
    ensures
        teardown_ops(codes, g, d, t).contains(gives_back(d, h)),
{
    let e = device_ops(d);
    let tail = if d.shmem_from_virtio {
        6int
    } else {
        7
    };
    let k = match h {
        Holding::Device => tail + 2,
        Holding::Guest { .. } => tail,
        Holding::Vqs => 1,
        Holding::Ctrl { .. } => 2,
        Holding::Event { .. } => 3,
        Holding::Doorbell { .. } => 4,
        Holding::Shmem { .. } => 5,
        Holding::Pfns { .. } => 6,
    };
    assert(e[k] == gives_back(d, h));
    let ops = teardown_ops(codes, g, d, t);
    assert(ops[ops.len() - e.len() + k] == e[k]);
}

/// A slot with such links holds no kernel object.
pub open spec fn idle(l: SlotLinks) -> bool {
    &&& l.uprobe_handle == 0 && l.uprobe_inode == 0 && l.uprobe_path.dentry == 0
    &&& !l.fbt_linked
    &&& !l.rawtp_registered && l.rawtp_btp == 0
    &&& l.perf_event == 0
}

/// Whatever the slots hold, the teardown will give back: slots in use become
/// idle by the cleanup of their family, the others are idle, and while no probe
/// is attached all are.
pub open spec fn tidy(codes: ProbeTypeCodes, g: BifrostGuest) -> bool {
    forall|s: int|
        0 <= s < MAX_PROBE_SLOTS ==> {
            let slot = #[trigger] g.slots.slots@[s];
            &&& idle(cleaned(codes.family(slot.probe_type), slot.links))
            &&& s >= g.slots.num_kprobes ==> idle(slot.links)
            &&& !g.kprobe_attached ==> idle(slot.links)
        }
}

/// A driver that has attached nothing is tidy.
pub proof fn law_a_new_driver_is_tidy(codes: ProbeTypeCodes, g: BifrostGuest)
    requires
        forall|s: int|
            0 <= s < MAX_PROBE_SLOTS ==> (#[trigger] g.slots.slots@[s]).links == no_links(),
    ensures
        tidy(codes, g),
{
}

/// Giving the next slot a program, a probe type, a name or a lease keeps the
/// driver tidy.
pub proof fn law_a_program_keeps_the_driver_tidy(
    codes: ProbeTypeCodes,
    before: BifrostGuest,
    after: BifrostGuest,
    slot: BifrostSlot,
)
    requires
        before.wf(),
        tidy(codes, before),
        before.slots.num_kprobes < MAX_PROBE_SLOTS,
        slot.links == before.slots.slots@[before.slots.num_kprobes as int].links,
        after.slots.slots@ == before.slots.slots@.update(
            before.slots.num_kprobes as int,
            slot,
        ),
        after.slots.num_kprobes == before.slots.num_kprobes,
        after.kprobe_attached == before.kprobe_attached,
    ensures
        tidy(codes, after),
{
    let n = before.slots.num_kprobes as int;
    assert(idle(before.slots.slots@[n].links));
    assert forall|s: int| 0 <= s < MAX_PROBE_SLOTS implies {
        let slot = #[trigger] after.slots.slots@[s];
        &&& idle(cleaned(codes.family(slot.probe_type), slot.links))
        &&& s >= after.slots.num_kprobes ==> idle(slot.links)
        &&& !after.kprobe_attached ==> idle(slot.links)
    } by {
        assert(s != n ==> after.slots.slots@[s] == before.slots.slots@[s]);
    }
}

/// Attaching the probe of the next slot, whether it succeeds or fails, keeps
/// the driver tidy.
pub proof fn law_an_attach_keeps_the_driver_tidy(
    codes: ProbeTypeCodes,
    before: BifrostGuest,
    after: BifrostGuest,
    name: Seq<u8>,
    s: AttachState,
)
    requires
        before.wf(),
        tidy(codes, before),
        s.wf(),
        s.slot == before.slots.num_kprobes,
        s.flow == flow_of(codes.family(before.slots.slots@[s.slot as int].probe_type), name),
        guest_settled(before, after, s),
    ensures
        tidy(codes, after),
{
    let n = s.slot as int;
    let slot0 = before.slots.slots@[n];
    assert(idle(slot0.links));
    let slot1 = settled(slot0, s);
    assert(after.slots.slots@[n] == slot1);
    assert(idle(cleaned(codes.family(slot1.probe_type), slot1.links)));
    assert forall|t: int| 0 <= t < MAX_PROBE_SLOTS implies {
        let slot = #[trigger] after.slots.slots@[t];
        &&& idle(cleaned(codes.family(slot.probe_type), slot.links))
        &&& t >= after.slots.num_kprobes ==> idle(slot.links)
        &&& !after.kprobe_attached ==> idle(slot.links)
    } by {
        if t != n {
            assert(after.slots.slots@[t] == before.slots.slots@[t]);
        }
    }
}

/// After the teardown of a tidy driver no slot holds a kernel object or a
/// program, and the driver is tidy.
pub proof fn law_teardown_leaves_every_slot_idle(
    codes: ProbeTypeCodes,
    before: BifrostGuest,
    after: BifrostGuest,
)
    requires
        tidy(codes, before),
        forall|s: int|
            0 <= s < MAX_PROBE_SLOTS ==> #[trigger] after.slots.slots@[s] == torn_down(
                codes,
                before.slots.slots@[s],
                before.kprobe_attached && s < before.slots.num_kprobes,
            ),
    ensures
        forall|s: int|
            0 <= s < MAX_PROBE_SLOTS ==> idle((#[trigger] after.slots.slots@[s]).links)
                && after.slots.slots@[s].prog == 0,
        tidy(codes, after),
{
    assert forall|s: int| 0 <= s < MAX_PROBE_SLOTS implies idle(
        (#[trigger] after.slots.slots@[s]).links,
    ) && after.slots.slots@[s].prog == 0 by {
        let slot0 = before.slots.slots@[s];
        assert(idle(cleaned(codes.family(slot0.probe_type), slot0.links)));
    }
}

proof fn lemma_slot_ops_from(codes: ProbeTypeCodes, slots: Seq<BifrostSlot>, n: int, i: int)
    requires
        0 <= n <= slots.len() <= usize::MAX,
        0 <= i < slot_ops(codes, slots, n).len(),
    ensures
        slot_ops(codes, slots, n)[i] matches TeardownOp::Cleanup { slot, op } && slot < n
            && cleanup_ops(
            codes.family(slots[slot as int].probe_type),
            slots[slot as int].links,
        ).contains(op),
    decreases n,
{
    if n > 0 {
        let front = slot_ops(codes, slots, n - 1);
        if i < front.len() {
            lemma_slot_ops_from(codes, slots, n - 1, i);
            assert(slot_ops(codes, slots, n)[i] == front[i]);
        } else {
            let c = cleanup_ops(codes.family(slots[n - 1].probe_type), slots[n - 1].links);
            assert(slot_ops(codes, slots, n)[i] == at_slot(n - 1, c)[i - front.len()]);
            assert(c.contains(c[i - front.len()]));
        }
    }
}

proof fn lemma_prog_ops_from(slots: Seq<BifrostSlot>, i: int)
    requires
        0 <= i < prog_ops(slots).len(),
    ensures
        exists|s: int|
            0 <= s < slots.len() && (#[trigger] slots[s]).prog != 0 && prog_ops(slots)[i] == (
            TeardownOp::FreeProg { prog: slots[s].prog }),
    decreases slots.len(),
{
    let front = slots.drop_last();
    if i < prog_ops(front).len() {
        lemma_prog_ops_from(front, i);
        let s = choose|s: int|
            0 <= s < front.len() && (#[trigger] front[s]).prog != 0 && prog_ops(front)[i] == (
            TeardownOp::FreeProg { prog: front[s].prog });
        assert(slots[s] == front[s]);
        assert(prog_ops(slots)[i] == prog_ops(front)[i]);
    } else {
        assert(slots[slots.len() - 1] == slots.last());
    }
}

/// Nothing is cleaned up or freed that is not there: a cleanup is one that a
/// slot in use needs, while any probe is attached; a program that is freed is
/// that of a slot; a map that is freed is one that is loaded.
pub proof fn law_only_what_is_there_is_freed(
    codes: ProbeTypeCodes,
    g: BifrostGuest,
    d: ProbeState,
    t: SessionTimer,
    i: int,
)
    requires
        g.wf(),
        0 <= i < teardown_ops(codes, g, d, t).len(),
    ensures
        teardown_ops(codes, g, d, t)[i] matches TeardownOp::Cleanup { slot, op } ==> {
            &&& g.kprobe_attached
            &&& slot < g.slots.num_kprobes
            &&& cleanup_ops(
                codes.family(g.slots.slots@[slot as int].probe_type),
                g.slots.slots@[slot as int].links,
            ).contains(op)
        },
        teardown_ops(codes, g, d, t)[i] matches TeardownOp::FreeProg { prog } ==> prog != 0
            && exists|s: int|
            0 <= s < g.slots.slots@.len() && (#[trigger] g.slots.slots@[s]).prog == prog,
        teardown_ops(codes, g, d, t)[i] matches TeardownOp::FreeMap { map } ==> map != 0 && exists|
            m: int,
        |
            0 <= m < g.maps.num_maps && (#[trigger] g.maps.slots@[m]).handle == map,
{
    let ops = teardown_ops(codes, g, d, t);
    let slots = g.slots.slots@;
    let n = g.slots.num_kprobes as int;
    let a = session_ops(t);
    let u = unregister_ops(codes, g);
    let p = prog_ops(slots);
    let f = map_ops(g.maps.live());
    let at_u = a.len() as int;
    let at_c = at_u + u.len();
    let at_p = at_c + 3;
    let at_m = at_p + p.len();
    let at_d = at_m + f.len();
    if i < at_u {
        assert(ops[i] == a[i]);
    } else if i < at_c {
        assert(ops[i] == u[i - at_u]);
        let so = slot_ops(codes, slots, n);
        if i - at_u < so.len() {
            lemma_slot_ops_from(codes, slots, n, i - at_u);
            assert(u[i - at_u] == so[i - at_u]);
        }
    } else if i < at_p {
        assert(ops[i] == cut_ops()[i - at_c]);
    } else if i < at_m {
        assert(ops[i] == p[i - at_p]);
        lemma_prog_ops_from(slots, i - at_p);
    } else if i < at_d {
        let m = i - at_m;
        assert(ops[i] == f[m]);
        assert(g.maps.live()[m] == g.maps.slots@[m]);
        assert(g.maps.slots@[m].handle != 0);
    } else {
        assert(ops[i] == device_ops(d)[i - at_d]);
    }
}

/// The handlers of user-space probes are waited for exactly if a probe is
/// attached and a slot in use is of a user-space family.
pub proof fn law_when_handlers_are_waited_for(
    codes: ProbeTypeCodes,
    g: BifrostGuest,
    d: ProbeState,
    t: SessionTimer,
)
    requires
        g.wf(),
    ensures
        teardown_ops(codes, g, d, t).contains(TeardownOp::UprobeSync) <==> g.kprobe_attached
            && exists|s: int|
            0 <= s < g.slots.num_kprobes && {
                let f = codes.family((#[trigger] g.slots.slots@[s]).probe_type);
                f is Uprobe || f is Uretprobe || f is UprobeBySym || f is UretprobeBySym || f is Usdt
            },
{
    let ops = teardown_ops(codes, g, d, t);
    let slots = g.slots.slots@;
    let n = g.slots.num_kprobes as int;
    let a = session_ops(t);
    let u = unregister_ops(codes, g);
    let so = slot_ops(codes, slots, n);
    let any = exists|s: int| 0 <= s < n && of_uprobe_family(codes, #[trigger] slots[s]);
    assert(any <==> exists|s: int|
        0 <= s < g.slots.num_kprobes && {
            let f = codes.family((#[trigger] g.slots.slots@[s]).probe_type);
            f is Uprobe || f is Uretprobe || f is UprobeBySym || f is UretprobeBySym || f is Usdt
        });
    if g.kprobe_attached && any {
        assert(u[so.len() as int] == TeardownOp::UprobeSync);
        assert(ops[(a.len() + so.len()) as int] == TeardownOp::UprobeSync);
    }
    if ops.contains(TeardownOp::UprobeSync) {
        let i = choose|i: int| 0 <= i < ops.len() && ops[i] == TeardownOp::UprobeSync;
        law_teardown_follows_its_order(codes, g, d, t);
        if i < a.len() {
            assert(ops[i] == a[i]);
        } else if i < a.len() + u.len() {
            assert(ops[i] == u[i - a.len()]);
            if i - a.len() < so.len() {
                lemma_slot_ops_from(codes, slots, n, i - a.len());
                assert(u[i - a.len()] == so[i - a.len()]);
            }
        } else {
            let k = (a.len() + u.len()) as int;
            assert(ops[k] == cut_ops()[0]);
            assert(stage(ops[k]) <= stage(ops[i]));
        }
    }
}

/// The memory of a device is unmapped if the device offers it; otherwise it is
/// freed, and so are its frame numbers.
pub proof fn law_how_the_memory_is_given_back(
    codes: ProbeTypeCodes,
    g: BifrostGuest,
    d: ProbeState,
    t: SessionTimer,
    i: int,
)
    requires
        g.wf(),
        0 <= i < teardown_ops(codes, g, d, t).len(),
    ensures
        teardown_ops(codes, g, d, t)[i] is UnmapShmem ==> d.shmem_from_virtio && teardown_ops(
            codes,
            g,
            d,
            t,
        )[i] == (TeardownOp::UnmapShmem { va: d.shmem_va }),
        teardown_ops(codes, g, d, t)[i] is FreeShmem ==> !d.shmem_from_virtio && teardown_ops(
            codes,
            g,
            d,
            t,
        )[i] == (TeardownOp::FreeShmem { va: d.shmem_va }),
        teardown_ops(codes, g, d, t)[i] is FreePfns ==> !d.shmem_from_virtio && teardown_ops(
            codes,
            g,
            d,
            t,
        )[i] == (TeardownOp::FreePfns { pfns: d.shmem_pfns }),
        teardown_ops(codes, g, d, t).contains(
            if d.shmem_from_virtio {
                TeardownOp::UnmapShmem { va: d.shmem_va }
            } else {
                TeardownOp::FreeShmem { va: d.shmem_va }
            },
        ),
{
    let ops = teardown_ops(codes, g, d, t);
    let e = device_ops(d);
    let at = ops.len() - e.len();
    assert(ops[at + 5] == e[5]);
    if i >= at {
        assert(ops[i] == e[i - at]);
    } else {
        law_teardown_follows_its_order(codes, g, d, t);
        let slots = g.slots.slots@;
        let a = session_ops(t);
        let u = unregister_ops(codes, g);
        let p = prog_ops(slots);
        let f = map_ops(g.maps.live());
        let at_c = (a.len() + u.len()) as int;
        let at_m = at_c + 3 + p.len();
        if i < a.len() {
            assert(ops[i] == a[i]);
        } else if i < at_c {
            assert(ops[i] == u[i - a.len()]);
            if i - a.len() < slot_ops(codes, slots, g.slots.num_kprobes as int).len() {
                lemma_slot_ops_from(codes, slots, g.slots.num_kprobes as int, i - a.len());
            }
        } else if i < at_c + 3 {
            assert(ops[i] == cut_ops()[i - at_c]);
        } else if i < at_m {
            assert(ops[i] == p[i - at_c - 3]);
            lemma_prog_ops_from(slots, i - at_c - 3);
        } else {
            assert(ops[i] == f[i - at_m]);
        }
    }
}

/// A slot that is torn down has no program; one that was cleaned up has no lease
/// either, and its links are those that its cleanup leaves; nothing else of it
/// changes.
pub proof fn law_what_a_teardown_leaves_of_a_slot(
    codes: ProbeTypeCodes,
    s: BifrostSlot,
    cleaned_up: bool,
)
    ensures
        ({
            let t = torn_down(codes, s, cleaned_up);
            &&& t.prog == 0
            &&& t.probe_type == s.probe_type
            &&& t.target_name == s.target_name
            &&& cleaned_up ==> t.lease == 0 && t.links == cleaned(
                codes.family(s.probe_type),
                s.links,
            )
            &&& !cleaned_up ==> t.lease == s.lease && t.links == s.links
        }),
{
}

/// Between the unregistering of the probes and the freeing of the programs the
/// entry points are cleared and the readers waited for; after the programs and
/// the maps the device is reset and each thing that it has is given back, once.
pub proof fn law_a_teardown_is_made_of(
    codes: ProbeTypeCodes,
    g: BifrostGuest,
    d: ProbeState,
    t: SessionTimer,
)
    ensures
        ({
            let ops = teardown_ops(codes, g, d, t);
            let a = (session_ops(t).len() + unregister_ops(codes, g).len()) as int;
            let b = a + 3 + prog_ops(g.slots.slots@).len() + map_ops(g.maps.live()).len();
            &&& ops[a] == TeardownOp::ClearDoorbell
            &&& ops[a + 1] == TeardownOp::ClearShmem
            &&& ops[a + 2] == TeardownOp::SynchronizeRcu
            &&& ops[b] == TeardownOp::Reset
            &&& ops[b + 1] == TeardownOp::DelVqs
            &&& ops[b + 2] == (TeardownOp::FreeCtrl { buf: d.ctrl_buf })
            &&& ops[b + 3] == (TeardownOp::FreeEvent { buf: d.event_buf })
            &&& ops[b + 4] == (TeardownOp::FreeDoorbell { buf: d.doorbell_buf })
            &&& d.shmem_from_virtio ==> {
                &&& ops.len() == b + 9
                &&& ops[b + 5] == (TeardownOp::UnmapShmem { va: d.shmem_va })
                &&& ops[b + 6] == (TeardownOp::FreeGuest { guest: d.guest })
                &&& ops[b + 7] == TeardownOp::ClearPriv
                &&& ops[b + 8] == TeardownOp::ReleaseDevice
            }
            &&& !d.shmem_from_virtio ==> {
                &&& ops.len() == b + 10
                &&& ops[b + 5] == (TeardownOp::FreeShmem { va: d.shmem_va })
                &&& ops[b + 6] == (TeardownOp::FreePfns { pfns: d.shmem_pfns })
                &&& ops[b + 7] == (TeardownOp::FreeGuest { guest: d.guest })
                &&& ops[b + 8] == TeardownOp::ClearPriv
                &&& ops[b + 9] == TeardownOp::ReleaseDevice
            }
        }),
{
}

/// The programs are freed slot by slot, each once; the maps place by place; the
/// slots are cleaned up one by one.
pub proof fn law_each_thing_is_freed_once(
    codes: ProbeTypeCodes,
    slots: Seq<BifrostSlot>,
    s: BifrostSlot,
    maps: Seq<MapSlot>,
    m: int,
    n: int,
    k: int,
)
    requires
        0 <= m < maps.len(),
        0 <= n < slots.len() <= usize::MAX,
    ensures
        prog_ops(Seq::empty()).len() == 0,
        s.prog == 0 ==> prog_ops(slots.push(s)) == prog_ops(slots),
        s.prog != 0 ==> prog_ops(slots.push(s)) == prog_ops(slots).push(
            TeardownOp::FreeProg { prog: s.prog },
        ),
        map_ops(maps).len() == maps.len(),
        map_ops(maps)[m] == (TeardownOp::FreeMap { map: maps[m].handle }),
        slot_ops(codes, slots, 0).len() == 0,
        ({
            let c = cleanup_ops(codes.family(slots[n].probe_type), slots[n].links);
            let before = slot_ops(codes, slots, n);
            let after = slot_ops(codes, slots, n + 1);
            &&& after.len() == before.len() + c.len()
            &&& 0 <= k < before.len() ==> after[k] == before[k]
            &&& before.len() <= k < after.len() ==> after[k] == (TeardownOp::Cleanup {
                slot: n as usize,
                op: c[k - before.len()],
            })
        }),
{
    assert(slots.push(s).drop_last() =~= slots);
}

/// The teardown stops the timer and unregisters the probes before all else, and
/// unregisters nothing while no probe is attached.
pub proof fn law_how_a_teardown_begins(
    codes: ProbeTypeCodes,
    g: BifrostGuest,
    d: ProbeState,
    t: SessionTimer,
    k: int,
)
    ensures
        ({
            let ops = teardown_ops(codes, g, d, t);
            let a = session_ops(t).len() as int;
            let so = slot_ops(codes, g.slots.slots@, g.slots.num_kprobes as int);
            let u = unregister_ops(codes, g);
            &&& a == if t.event != 0 {
                1int
            } else {
                0
            }
            &&& !g.kprobe_attached ==> u.len() == 0
            &&& g.kprobe_attached ==> so.len() <= u.len() <= so.len() + 1
            &&& g.kprobe_attached && 0 <= k < so.len() ==> ops[a + k] == so[k]
            &&& g.kprobe_attached && u.len() == so.len() + 1 ==> ops[a + so.len()]
                == TeardownOp::UprobeSync
        }),
{
    let ops = teardown_ops(codes, g, d, t);
    let a = session_ops(t).len() as int;
    let so = slot_ops(codes, g.slots.slots@, g.slots.num_kprobes as int);
    let u = unregister_ops(codes, g);
    if g.kprobe_attached {
        if 0 <= k < so.len() {
            assert(u[k] == so[k]);
            assert(ops[a + k] == u[k]);
        }
        if u.len() == so.len() + 1 {
            assert(ops[a + so.len()] == u[so.len() as int]);
        }
    }
}

} // verus!
