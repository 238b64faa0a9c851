use bifrost::attach::{
    attach_answered, slot_family_attach, AttachAnswer, AttachExt, AttachReq, CleanupOp,
};
use bifrost::device::{ProbeAnswer, ProbeReq, ProbeState};
use bifrost::errno::{EBUSY, ENOMEM};
use bifrost::guest::BifrostGuest;
use bifrost::session::SessionTimer;
use bifrost::teardown::{teardown, TeardownOp};
use bifrost::wire::ProbeTypeCodes;

fn codes() -> ProbeTypeCodes {
    ProbeTypeCodes {
        none: 255,
        fentry: 2,
        fexit: 3,
        tracepoint: 4,
        uprobe: 5,
        uretprobe: 6,
        uprobe_by_sym: 7,
        uretprobe_by_sym: 8,
        usdt: 9,
        profile_timer: 10,
    }
}

fn ptr(ptr: u64) -> ProbeAnswer {
    ProbeAnswer::Ptr { ptr }
}

fn run(answers: &[ProbeAnswer]) -> ProbeState {
    let mut s = ProbeState::new();
    for a in answers {
        s = s.next(*a);
    }
    s
}

// what a refused device does from here on
fn unwinding(mut s: ProbeState) -> Vec<ProbeReq> {
    let mut r = vec![];
    loop {
        r.push(s.at);
        if matches!(s.at, ProbeReq::Done { .. }) {
            return r;
        }
        s = s.next(ProbeAnswer::Nothing);
    }
}

const CLAIM: ProbeAnswer = ProbeAnswer::Claimed { ok: true };
const VQS: ProbeAnswer = ProbeAnswer::Status { rc: 0 };
const NO_REGION: ProbeAnswer = ProbeAnswer::Region { found: false, len: 0 };

fn buffered() -> Vec<ProbeAnswer> {
    vec![CLAIM, ptr(1), VQS, ptr(2), ptr(3), ptr(4)]
}

fn with(more: &[ProbeAnswer]) -> ProbeState {
    let mut a = buffered();
    a.extend(more);
    run(&a)
}

#[test]
fn a_second_device_is_refused() {
    let s = run(&[ProbeAnswer::Claimed { ok: false }]);
    assert_eq!(s.at, ProbeReq::Done { status: -EBUSY });
    assert!(!s.live);
}

#[test]
fn the_calls_come_in_their_order() {
    let mut s = ProbeState::new();
    let mut due = vec![];
    for a in buffered() {
        due.push(s.at);
        s = s.next(a);
    }
    due.push(s.at);
    assert_eq!(
        due,
        vec![
            ProbeReq::Claim,
            ProbeReq::AllocGuest,
            ProbeReq::FindVqs,
            ProbeReq::AllocCtrl,
            ProbeReq::AllocEvent,
            ProbeReq::AllocDoorbell,
            ProbeReq::ShmRegion
        ]
    );
}

#[test]
fn a_device_with_its_own_region_comes_up() {
    let s = with(&[ProbeAnswer::Region { found: true, len: 16 << 20 }]);
    assert_eq!(s.at, ProbeReq::MapShm);
    let s = s.next(ptr(9));
    assert_eq!(s.at, ProbeReq::Done { status: 0 });
    assert!(s.shmem_from_virtio);
    assert_eq!(s.shmem_va, 9);
    assert_eq!(s.shmem_n_pages, 0);
    assert_eq!(s.shmem_pfns, 0);
}

#[test]
fn a_device_without_a_usable_region_allocates_one() {
    for region in [NO_REGION, ProbeAnswer::Region { found: true, len: (16 << 20) - 1 }] {
        let s = with(&[region]);
        assert_eq!(s.at, ProbeReq::AllocPfns);
        let s = s.next(ptr(7));
        assert_eq!(s.at, ProbeReq::AllocShmem);
        let s = s.next(ProbeAnswer::Shmem { va: 8, n_pages: 4096 });
        assert_eq!(s.at, ProbeReq::Done { status: 0 });
        assert!(!s.shmem_from_virtio);
        assert_eq!((s.shmem_va, s.shmem_n_pages, s.shmem_pfns), (8, 4096, 7));
    }
    let s = with(&[ProbeAnswer::Region { found: true, len: 17 << 20 }, ptr(0)]);
    assert_eq!(s.at, ProbeReq::AllocPfns);
}

#[test]
fn a_refused_device_gives_everything_back() {
    assert_eq!(
        unwinding(run(&[CLAIM, ptr(0)])),
        vec![ProbeReq::ReleaseDevice, ProbeReq::Done { status: -ENOMEM }]
    );
    assert_eq!(
        unwinding(run(&[CLAIM, ptr(1), ProbeAnswer::Status { rc: -19 }])),
        vec![
            ProbeReq::FreeGuest { guest: 1 },
            ProbeReq::ReleaseDevice,
            ProbeReq::Done { status: -19 }
        ]
    );
    assert_eq!(
        unwinding(run(&[CLAIM, ptr(1), VQS, ptr(2), ptr(0), ptr(4)])),
        vec![
            ProbeReq::FreeCtrl { buf: 2 },
            ProbeReq::FreeDoorbell { buf: 4 },
            ProbeReq::DelVqs,
            ProbeReq::FreeGuest { guest: 1 },
            ProbeReq::ReleaseDevice,
            ProbeReq::Done { status: -ENOMEM }
        ]
    );
    let all = |pfns: bool| {
        let mut r = vec![];
        if pfns {
            r.push(ProbeReq::FreePfns { pfns: 7 });
        }
        r.extend([
            ProbeReq::FreeCtrl { buf: 2 },
            ProbeReq::FreeEvent { buf: 3 },
            ProbeReq::FreeDoorbell { buf: 4 },
            ProbeReq::DelVqs,
            ProbeReq::FreeGuest { guest: 1 },
            ProbeReq::ReleaseDevice,
            ProbeReq::Done { status: -ENOMEM },
        ]);
        r
    };
    assert_eq!(unwinding(with(&[NO_REGION, ptr(0)])), all(false));
    let s = with(&[NO_REGION, ptr(7), ProbeAnswer::Shmem { va: 0, n_pages: 0 }]);
    assert_eq!(unwinding(s), all(true));
}

#[test]
fn a_busy_driver_is_taken_down_in_order() {
    let mut g = BifrostGuest::new(255);
    g.kprobe_attached = true;
    g.slots.num_kprobes = 2;
    g.slots.slots[0].probe_type = 4;
    g.slots.slots[0].prog = 100;
    g.slots.slots[0].lease = 1;
    g.slots.slots[0].links.rawtp_btp = 0x80;
    g.slots.slots[0].links.rawtp_registered = true;
    g.slots.slots[1].probe_type = 7;
    g.slots.slots[1].prog = 101;
    g.slots.slots[1].links.uprobe_handle = 0x14;
    g.slots.slots[1].links.uprobe_inode = 0x13;
    // beyond the slots in use: the program is freed, the links stay
    g.slots.slots[9].prog = 109;
    g.slots.slots[9].lease = 9;
    g.maps.record(0x200, 100, 0);
    g.maps.record(0x201, 101, 0);
    g.maps.set_real_fd(0, 33);
    g.prog = 100;
    let d = with(&[NO_REGION, ptr(7), ProbeAnswer::Shmem { va: 8, n_pages: 4096 }]);
    let mut t = SessionTimer { event: 0x90 };
    let ops = teardown(&mut g, &mut t, &codes(), &d);
    assert_eq!(
        ops,
        vec![
            TeardownOp::ReleaseSession { event: 0x90 },
            TeardownOp::Cleanup { slot: 0, op: CleanupOp::UnregisterTracepoint { btp: 0x80 } },
            TeardownOp::Cleanup { slot: 0, op: CleanupOp::PutTracepoint { btp: 0x80 } },
            TeardownOp::Cleanup { slot: 1, op: CleanupOp::UnregisterUprobe { handle: 0x14 } },
            TeardownOp::Cleanup { slot: 1, op: CleanupOp::PutInode { inode: 0x13 } },
            TeardownOp::UprobeSync,
            TeardownOp::ClearDoorbell,
            TeardownOp::ClearShmem,
            TeardownOp::SynchronizeRcu,
            TeardownOp::FreeProg { prog: 100 },
            TeardownOp::FreeProg { prog: 101 },
            TeardownOp::FreeProg { prog: 109 },
            TeardownOp::FreeMap { map: 0x200 },
            TeardownOp::FreeMap { map: 0x201 },
            TeardownOp::Reset,
            TeardownOp::DelVqs,
            TeardownOp::FreeCtrl { buf: 2 },
            TeardownOp::FreeEvent { buf: 3 },
            TeardownOp::FreeDoorbell { buf: 4 },
            TeardownOp::FreeShmem { va: 8 },
            TeardownOp::FreePfns { pfns: 7 },
            TeardownOp::FreeGuest { guest: 1 },
            TeardownOp::ClearPriv,
            TeardownOp::ReleaseDevice,
        ]
    );
    assert_eq!(t.event, 0);
    assert!(!g.kprobe_attached);
    assert_eq!(g.slots.num_kprobes, 0);
    assert!(g.maps.slots.iter().all(|m| m.handle == 0));
    assert_eq!(g.maps.slots[0].fake_fd, 100);
    assert_eq!(g.maps.slots[0].real_fd, 33);
    assert_eq!(g.maps.slots[1].real_fd, -1);
    assert_eq!(g.maps.num_maps, 0);
    assert_eq!(g.prog, 0);
    assert!(g.slots.slots.iter().all(|s| s.prog == 0));
    assert_eq!(g.slots.slots[0].lease, 0);
    assert_eq!(g.slots.slots[9].lease, 9);
    assert_eq!(g.slots.slots[1].links.uprobe_handle, 0);
}

#[test]
fn an_idle_driver_is_taken_down() {
    let mut g = BifrostGuest::new(255);
    // not attached: slots are left alone
    g.slots.num_kprobes = 1;
    g.slots.slots[0].probe_type = 7;
    g.slots.slots[0].links.uprobe_handle = 0x14;
    let d = with(&[ProbeAnswer::Region { found: true, len: 16 << 20 }, ptr(9)]);
    let mut t = SessionTimer::new();
    let ops = teardown(&mut g, &mut t, &codes(), &d);
    assert_eq!(
        ops,
        vec![
            TeardownOp::ClearDoorbell,
            TeardownOp::ClearShmem,
            TeardownOp::SynchronizeRcu,
            TeardownOp::Reset,
            TeardownOp::DelVqs,
            TeardownOp::FreeCtrl { buf: 2 },
            TeardownOp::FreeEvent { buf: 3 },
            TeardownOp::FreeDoorbell { buf: 4 },
            TeardownOp::UnmapShmem { va: 9 },
            TeardownOp::FreeGuest { guest: 1 },
            TeardownOp::ClearPriv,
            TeardownOp::ReleaseDevice,
        ]
    );
    assert_eq!(g.slots.num_kprobes, 1);
    assert_eq!(g.slots.slots[0].links.uprobe_handle, 0x14);
}

#[test]
fn the_teardown_gives_back_what_attaches_took() {
    let e = AttachExt {
        uprobe_basename: b"",
        uprobe_symbol: b"",
        uprobe_provider: b"",
        uprobe_path_buf: b"",
        uprobe_file_offset: 1000,
    };
    let mut g = BifrostGuest::new(255);
    let attach = |g: &mut BifrostGuest, family: u8, answers: &[AttachAnswer]| {
        let slot = g.slots.num_kprobes;
        g.slots.slots[slot].prog = 100 + family as u64;
        g.slots.slots[slot].probe_type = family;
        let mut s = slot_family_attach(g, &codes(), slot, family, &e).unwrap();
        for a in answers {
            s = attach_answered(g, s, *a);
        }
        s.at
    };
    let found = AttachAnswer::Ptr { ptr: 0x80 };
    let ok = AttachAnswer::Status { rc: 0 };
    let bad = AttachAnswer::Status { rc: -5 };
    let ack = AttachAnswer::Nothing;
    // the first timer fails when its program is set, and gives its event back
    assert_eq!(attach(&mut g, 10, &[found, bad, ack, ack]), AttachReq::Done { status: -5 });
    assert_eq!(g.slots.num_kprobes, 0);
    assert_eq!(attach(&mut g, 10, &[found, ok]), AttachReq::Done { status: 0 });
    assert_eq!(attach(&mut g, 4, &[found, ok]), AttachReq::Done { status: 0 });
    assert_eq!(g.slots.num_kprobes, 2);
    assert_eq!(g.slots.slots[0].links.perf_event, 0x80);
    assert_eq!(g.slots.slots[1].links.rawtp_btp, 0x80);
    let d = with(&[NO_REGION, ptr(7), ProbeAnswer::Shmem { va: 8, n_pages: 4096 }]);
    let mut t = SessionTimer::new();
    let ops = teardown(&mut g, &mut t, &codes(), &d);
    assert_eq!(
        ops[..6],
        [
            TeardownOp::Cleanup { slot: 0, op: CleanupOp::ReleaseEvent { event: 0x80 } },
            TeardownOp::Cleanup { slot: 1, op: CleanupOp::UnregisterTracepoint { btp: 0x80 } },
            TeardownOp::Cleanup { slot: 1, op: CleanupOp::PutTracepoint { btp: 0x80 } },
            TeardownOp::ClearDoorbell,
            TeardownOp::ClearShmem,
            TeardownOp::SynchronizeRcu,
        ]
    );
    for s in &g.slots.slots {
        assert_eq!(s.prog, 0);
        assert_eq!(s.links.perf_event, 0);
        assert_eq!(s.links.rawtp_btp, 0);
        assert!(!s.links.rawtp_registered);
        assert!(!s.links.fbt_linked);
        assert_eq!(s.links.uprobe_handle, 0);
    }
}

#[test]
fn a_session_without_probes_is_stopped_once() {
    let mut g = BifrostGuest::new(255);
    let mut t = SessionTimer { event: 0x90 };
    let d = with(&[NO_REGION, ptr(7), ProbeAnswer::Shmem { va: 8, n_pages: 4096 }]);
    let releases = |ops: &[TeardownOp]| {
        ops.iter().filter(|op| matches!(op, TeardownOp::ReleaseSession { .. })).count()
    };
    let ops = teardown(&mut g, &mut t, &codes(), &d);
    assert_eq!(ops[0], TeardownOp::ReleaseSession { event: 0x90 });
    assert_eq!(releases(&ops), 1);
    assert_eq!(t.event, 0);
    let ops = teardown(&mut g, &mut t, &codes(), &d);
    assert_eq!(ops[0], TeardownOp::ClearDoorbell);
    assert_eq!(releases(&ops), 0);
}

#[test]
fn a_slot_of_a_user_space_family_is_waited_for_without_a_handle() {
    let mut g = BifrostGuest::new(255);
    g.kprobe_attached = true;
    g.slots.num_kprobes = 1;
    g.slots.slots[0].probe_type = 9;
    let mut t = SessionTimer::new();
    let d = with(&[NO_REGION, ptr(7), ProbeAnswer::Shmem { va: 8, n_pages: 4096 }]);
    let ops = teardown(&mut g, &mut t, &codes(), &d);
    assert_eq!(ops[..2], [TeardownOp::UprobeSync, TeardownOp::ClearDoorbell]);
}
