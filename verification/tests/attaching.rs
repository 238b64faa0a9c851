use bifrost::attach::{
    attach_answered, slot_family_attach, slot_family_cleanup, slot_family_label, AttachAnswer,
    AttachExt, AttachReq, AttachState, CleanupOp, Flow,
};
use bifrost::errno::{EINVAL, ENOENT, ENOSPC};
use bifrost::guest::BifrostGuest;
use bifrost::load_prog_parse::LoadProgLayout;
use bifrost::slots::PathRef;
use bifrost::wire::ProbeTypeCodes;

const FENTRY: u8 = 2;
const FEXIT: u8 = 3;
const TRACEPOINT: u8 = 4;
const UPROBE: u8 = 5;
const URETPROBE: u8 = 6;
const BY_SYM: u8 = 7;
const RET_BY_SYM: u8 = 8;
const USDT: u8 = 9;
const PROFILE: u8 = 10;
const PROG: u64 = 0xbf;

fn codes() -> ProbeTypeCodes {
    ProbeTypeCodes {
        none: 255,
        fentry: FENTRY,
        fexit: FEXIT,
        tracepoint: TRACEPOINT,
        uprobe: UPROBE,
        uretprobe: URETPROBE,
        uprobe_by_sym: BY_SYM,
        uretprobe_by_sym: RET_BY_SYM,
        usdt: USDT,
        profile_timer: PROFILE,
    }
}

fn ext<'a>(basename: &'a [u8], path: &'a [u8], off: u64) -> AttachExt<'a> {
    AttachExt {
        uprobe_basename: basename,
        uprobe_symbol: b"sym",
        uprobe_provider: b"prov",
        uprobe_path_buf: path,
        uprobe_file_offset: off,
    }
}

struct Run {
    guest: BifrostGuest,
    s: AttachState,
}

impl Run {
    fn new(family: u8, e: &AttachExt) -> Run {
        let mut guest = BifrostGuest::new(255);
        guest.slots.slots[2].prog = PROG;
        guest.slots.slots[2].probe_type = family;
        let s = match slot_family_attach(&mut guest, &codes(), 2, family, e) {
            Ok(s) => s,
            Err(e) => panic!("{}", e),
        };
        Run { guest, s }
    }

    fn due(&self, r: AttachReq) -> &Run {
        assert_eq!(self.s.at, r);
        self
    }

    fn give(&mut self, a: AttachAnswer) -> &mut Run {
        self.s = attach_answered(&mut self.guest, self.s, a);
        self
    }

    fn ptr(&mut self, ptr: u64) -> &mut Run {
        self.give(AttachAnswer::Ptr { ptr })
    }

    fn rc(&mut self, rc: i32) -> &mut Run {
        self.give(AttachAnswer::Status { rc })
    }

    fn ack(&mut self) -> &mut Run {
        self.give(AttachAnswer::Nothing)
    }

    // the attach has failed, and the program is to be freed
    fn failed(&mut self, status: i32) {
        self.due(AttachReq::FreeProg { prog: PROG });
        assert_eq!(self.guest.slots.slots[2].prog, 0);
        self.ack().due(AttachReq::Done { status });
        let slot = &self.guest.slots.slots[2];
        assert_eq!(slot.lease, 0);
        assert_eq!(slot.prog, 0);
        assert_eq!(slot.links.uprobe_handle, 0);
        assert_eq!(slot.links.uprobe_inode, 0);
        assert_eq!(self.guest.slots.num_kprobes, 0);
        assert!(!self.guest.kprobe_attached);
    }

    fn succeeded(&self) {
        self.due(AttachReq::Done { status: 0 });
        assert_eq!(self.guest.slots.num_kprobes, 3);
        assert!(self.guest.kprobe_attached);
        assert_eq!(self.guest.slots.slots[2].lease, 1);
        assert_eq!(self.guest.slots.slots[2].prog, PROG);
    }

    fn cleanup(&mut self, family: u8) -> (Vec<CleanupOp>, bool) {
        slot_family_cleanup(&mut self.guest, &codes(), 2, family)
    }
}

fn err(e: i64) -> u64 {
    (-e) as u64
}

const KPATH: PathRef = PathRef { mnt: 0x51, dentry: 0x52 };

#[test]
fn a_slot_outside_the_table_is_refused() {
    let mut g = BifrostGuest::new(255);
    let r = slot_family_attach(&mut g, &codes(), 256, FENTRY, &ext(b"", b"", 0));
    assert_eq!(r, Err(-ENOSPC));
    assert_eq!(g.slots.next_lease, 1);
}

#[test]
fn unsupported_families_fail_and_free_the_program() {
    for family in [0, 1, 255] {
        Run::new(family, &ext(b"", b"", 0)).failed(-EINVAL);
    }
}

#[test]
fn a_missing_program_fails_without_anything_to_free() {
    let mut g = BifrostGuest::new(255);
    for family in [FENTRY, TRACEPOINT, PROFILE] {
        let s = slot_family_attach(&mut g, &codes(), 0, family, &ext(b"", b"", 5)).unwrap();
        assert_eq!(s.at, AttachReq::Done { status: -EINVAL });
        assert_eq!(g.slots.slots[0].lease, 0);
    }
    assert_eq!(g.slots.next_lease, 4);
}

#[test]
fn fbt_links_a_trampoline() {
    for (family, attach_type) in [(FENTRY, 24), (FEXIT, 25)] {
        let mut r = Run::new(family, &ext(b"", b"", 0));
        r.due(AttachReq::Trampoline { prog: PROG });
        r.ptr(0x70).due(AttachReq::LinkTrampoline { trampoline: 0x70, attach_type });
        r.rc(0).succeeded();
        assert!(r.guest.slots.slots[2].links.fbt_linked);
        let (ops, had) = r.cleanup(family);
        assert_eq!(
            ops,
            vec![
                CleanupOp::UnlinkTrampoline { trampoline: 0x70 },
                CleanupOp::PutTrampoline { trampoline: 0x70 }
            ]
        );
        assert!(!had);
        assert_eq!(r.cleanup(family).0, vec![]);
        assert_eq!(r.guest.slots.slots[2].lease, 0);
    }
}

#[test]
fn fbt_failures() {
    let mut r = Run::new(FENTRY, &ext(b"", b"", 0));
    r.ptr(0).failed(-EINVAL);
    let mut r = Run::new(FENTRY, &ext(b"", b"", 0));
    r.ptr(0x70).rc(-16).failed(-16);
}

#[test]
fn a_tracepoint_is_registered_and_cleaned_up() {
    let mut r = Run::new(TRACEPOINT, &ext(b"", b"", 0));
    r.due(AttachReq::GetTracepoint);
    r.ptr(0x80).due(AttachReq::RegisterTracepoint { btp: 0x80 });
    r.rc(0).succeeded();
    let (ops, had) = r.cleanup(TRACEPOINT);
    assert_eq!(
        ops,
        vec![
            CleanupOp::UnregisterTracepoint { btp: 0x80 },
            CleanupOp::PutTracepoint { btp: 0x80 }
        ]
    );
    assert!(!had);
    assert_eq!(r.guest.slots.slots[2].links.rawtp_btp, 0);
    assert!(!r.guest.slots.slots[2].links.rawtp_registered);
}

#[test]
fn tracepoint_failures() {
    let mut r = Run::new(TRACEPOINT, &ext(b"", b"", 0));
    r.ptr(0).failed(-ENOENT);
    let mut r = Run::new(TRACEPOINT, &ext(b"", b"", 0));
    r.ptr(0x80).rc(-22).due(AttachReq::PutTracepoint { btp: 0x80 });
    r.ack().failed(-22);
}

#[test]
fn a_profile_timer_runs_the_program() {
    let mut r = Run::new(PROFILE, &ext(b"", b"", 1000));
    r.due(AttachReq::CreateEvent { period_ns: 1000 });
    r.ptr(0x90).due(AttachReq::SetEventProg { event: 0x90 });
    r.rc(0).succeeded();
    let (ops, _) = r.cleanup(PROFILE);
    assert_eq!(ops, vec![CleanupOp::ReleaseEvent { event: 0x90 }]);
}

#[test]
fn profile_timer_failures() {
    Run::new(PROFILE, &ext(b"", b"", 0)).failed(-EINVAL);
    let mut r = Run::new(PROFILE, &ext(b"", b"", 1));
    r.ptr(err(95)).failed(-95);
    let mut r = Run::new(PROFILE, &ext(b"", b"", 1));
    r.ptr(0x90).rc(-17).due(AttachReq::ReleaseEvent { event: 0x90 });
    r.ack().failed(-17);
}

#[test]
fn a_uprobe_on_a_running_program() {
    for (family, ret) in [(UPROBE, false), (URETPROBE, true)] {
        let e = ext(b"", b"/usr/bin/sh\0\0", 0x400);
        assert_eq!(e.comm(Flow::Uprobe), b"sh");
        let mut r = Run::new(family, &e);
        r.due(AttachReq::FindTask);
        r.ptr(0x11).due(AttachReq::TaskExe { task: 0x11 });
        r.ptr(0x12).due(AttachReq::PutTask { task: 0x11 });
        r.ack().due(AttachReq::PinFile { file: 0x12 });
        r.ptr(0x13).due(AttachReq::PutFile { file: 0x12 });
        r.ack().due(AttachReq::Register { inode: 0x13, off: 0x400, ref_ctr_off: 0, ret });
        r.ptr(0x14).succeeded();
        let (ops, had) = r.cleanup(family);
        assert_eq!(
            ops,
            vec![
                CleanupOp::UnregisterUprobe { handle: 0x14 },
                CleanupOp::PutInode { inode: 0x13 }
            ]
        );
        assert!(had);
    }
}

#[test]
fn a_uprobe_falls_back_to_its_path() {
    let e = ext(b"", b"/bin/x\0", 7);
    let at_path = |r: &mut Run| {
        r.due(AttachReq::ResolvePath);
        r.give(AttachAnswer::Path { rc: 0, path: KPATH }).due(AttachReq::PinPath);
        r.ptr(0x13).due(AttachReq::Register { inode: 0x13, off: 7, ref_ctr_off: 0, ret: false });
    };
    // no task, no executable, no inode of the executable
    let mut r = Run::new(UPROBE, &e);
    at_path(r.ptr(0));
    let mut r = Run::new(UPROBE, &e);
    at_path(r.ptr(0x11).ptr(0).ack());
    let mut r = Run::new(UPROBE, &e);
    at_path(r.ptr(0x11).ptr(0x12).ack().ptr(0).ack());
    r.ptr(0x14).succeeded();
    assert_eq!(r.guest.slots.slots[2].links.uprobe_path, KPATH);
    let (ops, had) = r.cleanup(UPROBE);
    assert_eq!(
        ops,
        vec![
            CleanupOp::UnregisterUprobe { handle: 0x14 },
            CleanupOp::PutInode { inode: 0x13 },
            CleanupOp::PutPath { path: KPATH }
        ]
    );
    assert!(had);
    // nothing is left to do, but the family is the same
    assert_eq!(r.cleanup(UPROBE), (vec![], true));
}

#[test]
fn a_uprobe_without_basename_is_looked_up_by_path_at_once() {
    let mut r = Run::new(UPROBE, &ext(b"", b"/bin/\0", 7));
    r.due(AttachReq::ResolvePath);
    // pinning fails
    r.give(AttachAnswer::Path { rc: 0, path: KPATH }).ptr(0);
    r.due(AttachReq::PutPath { path: KPATH });
    r.ack().failed(-ENOENT);
}

#[test]
fn a_failed_registration_gives_back_inode_and_path() {
    let mut r = Run::new(UPROBE, &ext(b"", b"", 7));
    r.give(AttachAnswer::Path { rc: 0, path: KPATH }).ptr(0x13);
    r.ptr(err(22)).due(AttachReq::PutInode { inode: 0x13 });
    r.ack().due(AttachReq::PutPath { path: KPATH });
    r.ack().failed(-22);
    let mut r = Run::new(UPROBE, &ext(b"", b"", 7));
    r.give(AttachAnswer::Path { rc: 0, path: KPATH }).ptr(0x13).ptr(0).ack().ack().failed(-EINVAL);
    let mut r = Run::new(UPROBE, &ext(b"", b"", 7));
    r.give(AttachAnswer::Path { rc: 0, path: KPATH }).ptr(0x13);
    r.ptr(err(4096)).ack().ack().failed(-4096);
}

#[test]
fn a_missing_path_is_looked_up_three_hundred_times() {
    let gone = AttachAnswer::Path { rc: -ENOENT, path: PathRef { mnt: 0, dentry: 0 } };
    let mut r = Run::new(UPROBE, &ext(b"", b"", 7));
    let mut lookups = 0;
    while r.s.at == AttachReq::ResolvePath {
        lookups += 1;
        r.give(gone).due(AttachReq::Sleep);
        r.give(AttachAnswer::Stop { stop: false });
    }
    assert_eq!(lookups, 300);
    r.failed(-ENOENT);
}

#[test]
fn waiting_for_a_path_ends_early() {
    let none = PathRef { mnt: 0, dentry: 0 };
    let mut r = Run::new(UPROBE, &ext(b"", b"", 7));
    r.give(AttachAnswer::Path { rc: -ENOENT, path: none });
    r.give(AttachAnswer::Stop { stop: true }).failed(-ENOENT);
    let mut r = Run::new(UPROBE, &ext(b"", b"", 7));
    r.give(AttachAnswer::Path { rc: -13, path: none }).failed(-13);
    let mut r = Run::new(UPROBE, &ext(b"", b"", 7));
    r.give(AttachAnswer::Path { rc: -ENOENT, path: none });
    r.give(AttachAnswer::Stop { stop: false });
    r.give(AttachAnswer::Path { rc: 0, path: KPATH }).due(AttachReq::PinPath);
}

#[test]
fn a_uprobe_on_a_symbol() {
    for (family, ret) in [(BY_SYM, false), (RET_BY_SYM, true)] {
        let e = ext(b"redis", b"/ignored", 9);
        assert_eq!(e.comm(Flow::UprobeBySym), b"redis");
        let mut r = Run::new(family, &e);
        r.due(AttachReq::FindTask);
        r.ptr(0x11).ptr(0x12).due(AttachReq::ResolveSymbol { file: 0x12 });
        r.give(AttachAnswer::Offsets { rc: 0, off: 0x99, sema: 0x55 });
        r.due(AttachReq::PushSymtabs { task: 0x11 });
        r.ack().due(AttachReq::PutTask { task: 0x11 });
        r.ack().due(AttachReq::PinFile { file: 0x12 });
        r.ptr(0x13).due(AttachReq::PutFile { file: 0x12 });
        r.ack().due(AttachReq::Register { inode: 0x13, off: 0x99, ref_ctr_off: 0, ret });
        r.ptr(0x14).succeeded();
    }
}

#[test]
fn symbol_probe_failures() {
    let e = ext(b"redis", b"", 0);
    Run::new(BY_SYM, &ext(b"", b"", 0)).failed(-ENOENT);
    Run::new(BY_SYM, &e).ptr(0).failed(-ENOENT);
    let mut r = Run::new(BY_SYM, &e);
    r.ptr(0x11).ptr(0).due(AttachReq::PutTask { task: 0x11 });
    r.ack().failed(-ENOENT);
    let mut r = Run::new(BY_SYM, &e);
    r.ptr(0x11).ptr(0x12).give(AttachAnswer::Offsets { rc: -3, off: 1, sema: 1 });
    r.due(AttachReq::PutFile { file: 0x12 });
    r.ack().due(AttachReq::PutTask { task: 0x11 });
    r.ack().failed(-3);
    let mut r = Run::new(BY_SYM, &e);
    r.ptr(0x11).ptr(0x12).give(AttachAnswer::Offsets { rc: 0, off: 1, sema: 0 });
    r.ack().ack().ptr(0).ack().failed(-ENOENT);
}

#[test]
fn a_static_probe_of_a_running_program() {
    let mut r = Run::new(USDT, &ext(b"postgres", b"", 0));
    assert_eq!(r.s.flow, Flow::UsdtByTask);
    r.ptr(0x11).ptr(0x12).due(AttachReq::ResolveUsdt { file: 0x12 });
    r.give(AttachAnswer::Offsets { rc: 0, off: 0x99, sema: 0x55 });
    r.due(AttachReq::PinFile { file: 0x12 });
    r.ptr(0x13).ack().due(AttachReq::PushSymtabs { task: 0x11 });
    r.ack().due(AttachReq::Register { inode: 0x13, off: 0x99, ref_ctr_off: 0x55, ret: false });
    r.ptr(0x14).due(AttachReq::PutTask { task: 0x11 });
    assert!(!r.guest.kprobe_attached);
    r.ack().succeeded();
    assert!(r.cleanup(USDT).1);
}

#[test]
fn a_static_probe_keeps_its_task_until_the_end() {
    let mut r = Run::new(USDT, &ext(b"postgres", b"", 0));
    r.ptr(0x11).ptr(0x12).give(AttachAnswer::Offsets { rc: 0, off: 1, sema: 2 });
    // the symbols are published even if the inode cannot be pinned
    r.ptr(0).ack().due(AttachReq::PushSymtabs { task: 0x11 });
    r.ack().due(AttachReq::PutTask { task: 0x11 });
    r.ack().failed(-ENOENT);
    let mut r = Run::new(USDT, &ext(b"postgres", b"", 0));
    r.ptr(0x11).ptr(0x12).give(AttachAnswer::Offsets { rc: 0, off: 1, sema: 2 });
    r.ptr(0x13).ack().ack().ptr(0).due(AttachReq::PutInode { inode: 0x13 });
    r.ack().due(AttachReq::PutTask { task: 0x11 });
    r.ack().failed(-EINVAL);
}

#[test]
fn a_static_probe_of_a_file() {
    let mut r = Run::new(USDT, &ext(b"/usr/lib/libfoo.so", b"", 0));
    r.due(AttachReq::OpenFile);
    r.ptr(0x12).due(AttachReq::ResolveUsdt { file: 0x12 });
    r.give(AttachAnswer::Offsets { rc: 0, off: 4, sema: 5 });
    r.ptr(0x13).ack();
    r.due(AttachReq::Register { inode: 0x13, off: 4, ref_ctr_off: 5, ret: false });
    r.ptr(0x14).succeeded();
}

#[test]
fn static_probe_of_a_file_failures() {
    let long = [b'/'; 257];
    Run::new(USDT, &ext(&long, b"", 0)).failed(-EINVAL);
    Run::new(USDT, &ext(&long[..256], b"", 0)).due(AttachReq::OpenFile);
    let e = ext(b"/lib", b"", 0);
    Run::new(USDT, &e).ptr(err(13)).failed(-13);
    Run::new(USDT, &e).ptr(0).failed(-ENOENT);
    let mut r = Run::new(USDT, &e);
    r.ptr(0x12).give(AttachAnswer::Offsets { rc: -2, off: 0, sema: 0 });
    r.due(AttachReq::PutFile { file: 0x12 });
    r.ack().failed(-2);
    let mut r = Run::new(USDT, &e);
    r.ptr(0x12).give(AttachAnswer::Offsets { rc: 0, off: 0, sema: 0 });
    r.ptr(0).ack().failed(-ENOENT);
}

#[test]
fn cleanup_of_a_slot_that_was_never_attached() {
    let mut r = Run::new(UPROBE, &ext(b"", b"", 7));
    for family in [FENTRY, FEXIT, TRACEPOINT, PROFILE, 255, 0] {
        assert_eq!(r.cleanup(family), (vec![], false));
    }
    for family in [UPROBE, URETPROBE, BY_SYM, RET_BY_SYM, USDT] {
        assert_eq!(r.cleanup(family), (vec![], true));
    }
    assert_eq!(r.guest.slots.slots[2].lease, 0);
}

#[test]
fn labels() {
    let want = [
        (FENTRY, "fbt"),
        (FEXIT, "fbt"),
        (TRACEPOINT, "tracepoint"),
        (UPROBE, "uprobe"),
        (URETPROBE, "uprobe"),
        (BY_SYM, "uprobe_by_sym"),
        (RET_BY_SYM, "uprobe_by_sym"),
        (USDT, "usdt"),
        (PROFILE, "profile-timer"),
        (255, "none"),
        (0, "unknown"),
    ];
    for (family, label) in want {
        assert_eq!(slot_family_label(&codes(), family), label);
    }
}

#[test]
fn the_layout_of_a_command_tells_the_probe() {
    let mut l = LoadProgLayout::zeroed();
    l.uprobe_basename[..2].copy_from_slice(b"sh");
    l.uprobe_basename_len = 2;
    l.uprobe_file_offset = 5;
    let e = AttachExt::of(&l);
    assert_eq!(e.uprobe_basename, b"sh");
    assert_eq!(e.uprobe_symbol, b"");
    assert_eq!(e.uprobe_path_buf.len(), 257);
    assert_eq!(e.uprobe_file_offset, 5);
}
