use bifrost::errno::{EINVAL, ENOMEM, ENOSPC};
use bifrost::guest::BifrostGuest;
use bifrost::insn_patch::{encode_program, patch_map_fds, read_insns, read_map_defs, read_relocs};
use bifrost::load_prog::{FbtTarget, LoadProg, Request};
use bifrost::maps::{MapTable, NO_FD};
use bifrost::slots::{BifrostSlot, SlotTable};
use bifrost::types::BpfInsn;
use bifrost::wire::ProbeTypeCodes;

fn codes() -> ProbeTypeCodes {
    ProbeTypeCodes {
        none: 255,
        fentry: 2,
        fexit: 3,
        tracepoint: 4,
        uprobe: 5,
        uretprobe: 6,
        uprobe_by_sym: 7,
        uretprobe_by_sym: 8,
        usdt: 9,
        profile_timer: 10,
    }
}

fn u32s(vs: &[u32]) -> Vec<u8> {
    vs.iter().flat_map(|v| v.to_le_bytes()).collect()
}

fn map_def(map_type: u32, fake_fd: i32, flags: u32) -> Vec<u8> {
    u32s(&[map_type, 4, 8, 16, fake_fd as u32, flags])
}

const EXIT: [u8; 8] = [0x95, 0, 0, 0, 0, 0, 0, 0];
const CALL: [u8; 8] = [0x85, 0x20, 0, 0, 0, 0, 0, 0];

fn map_load(fake_fd: i32) -> [u8; 8] {
    let mut r = [0x18, 0x11, 0, 0, 0, 0, 0, 0];
    r[4..].copy_from_slice(&fake_fd.to_le_bytes());
    r
}

fn cmd(family: u8, maps: &[Vec<u8>], insns: &[[u8; 8]], relocs: &[(u32, &[u8])]) -> Vec<u8> {
    let mut b = u32s(&[maps.len() as u32]);
    let mut name = b"vfs_read".to_vec();
    name.resize(32, 0);
    b.extend(name);
    b.extend(u32s(&[family as u32]));
    for m in maps {
        b.extend(m);
    }
    b.extend(u32s(&[insns.len() as u32]));
    for i in insns {
        b.extend(i);
    }
    b.extend(u32s(&[relocs.len() as u32]));
    for (idx, n) in relocs {
        b.extend(u32s(&[*idx]));
        b.push(n.len() as u8);
        b.extend(*n);
    }
    let mut c = u32s(&[2, b.len() as u32]);
    c.extend(b);
    c
}

fn begin(guest: &BifrostGuest, c: &[u8]) -> (LoadProg, Request) {
    match LoadProg::begin(&codes(), c, guest) {
        Ok(r) => r,
        Err(e) => panic!("refused with {}", e),
    }
}

#[test]
fn a_malformed_command_is_refused() {
    let g = BifrostGuest::new(255);
    assert_eq!(LoadProg::begin(&codes(), &[2, 0, 0, 0], &g).err(), Some(-EINVAL));
}

#[test]
fn a_tracepoint_program_is_loaded() {
    let mut g = BifrostGuest::new(255);
    let c = cmd(4, &[map_def(6, 100, 1)], &[map_load(100), EXIT, CALL], &[(2, b"bpf_k")]);
    let (mut lp, req) = begin(&g, &c);
    assert_eq!(req, Request::AllocMap { i: 0 });
    assert_eq!(lp.maps[0].map_type, 6);
    assert_eq!(lp.map_allocated(&mut g, 0x1000), Request::BindFd { place: 0 });
    assert_eq!(g.maps.num_maps, 1);
    assert_eq!(g.maps.slots[0].handle, 0x1000);
    assert_eq!(g.maps.slots[0].agg_kind, 1);
    assert_eq!(lp.fd_bound(&mut g, 33), Request::VmlinuxBtf);
    // the map load names the real descriptor, its second half is cleared
    assert_eq!(lp.insns[0].imm, 33);
    assert_eq!(lp.insns[1].imm, 0);
    assert_eq!(lp.btf_found(&mut g, true), Request::FindKfunc { k: 0 });
    assert_eq!(lp.relocs[0].name, b"bpf_k");
    assert_eq!(lp.func_found(&mut g, 4711), Request::AllocProg);
    assert_eq!(lp.insns[2].imm, 4711);
    assert_eq!(
        lp.image(),
        [
            [0x18, 0x11, 0, 0, 33, 0, 0, 0],
            EXIT,
            [0x85, 0x20, 0, 0, 0x67, 0x12, 0, 0]
        ]
        .concat()
    );
    assert_eq!(lp.prog_allocated(&g, true, true), Request::SetProgType { prog_type: 17 });
    assert_eq!(lp.type_set(&g, 0), Request::VerifyProg { target: None });
    assert_eq!(lp.verified(&mut g, 0), Request::SelectRuntime);
    assert_eq!(lp.to_close, vec![33]);
    assert_eq!(g.maps.slots[0].real_fd, NO_FD);
    assert_eq!(lp.jitted(&mut g, 0, 0xbeef), Request::AttachSlot { slot: 0 });
    assert!(lp.to_close.is_empty());
    assert_eq!(g.slots.slots[0].prog, 0xbeef);
    assert_eq!(g.slots.slots[0].probe_type, 4);
    assert_eq!(&g.slots.slots[0].target_name[..9], b"vfs_read\0");
    assert_eq!(g.prog, 0xbeef);
    assert_eq!(lp.target(), b"vfs_read");
    assert_eq!(lp.attached(&g, 0), Request::Reply { status: 0, free_prog: false });
}

#[test]
fn a_map_is_shared_between_programs() {
    let mut g = BifrostGuest::new(255);
    g.maps.record(0x77, 100, 0);
    let (mut lp, req) = begin(&g, &cmd(4, &[map_def(6, 100, 9)], &[EXIT], &[]));
    assert_eq!(req, Request::BindFd { place: 0 });
    assert_eq!(lp.fd_bound(&mut g, 5), Request::AllocProg);
    assert_eq!(g.maps.num_maps, 1);
    assert_eq!(g.maps.slots[0].agg_kind, 0);
}

#[test]
fn a_program_without_maps_goes_straight_to_allocation() {
    let g = BifrostGuest::new(255);
    let (_, req) = begin(&g, &cmd(4, &[], &[EXIT], &[]));
    assert_eq!(req, Request::AllocProg);
}

#[test]
fn a_failed_map_fails_the_load_after_the_others_were_tried() {
    let mut g = BifrostGuest::new(255);
    let c = cmd(4, &[map_def(6, 1, 0), map_def(6, 2, 0), map_def(6, 3, 0)], &[EXIT], &[]);
    let (mut lp, _) = begin(&g, &c);
    assert_eq!(lp.map_allocated(&mut g, (-12i64) as u64), Request::AllocMap { i: 1 });
    assert_eq!(lp.map_allocated(&mut g, 0x10), Request::AllocMap { i: 2 });
    assert_eq!(
        lp.map_allocated(&mut g, 0),
        Request::Reply { status: -ENOMEM, free_prog: false }
    );
    assert_eq!(g.maps.num_maps, 1);
    assert_eq!(g.maps.slots[0].fake_fd, 2);
}

#[test]
fn a_map_without_a_free_place_is_reported() {
    let mut g = BifrostGuest::new(255);
    for i in 0..8 {
        g.maps.record(0x100 + i, i as i32, 0);
    }
    let (mut lp, req) = begin(&g, &cmd(4, &[map_def(6, 50, 0)], &[EXIT], &[]));
    assert_eq!(req, Request::AllocMap { i: 0 });
    assert_eq!(lp.map_allocated(&mut g, 0x200), Request::MapTableFull);
    assert_eq!(g.maps.num_maps, 8);
}

#[test]
fn a_map_without_descriptor_leaves_its_loads_alone() {
    let mut g = BifrostGuest::new(255);
    let c = cmd(4, &[map_def(6, 100, 0)], &[map_load(100), EXIT], &[]);
    let (mut lp, _) = begin(&g, &c);
    lp.map_allocated(&mut g, 0x1000);
    assert_eq!(lp.fd_bound(&mut g, -24), Request::AllocProg);
    assert_eq!(lp.insns[0].imm, 100);
}

#[test]
fn a_missing_function_is_named_in_the_reply() {
    let mut g = BifrostGuest::new(255);
    let c = cmd(4, &[map_def(6, 100, 0)], &[CALL, EXIT], &[(0, b"no_such_kfunc")]);
    let (mut lp, _) = begin(&g, &c);
    lp.map_allocated(&mut g, 0x1000);
    lp.fd_bound(&mut g, 7);
    lp.btf_found(&mut g, true);
    assert_eq!(
        lp.func_found(&mut g, -2),
        Request::Reply { status: -EINVAL, free_prog: false }
    );
    assert_eq!(lp.detail, b"no_such_kfunc");
    assert_eq!(lp.to_close, vec![7]);
    assert_eq!(g.maps.slots[0].real_fd, NO_FD);
}

#[test]
fn missing_type_information_is_named_in_the_reply() {
    let mut g = BifrostGuest::new(255);
    let (mut lp, req) = begin(&g, &cmd(4, &[], &[CALL], &[(0, b"f")]));
    assert_eq!(req, Request::VmlinuxBtf);
    assert_eq!(
        lp.btf_found(&mut g, false),
        Request::Reply { status: -EINVAL, free_prog: false }
    );
    assert_eq!(lp.detail, b"vmlinux BTF unavailable");
}

#[test]
fn a_full_slot_table_is_reported() {
    let mut g = BifrostGuest::new(255);
    g.slots.num_kprobes = 256;
    let (_, req) = begin(&g, &cmd(4, &[], &[EXIT], &[]));
    assert_eq!(req, Request::Reply { status: -ENOSPC, free_prog: false });
    g.slots.num_kprobes = 255;
    let (_, req) = begin(&g, &cmd(4, &[], &[EXIT], &[]));
    assert_eq!(req, Request::AllocProg);
}

#[test]
fn a_program_that_cannot_be_allocated_is_reported() {
    let g = BifrostGuest::new(255);
    let (mut lp, _) = begin(&g, &cmd(4, &[], &[EXIT], &[]));
    assert_eq!(
        lp.prog_allocated(&g, false, false),
        Request::Reply { status: -ENOMEM, free_prog: false }
    );
}

#[test]
fn an_fbt_program_gets_its_target() {
    for (family, attach_type) in [(2, 24), (3, 25)] {
        let mut g = BifrostGuest::new(255);
        let (mut lp, _) = begin(&g, &cmd(family, &[], &[EXIT], &[]));
        assert_eq!(lp.prog_allocated(&g, true, true), Request::VmlinuxBtf);
        assert_eq!(lp.btf_found(&mut g, true), Request::FindTarget);
        assert_eq!(lp.func_found(&mut g, 99), Request::SetProgType { prog_type: 26 });
        assert_eq!(
            lp.type_set(&g, 0),
            Request::VerifyProg { target: Some(FbtTarget { attach_type, btf_id: 99 }) }
        );
    }
}

#[test]
fn an_fbt_program_without_target_goes_to_the_verifier_as_it_is() {
    let mut g = BifrostGuest::new(255);
    let c = cmd(2, &[], &[EXIT], &[]);
    let (mut lp, _) = begin(&g, &c);
    assert_eq!(lp.prog_allocated(&g, true, false), Request::VerifyProg { target: None });
    let (mut lp, _) = begin(&g, &c);
    lp.prog_allocated(&g, true, true);
    assert_eq!(lp.btf_found(&mut g, false), Request::VerifyProg { target: None });
    let (mut lp, _) = begin(&g, &c);
    lp.prog_allocated(&g, true, true);
    lp.btf_found(&mut g, true);
    assert_eq!(lp.func_found(&mut g, -2), Request::VerifyProg { target: None });
    let (mut lp, _) = begin(&g, &c);
    lp.prog_allocated(&g, true, true);
    lp.btf_found(&mut g, true);
    lp.func_found(&mut g, 3);
    assert_eq!(lp.type_set(&g, -22), Request::VerifyProg { target: None });
}

#[test]
fn a_profile_program_has_its_own_type_and_others_keep_the_default() {
    let g = BifrostGuest::new(255);
    let (mut lp, _) = begin(&g, &cmd(10, &[], &[EXIT], &[]));
    assert_eq!(lp.prog_allocated(&g, true, true), Request::SetProgType { prog_type: 7 });
    let (mut lp, _) = begin(&g, &cmd(0, &[], &[EXIT], &[]));
    assert_eq!(lp.prog_allocated(&g, true, true), Request::VerifyProg { target: None });
}

#[test]
fn a_rejected_program_is_freed_and_its_descriptors_closed() {
    let mut g = BifrostGuest::new(255);
    let (mut lp, _) = begin(&g, &cmd(0, &[map_def(6, 100, 0)], &[EXIT], &[]));
    lp.map_allocated(&mut g, 0x1000);
    lp.fd_bound(&mut g, 8);
    lp.prog_allocated(&g, true, true);
    assert_eq!(lp.verified(&mut g, -13), Request::Reply { status: -13, free_prog: true });
    assert_eq!(lp.to_close, vec![8]);
    assert_eq!(g.maps.slots[0].real_fd, NO_FD);
}

#[test]
fn a_program_that_does_not_compile_is_freed() {
    let mut g = BifrostGuest::new(255);
    for (err, prog, status) in [(-95, 0x1, -95), (0, 0, -EINVAL), (-1, 0, -1)] {
        let (mut lp, _) = begin(&g, &cmd(0, &[], &[EXIT], &[]));
        lp.prog_allocated(&g, true, true);
        lp.verified(&mut g, 0);
        assert_eq!(
            lp.jitted(&mut g, err, prog),
            Request::Reply { status, free_prog: true }
        );
        assert_eq!(g.slots.slots[0].prog, 0);
    }
}

#[test]
fn a_failed_attach_is_the_status_of_the_load() {
    let mut g = BifrostGuest::new(255);
    g.slots.num_kprobes = 1;
    let (mut lp, _) = begin(&g, &cmd(0, &[], &[EXIT], &[]));
    lp.prog_allocated(&g, true, true);
    lp.verified(&mut g, 0);
    assert_eq!(lp.jitted(&mut g, 0, 0x5), Request::AttachSlot { slot: 1 });
    assert_eq!(g.prog, 0);
    assert_eq!(lp.attached(&g, -2), Request::Reply { status: -2, free_prog: false });
}

#[test]
fn the_map_table_finds_the_first_place() {
    let mut m = MapTable::new();
    assert_eq!(m.find(0), None);
    m.record(1, 100, 0);
    m.record(2, 101, 3);
    assert_eq!(m.find(101), Some(1));
    assert_eq!(m.find(102), None);
    m.set_real_fd(1, 40);
    assert_eq!(m.take_real_fds(), vec![40]);
    assert_eq!(m.take_real_fds(), vec![]);
    m.reset();
    assert_eq!(m.num_maps, 0);
    assert_eq!(m.find(100), None);
    assert_eq!(m.slots[1].handle, 0);
    assert_eq!(m.slots[1].fake_fd, 101);
}

#[test]
fn map_loads_are_resolved_in_pairs() {
    let mut m = MapTable::new();
    m.record(1, 100, 0);
    m.record(2, 101, 0);
    m.set_real_fd(0, 30);
    let insn = |b: [u8; 8]| BpfInsn::read_le_unaligned(&b, 0);
    let second = [0, 0, 0, 0, 9, 9, 9, 9];
    let mut insns = vec![
        insn(map_load(100)),
        insn(second),
        insn(map_load(101)),
        insn(second),
        insn(map_load(7)),
        insn(second),
        insn(map_load(100)),
        insn(map_load(100)),
        insn(EXIT),
    ];
    let before = insns.clone();
    patch_map_fds(&mut insns, &m);
    assert_eq!(insns[0].imm, 30);
    assert_eq!(insns[0].src_reg(), 1);
    assert_eq!(insns[1].imm, 0);
    // no real descriptor, or no such map
    assert_eq!(insns[2..6], before[2..6]);
    // the second half of a pair is not a load of its own
    assert_eq!(insns[6].imm, 30);
    assert_eq!(insns[7].imm, 0);
    assert_eq!(insns[8], before[8]);
}

#[test]
fn parts_of_a_body_are_decoded() {
    let mut b = map_def(1, -1, 2);
    b.extend(map_def(2, 5, 3));
    let maps = read_map_defs(&b, 0, 2);
    assert_eq!(maps[0].fake_fd, -1);
    assert_eq!(maps[1].map_type, 2);
    let image = [map_load(3), EXIT, CALL].concat();
    let insns = read_insns(&image, 0, 3);
    assert_eq!(insns[0].imm, 3);
    assert_eq!(encode_program(&insns), image);
    let mut r = u32s(&[1]);
    r.push(2);
    r.extend(b"ab");
    r.extend(u32s(&[0]));
    r.push(1);
    r.extend(b"c");
    let relocs = read_relocs(&r, 0, 2, 2);
    assert_eq!(relocs.len(), 2);
    assert_eq!(relocs[0].insn_idx, 1);
    assert_eq!(relocs[0].name, b"ab");
    assert_eq!(relocs[1].name, b"c");
}

#[test]
fn the_slot_table_is_full_from_the_start() {
    let t = SlotTable::bifrost_slots_init(255);
    assert_eq!(t.slots.len(), 256);
    assert_eq!(t.num_kprobes, 0);
    assert!(t.slots.iter().all(|s| s.probe_type == 255 && s.prog == 0 && s.lease == 0));
    assert_eq!(t.slots_ensure(256), Ok(()));
    assert_eq!(t.slots_ensure(257), Err(-ENOSPC));
    assert_eq!(BifrostSlot::new(3).target_name, vec![0; 32]);
}

#[test]
fn leases_are_fresh_and_never_zero() {
    let mut t = SlotTable::bifrost_slots_init(255);
    assert_eq!(t.slot_lease_new(), 1);
    assert_eq!(t.slot_lease_new(), 2);
    t.next_lease = u64::MAX;
    assert_eq!(t.slot_lease_new(), u64::MAX);
    assert_eq!(t.slot_lease_new(), 1);
}

#[test]
fn programs_of_slots() {
    let mut t = SlotTable::bifrost_slots_init(255);
    assert_eq!(t.run_prog_slot(0), None);
    t.slots[3].prog = 0xabc;
    assert_eq!(t.run_prog_slot(3), Some(0xabc));
    assert_eq!(t.run_prog_slot(256), None);
    assert_eq!(t.free_slot_prog(3), Some(0xabc));
    assert_eq!(t.run_prog_slot(3), None);
    assert_eq!(t.free_slot_prog(3), None);
    assert_eq!(t.free_slot_prog(1000), None);
}

#[test]
fn a_new_device_starts_over_with_the_maps_but_not_the_slots() {
    let mut g = BifrostGuest::new(255);
    g.maps.record(9, 100, 0);
    g.kprobe_attached = true;
    g.prog = 3;
    g.slots.num_kprobes = 2;
    g.probed();
    assert_eq!(g.maps.num_maps, 0);
    assert_eq!(g.maps.slots[0].handle, 0);
    assert!(!g.kprobe_attached);
    assert_eq!(g.prog, 0);
    assert_eq!(g.slots.num_kprobes, 2);
}

#[test]
fn an_unresolved_target_is_named_in_the_reply() {
    for family in [2, 3] {
        for btf in [true, false] {
            let mut g = BifrostGuest::new(255);
            let (mut lp, _) = begin(&g, &cmd(family, &[], &[EXIT], &[]));
            assert_eq!(lp.prog_allocated(&g, true, true), Request::VmlinuxBtf);
            if btf {
                assert_eq!(lp.btf_found(&mut g, true), Request::FindTarget);
                assert_eq!(lp.func_found(&mut g, -2), Request::VerifyProg { target: None });
            } else {
                assert_eq!(lp.btf_found(&mut g, false), Request::VerifyProg { target: None });
            }
            assert_eq!(
                lp.verified(&mut g, -22),
                Request::Reply { status: -22, free_prog: true }
            );
            assert_eq!(lp.detail, b"vfs_read");
        }
    }
}

#[test]
fn a_success_has_no_diagnostic() {
    let mut g = BifrostGuest::new(255);
    for (rc, detail) in [(-2, &b"vfs_read"[..]), (0, &b""[..])] {
        let (mut lp, _) = begin(&g, &cmd(2, &[], &[EXIT], &[]));
        lp.prog_allocated(&g, true, true);
        lp.btf_found(&mut g, false);
        lp.verified(&mut g, 0);
        lp.jitted(&mut g, 0, 0xbeef);
        assert_eq!(lp.attached(&g, rc), Request::Reply { status: rc, free_prog: false });
        assert_eq!(lp.detail, detail);
    }
}

#[test]
fn new_maps_are_entered_once_and_known_ones_are_kept() {
    let mut g = BifrostGuest::new(255);
    g.maps.record(0x77, 100, 3);
    let defs = [
        map_def(6, 200, 1),
        map_def(6, 100, 9),
        map_def(6, 200, 2),
        map_def(6, 300, 0x104),
    ];
    let (mut lp, req) = begin(&g, &cmd(4, &defs, &[EXIT], &[]));
    assert_eq!(req, Request::AllocMap { i: 0 });
    assert_eq!(lp.map_allocated(&mut g, 0x1000), Request::AllocMap { i: 3 });
    assert_eq!(lp.map_allocated(&mut g, 0x2000), Request::BindFd { place: 1 });
    let live: Vec<(u64, i32, u8)> = g.maps.slots[..g.maps.num_maps]
        .iter()
        .map(|m| (m.handle, m.fake_fd, m.agg_kind))
        .collect();
    assert_eq!(live, vec![(0x77, 100, 3), (0x1000, 200, 1), (0x2000, 300, 4)]);
    // each map is bound once, in the order of the definitions
    assert_eq!(lp.fd_bound(&mut g, 10), Request::BindFd { place: 0 });
    assert_eq!(lp.fd_bound(&mut g, 11), Request::BindFd { place: 2 });
    assert_eq!(lp.fd_bound(&mut g, 12), Request::AllocProg);
    assert_eq!(g.maps.num_maps, 3);
}
