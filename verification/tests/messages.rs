use bifrost::control_reply::{complete_load_prog, load_prog_seq, load_prog_status};
use bifrost::kfunc_manifest::{
    bifrost_kfunc_djb2_byte, bifrost_kfunc_djb2_bytes, bifrost_kfunc_expected_hash, validate,
    ManifestFault,
};
use bifrost::shmem_init::shmem_init_message;
use bifrost::shmem_layout::{
    drop_records_off, shmem_layout, shmem_stamp, SHMEM_BTF_CAP, SHMEM_BTF_OFF, SHMEM_DROP_CLASS_AGG,
    SHMEM_REGION_SIZE,
};
use bifrost::shmem_publish::{populate_shmem_btf, ShmemKsymsAccum};
use bifrost::worker::{classify_command, is_command, worker_tick, Command};

fn cmd(op: u32, len: u32, rest: &[u8]) -> Vec<u8> {
    let mut c = op.to_le_bytes().to_vec();
    c.extend(len.to_le_bytes());
    c.extend(rest);
    c
}

#[test]
fn the_sequence_number_follows_the_body() {
    let mut c = cmd(2, 3, b"abc");
    c.extend(0x1122_3344u64.to_le_bytes());
    assert_eq!(load_prog_seq(&c, c.len()), 0x1122_3344);
    // a command that is longer than it says
    c.extend([0xff; 5]);
    assert_eq!(load_prog_seq(&c, c.len()), 0x1122_3344);
}

#[test]
fn a_sequence_number_that_would_not_fit_stands_at_the_end() {
    let mut c = cmd(2, 1000, b"abc");
    c.extend(7u64.to_le_bytes());
    assert_eq!(load_prog_seq(&c, c.len()), 7);
    let c = cmd(2, u32::MAX, &9u64.to_le_bytes());
    assert_eq!(load_prog_seq(&c, 16), 9);
}

#[test]
fn a_short_command_has_no_sequence_number() {
    let c = cmd(2, 0, &[1; 8]);
    assert_eq!(load_prog_seq(&c, 16), 0x0101_0101_0101_0101);
    assert_eq!(load_prog_seq(&c, 15), 0);
    assert_eq!(load_prog_seq(&c, 0), 0);
}

#[test]
fn status_events() {
    let mut want = vec![9, 0, 0, 0];
    want.extend(5u64.to_le_bytes());
    want.extend((-22i32).to_le_bytes());
    want.extend([3, 0]);
    want.extend(b"bad");
    assert_eq!(load_prog_status(5, -22, b"bad"), want);
    let empty = load_prog_status(u64::MAX, 0, b"");
    assert_eq!(empty.len(), 18);
    assert_eq!(&empty[12..], &[0; 6]);
}

#[test]
fn long_details_are_cut() {
    let r = load_prog_status(0, 0, &[b'x'; 300]);
    assert_eq!(r.len(), 18 + 256);
    assert_eq!(&r[16..18], &256u16.to_le_bytes());
    assert_eq!(load_prog_status(0, 0, &[b'x'; 256]).len(), 18 + 256);
}

#[test]
fn loads_and_sessions_are_answered_and_nothing_else() {
    for op in [2, 3] {
        let c = cmd(op, 0, &6u64.to_le_bytes());
        assert_eq!(
            complete_load_prog(&c, 16, -12, b"why"),
            Some(load_prog_status(6, -12, b"why"))
        );
    }
    for op in [0, 1, 4, 9, u32::MAX] {
        assert_eq!(complete_load_prog(&cmd(op, 0, &[0; 8]), 16, 0, b""), None);
    }
    assert_eq!(
        complete_load_prog(&cmd(2, 0, &[1; 8]), 4, 0, b""),
        Some(load_prog_status(0, 0, b""))
    );
}

#[test]
fn commands_are_classified() {
    assert!(is_command(8));
    assert!(!is_command(7));
    assert_eq!(classify_command(&cmd(2, 0, &[]), 8), Command::LoadProg);
    assert_eq!(classify_command(&cmd(3, 0, &[]), 8), Command::Session);
    assert_eq!(classify_command(&cmd(1, 0, &[]), 8), Command::Unknown { op: 1 });
    assert_eq!(classify_command(&cmd(2, 0, &[]), 7), Command::Short);
    assert_eq!(classify_command(&[], 0), Command::Short);
}

#[test]
fn snapshots_are_due_every_ten_ticks() {
    let mut tick = 0;
    let mut due = vec![];
    for i in 1..=30 {
        let (next, d) = worker_tick(tick, 1);
        tick = next;
        if d {
            due.push(i);
        }
    }
    assert_eq!(due, vec![10, 20, 30]);
    assert_eq!(worker_tick(9, 0), (10, false));
    assert_eq!(worker_tick(u32::MAX, 3), (0, true));
}

#[test]
fn the_hash_of_the_manifest() {
    assert_eq!(bifrost_kfunc_djb2_byte(5381, b'a'), 5381 * 33 + 97);
    assert_eq!(bifrost_kfunc_djb2_byte(u32::MAX, 255), u32::MAX.wrapping_mul(33).wrapping_add(255));
    assert_eq!(bifrost_kfunc_djb2_bytes(5381, b"a"), (5381 * 33 + 97) * 33);
    assert_eq!(bifrost_kfunc_djb2_bytes(1, b""), 33);
    assert_eq!(bifrost_kfunc_expected_hash(), EXPECTED_HASH);
}

const EXPECTED_HASH: u32 = 0x4012_063b;

#[test]
fn the_manifest_is_validated() {
    assert_eq!(validate(7, EXPECTED_HASH), Ok(()));
    assert_eq!(validate(6, EXPECTED_HASH), Err(ManifestFault::Length { found: 6 }));
    assert_eq!(validate(8, 0), Err(ManifestFault::Length { found: 8 }));
    let fault = ManifestFault::Hash { found: EXPECTED_HASH ^ 1 };
    assert_eq!(validate(7, EXPECTED_HASH ^ 1), Err(fault));
    assert_eq!(fault.status(), -22);
    assert_eq!(ManifestFault::Length { found: 6 }.status(), -22);
}

#[test]
fn the_notification_of_a_device_region() {
    let m = shmem_init_message(&[], true);
    let mut want = vec![8, 0, 0, 0];
    want.extend((16u32 << 20).to_le_bytes());
    want.extend(0u32.to_le_bytes());
    want.extend(b"BFSH");
    want.extend(5u32.to_le_bytes());
    want.extend(1u32.to_le_bytes());
    assert_eq!(m, want);
}

#[test]
fn the_notification_of_allocated_pages() {
    let m = shmem_init_message(&[0x1234_5678_9a, 7], false);
    assert_eq!(m.len(), 40);
    assert_eq!(&m[8..12], &[2, 0, 0, 0]);
    assert_eq!(&m[20..24], &[0, 0, 0, 0]);
    assert_eq!(&m[24..32], &0x1234_5678_9au64.to_le_bytes());
    assert_eq!(&m[32..40], &7u64.to_le_bytes());
    assert_eq!(shmem_init_message(&vec![1; 4096], false).len(), 24 + 8 * 4096);
}

#[test]
fn the_layout_of_the_region() {
    let l = shmem_layout(10, 20);
    assert_eq!(l.region_size, 16 << 20);
    assert_eq!(l.ringbuf_off, 4096);
    assert_eq!(l.ringbuf_len, 6 << 20);
    assert_eq!(l.btf_off, 4096 + (6 << 20));
    assert_eq!(l.btf_len, 10);
    assert_eq!(l.ksyms_off, 4096 + (12 << 20));
    assert_eq!(l.ksyms_len, 20);
    assert_eq!(l.vma_cache_off, 4096 + (14 << 20));
    assert_eq!(l.vma_cache_off + l.vma_cache_len, l.region_size);
}

#[test]
fn type_information_is_copied_into_its_place() {
    let mut region = vec![1u8; SHMEM_REGION_SIZE];
    assert_eq!(populate_shmem_btf(&mut region, None), 0);
    assert_eq!(populate_shmem_btf(&mut region, Some(&[])), 0);
    assert_eq!(populate_shmem_btf(&mut region, Some(&vec![9; SHMEM_BTF_CAP + 1])), 0);
    assert!(region.iter().all(|&b| b == 1));
    assert_eq!(populate_shmem_btf(&mut region, Some(&[2, 3, 4])), 3);
    assert_eq!(&region[SHMEM_BTF_OFF - 1..SHMEM_BTF_OFF + 4], &[1, 2, 3, 4, 1]);
    assert_eq!(populate_shmem_btf(&mut region, Some(&vec![9; SHMEM_BTF_CAP])), SHMEM_BTF_CAP);
}

#[test]
fn symbols_are_packed_until_one_does_not_fit() {
    let mut buf = [0xeeu8; 30];
    let mut a = ShmemKsymsAccum::new(&mut buf);
    a.shmem_ksyms_cb(Some(b"abc"), 0x0102_0304_0506_0708);
    assert_eq!(a.pos, 12);
    a.shmem_ksyms_cb(None, 5);
    a.shmem_ksyms_cb(Some(b""), 5);
    a.shmem_ksyms_cb(Some(&[b'x'; 256]), 5);
    assert_eq!(a.pos, 12);
    assert!(!a.overflow);
    a.shmem_ksyms_cb(Some(b"0123456789"), 1);
    assert!(a.overflow);
    // a shorter one that would fit comes too late
    a.shmem_ksyms_cb(Some(b"z"), 1);
    assert_eq!(a.pos, 12);
    assert_eq!(&buf[..13], &[8, 7, 6, 5, 4, 3, 2, 1, 3, b'a', b'b', b'c', 0xee]);
}

#[test]
fn symbols_may_fill_the_buffer() {
    let mut buf = [0u8; 264 + 10];
    let mut a = ShmemKsymsAccum::new(&mut buf);
    a.shmem_ksyms_cb(Some(&[b'n'; 255]), 1);
    a.shmem_ksyms_cb(Some(b"m"), 2);
    assert_eq!(a.pos, 274);
    assert!(!a.overflow);
    a.shmem_ksyms_cb(Some(b"m"), 3);
    assert!(a.overflow);
    assert_eq!(buf[8], 255);
    assert_eq!(&buf[264..], &[2, 0, 0, 0, 0, 0, 0, 0, 1, b'm']);
}

#[test]
fn the_region_is_stamped() {
    assert_eq!(shmem_stamp(), b"BFSH\x05\0\0\0");
}

#[test]
fn drop_counters_lie_in_the_state_of_their_cpu() {
    assert_eq!(drop_records_off(0, 0), 144);
    assert_eq!(drop_records_off(0, SHMEM_DROP_CLASS_AGG), 152);
    assert_eq!(drop_records_off(1, 0), 272);
    assert_eq!(drop_records_off(15, 3), 128 + 15 * 128 + 16 + 24);
}
