use bifrost::bytes::{
    bytes_eq, nul_position, push_bytes, push_u16, push_u32, push_u64, read_u16_le_unaligned,
    read_u32_le_unaligned, read_u64_le_unaligned, starts_with, str_eq, to_bits16, to_bits32,
    to_signed16, to_signed32, u32_le, u64_le, write_at,
};
use bifrost::errno::{event_ptr_failed, ptr_is_err, status_of_err_ptr};
use bifrost::path_helpers::path_basename;
use bifrost::record_writer::RecordWriter;
use bifrost::types::{BifrostCmd, BpfInsn, MapDef};

#[test]
fn integers_are_little_endian_at_any_offset() {
    let b = [0xff, 0x01, 0x02, 0x03, 0x04, 0x05, 0x06, 0x07, 0x88];
    assert_eq!(read_u16_le_unaligned(&b, 1), 0x0201);
    assert_eq!(read_u32_le_unaligned(&b, 1), 0x0403_0201);
    assert_eq!(read_u64_le_unaligned(&b, 1), 0x8807_0605_0403_0201);
    assert_eq!(u32_le(0x0403_0201), [1, 2, 3, 4]);
    assert_eq!(u64_le(0x8807_0605_0403_0201), [1, 2, 3, 4, 5, 6, 7, 0x88]);
}

#[test]
fn written_integers_read_back() {
    for v in [0u64, 1, 0xff, 0x1_0000, 0xffff_ffff, 0x1_0000_0000, u64::MAX] {
        assert_eq!(read_u64_le_unaligned(&u64_le(v), 0), v);
        assert_eq!(read_u32_le_unaligned(&u32_le(v as u32), 0), v as u32);
    }
    let mut buf = Vec::new();
    push_u16(&mut buf, 0xabcd);
    push_u32(&mut buf, 0x1234_5678);
    push_u64(&mut buf, u64::MAX - 1);
    push_bytes(&mut buf, b"xyz");
    assert_eq!(buf.len(), 17);
    assert_eq!(read_u16_le_unaligned(&buf, 0), 0xabcd);
    assert_eq!(read_u32_le_unaligned(&buf, 2), 0x1234_5678);
    assert_eq!(read_u64_le_unaligned(&buf, 6), u64::MAX - 1);
    assert_eq!(&buf[14..], b"xyz");
}

#[test]
fn two_s_complement_loses_nothing() {
    for i in [0i32, 1, -1, i32::MAX, i32::MIN, -22] {
        assert_eq!(to_bits32(i), i as u32);
        assert_eq!(to_signed32(to_bits32(i)), i);
    }
    for j in [0i16, 1, -1, i16::MAX, i16::MIN] {
        assert_eq!(to_bits16(j), j as u16);
        assert_eq!(to_signed16(to_bits16(j)), j);
    }
}

#[test]
fn writes_touch_only_their_bytes() {
    let mut b = [9u8; 6];
    write_at(&mut b, 2, &[1, 2, 3]);
    assert_eq!(b, [9, 9, 1, 2, 3, 9]);
    write_at(&mut b, 6, &[]);
    assert_eq!(b, [9, 9, 1, 2, 3, 9]);
}

#[test]
fn strings_of_bytes() {
    assert_eq!(nul_position(b"abc\0d"), 3);
    assert_eq!(nul_position(b"abc"), 3);
    assert_eq!(nul_position(b""), 0);
    assert_eq!(nul_position(b"\0"), 0);
    assert!(bytes_eq(b"", b""));
    assert!(bytes_eq(b"ab", b"ab"));
    assert!(!bytes_eq(b"ab", b"ac"));
    assert!(!bytes_eq(b"ab", b"abc"));
    assert!(starts_with(b"tick-1", b"tick-"));
    assert!(starts_with(b"tick-", b"tick-"));
    assert!(!starts_with(b"tick", b"tick-"));
    assert!(!starts_with(b"tock-1", b"tick-"));
    assert!(str_eq("fbt", "fbt"));
    assert!(!str_eq("fbt", "fbT"));
}

#[test]
fn basename_of_a_path() {
    assert_eq!(path_basename(b"/usr/bin/redis\0junk/x"), b"redis");
    assert_eq!(path_basename(b"redis"), b"redis");
    assert_eq!(path_basename(b"/usr/bin/"), b"");
    assert_eq!(path_basename(b"\0/usr"), b"");
    assert_eq!(path_basename(b""), b"");
    assert_eq!(path_basename(b"a/b/c"), b"c");
    assert_eq!(path_basename(b"/x"), b"x");
    let mut padded = [0u8; 257];
    padded[..12].copy_from_slice(b"/opt/pg/post");
    assert_eq!(path_basename(&padded), b"post");
}

#[test]
fn error_pointers() {
    assert!(ptr_is_err(u64::MAX));
    assert!(ptr_is_err((-4096i64) as u64));
    assert!(!ptr_is_err((-4097i64) as u64));
    assert!(!ptr_is_err(0));
    assert_eq!(status_of_err_ptr((-2i64) as u64, -22), -2);
    assert_eq!(status_of_err_ptr((-4096i64) as u64, -22), -4096);
    assert_eq!(status_of_err_ptr(0, -22), -22);
    assert!(event_ptr_failed((-4095i64) as u64));
    assert!(!event_ptr_failed((-4096i64) as u64));
    assert!(!event_ptr_failed(0));
}

#[test]
fn record_writer_appends_within_its_limit() {
    let mut buf = [0xeeu8; 20];
    let mut w = RecordWriter::new(&mut buf, 18);
    assert!(w.write_u32(0x0403_0201));
    assert!(w.write_i32(-2));
    assert!(w.write_u64(0x1122_3344_5566_7788));
    assert!(!w.write_u32(1));
    assert_eq!(w.off, 16);
    assert!(w.write_bytes(&[7, 8]));
    assert!(!w.write_bytes(&[9]));
    assert!(w.write_bytes(&[]));
    assert_eq!(w.off, 18);
    assert_eq!(
        buf,
        [
            1, 2, 3, 4, 0xfe, 0xff, 0xff, 0xff, 0x88, 0x77, 0x66, 0x55, 0x44, 0x33, 0x22, 0x11, 7, 8,
            0xee, 0xee
        ]
    );
}

#[test]
fn record_writer_rolls_back_and_pokes() {
    let mut buf = [0u8; 12];
    let mut w = RecordWriter::new(&mut buf, 12);
    assert!(w.write_u32(5));
    let checkpoint = w.off;
    assert!(w.write_u32(6));
    assert!(!w.write_u64(7));
    w.off = checkpoint;
    assert!(w.write_u64(8));
    assert!(w.poke_u32(0, 9));
    assert!(w.poke_u32(8, 1));
    assert!(!w.poke_u32(9, 1));
    assert_eq!(w.off, 12);
    assert_eq!(buf, [9, 0, 0, 0, 8, 0, 0, 0, 1, 0, 0, 0]);
}

#[test]
fn instructions_round_trip() {
    let v = BpfInsn { code: 0x18, regs: 0x12, off: -3, imm: -100 };
    assert_eq!(v.src_reg(), 1);
    let mut b = [0u8; 11];
    BpfInsn::write_le_unaligned(&mut b, 1, v);
    assert_eq!(b, [0, 0x18, 0x12, 0xfd, 0xff, 0x9c, 0xff, 0xff, 0xff, 0, 0]);
    assert_eq!(BpfInsn::read_le_unaligned(&b, 1), v);
    let mut out = Vec::new();
    v.push_wire(&mut out);
    assert_eq!(out[..], b[1..9]);
}

#[test]
fn source_register_is_replaced_alone() {
    let mut v = BpfInsn { code: 0x85, regs: 0x3a, off: 7, imm: 8 };
    v.set_src_reg(0x12);
    assert_eq!(v, BpfInsn { code: 0x85, regs: 0x2a, off: 7, imm: 8 });
    v.set_src_reg(0);
    assert_eq!(v.regs, 0x0a);
    assert_eq!(v.src_reg(), 0);
}

#[test]
fn headers_and_map_definitions() {
    let mut b = vec![0x55];
    for v in [6u32, 4, 8, 256, 0xffff_fffe, 0x0102_0304] {
        b.extend_from_slice(&v.to_le_bytes());
    }
    let d = MapDef::read_le_unaligned(&b, 1);
    assert_eq!(
        d,
        MapDef {
            map_type: 6,
            key_size: 4,
            value_size: 8,
            max_entries: 256,
            fake_fd: -2,
            flags: 0x0102_0304,
        }
    );
    assert_eq!(d.agg_kind(), 4);
    let c = BifrostCmd::read_le_unaligned(&[2, 0, 0, 0, 40, 1, 0, 0, 9]);
    assert_eq!(c, BifrostCmd { op: 2, len: 296 });
}

#[test]
fn writing_back_an_instruction_changes_nothing() {
    for b in [[0u8; 11], [0xff; 11], [9, 0x18, 0x21, 0xfd, 0xff, 0x80, 0, 0, 0x80, 0x7f, 9]] {
        for off in 0..4 {
            let mut c = b;
            let v = BpfInsn::read_le_unaligned(&c, off);
            BpfInsn::write_le_unaligned(&mut c, off, v);
            assert_eq!(c, b);
        }
    }
}
