//! Replies to control commands.
//!
//! Every program load and every session receives exactly one status event:
//! a `u32` operation, the `u64` sequence number of the command, an `i32`
//! status, and a diagnostic text that follows its `u16` length.

use vstd::prelude::*;
use vstd::slice::slice_subrange;

use crate::bytes::{
    bits32, law_signed_round_trip, law_u16_round_trip, law_u32_round_trip, law_u64_round_trip,
    le_u16, le_u32, le_u64, push_bytes, push_u16, push_u32, push_u64, read_u32_le_unaligned,
    read_u64_le_unaligned, signed32, to_bits32, u16_bytes, u32_bytes, u64_bytes,
};
use crate::types::CMD_HDR;
use crate::worker::{OP_DTRACE_SESSION, OP_LOAD_PROG};

verus! {

/// Most bytes of diagnostic text that a status event carries.
pub const LOAD_PROG_STATUS_DETAIL_MAX: usize = 256;

/// Operation of a status event.
pub const OP_LOAD_PROG_STATUS: u32 = 9;

/// Bytes of a status event that stand before its text.
pub const STATUS_HDR_LEN: usize = 18;

/// Bytes of a sequence number.
pub const SEQ_LEN: usize = 8;

/// Where the sequence number of a command of `cmd_len` bytes stands: behind the
/// body that the header declares, or at the end where that would not fit.
pub open spec fn seq_off(buf: Seq<u8>, cmd_len: int) -> int {
    let declared = CMD_HDR + le_u32(buf, 4);
    if declared + SEQ_LEN <= cmd_len {
        declared
    } else {
        cmd_len - SEQ_LEN
    }
}

/// The sequence number of a command; 0 for one that is too short to have any.
pub open spec fn seq_of(buf: Seq<u8>, cmd_len: int) -> u64 {
    if cmd_len < CMD_HDR + SEQ_LEN {
        0
    } else {
        le_u64(buf, seq_off(buf, cmd_len))
    }
}

/// Read the sequence number of the command that the first `cmd_len` bytes of
/// the control buffer hold.
pub fn load_prog_seq(buf: &[u8], cmd_len: usize) -> (seq: u64)
    requires
        cmd_len <= buf@.len(),
    ensures
        seq == seq_of(buf@, cmd_len as int),
{
    if cmd_len < CMD_HDR + SEQ_LEN {
        return 0;
    }
    let declared: u64 = CMD_HDR as u64 + read_u32_le_unaligned(buf, 4) as u64;
    let off: usize = if declared + SEQ_LEN as u64 <= cmd_len as u64 {
        declared as usize
    } else {
        cmd_len - SEQ_LEN
    };
    read_u64_le_unaligned(buf, off)
}

/// The part of a diagnostic text that is sent.
pub open spec fn sent_detail(detail: Seq<u8>) -> Seq<u8> {
    if detail.len() <= LOAD_PROG_STATUS_DETAIL_MAX {
        detail
    } else {
        detail.take(LOAD_PROG_STATUS_DETAIL_MAX as int)
    }
}

/// A status event.
pub open spec fn status_event(seq: u64, status: i32, detail: Seq<u8>) -> Seq<u8> {
    u32_bytes(OP_LOAD_PROG_STATUS) + u64_bytes(seq) + u32_bytes(bits32(status)) + u16_bytes(
        sent_detail(detail).len() as u16,
    ) + sent_detail(detail)
}

/// Encode a status event.
pub fn load_prog_status(seq: u64, status: i32, detail: &[u8]) -> (r: Vec<u8>)
    ensures
        r@ == status_event(seq, status, detail@),
        r@.len() <= STATUS_HDR_LEN + LOAD_PROG_STATUS_DETAIL_MAX,
{
    let n: usize = if detail.len() <= LOAD_PROG_STATUS_DETAIL_MAX {
        detail.len()
    } else {
        LOAD_PROG_STATUS_DETAIL_MAX
    };
    let sent: &[u8] = slice_subrange(detail, 0, n);
    assert(sent@ =~= sent_detail(detail@));
    let mut r: Vec<u8> = Vec::new();
    push_u32(&mut r, OP_LOAD_PROG_STATUS);
    push_u64(&mut r, seq);
    push_u32(&mut r, to_bits32(status));
    push_u16(&mut r, n as u16);
    push_bytes(&mut r, sent);
    assert(r@ =~= status_event(seq, status, detail@));
    r
}

/// Whether a command with operation `op` is answered.
pub open spec fn answered(op: u32) -> bool {
    op == OP_LOAD_PROG || op == OP_DTRACE_SESSION
}

/// The status event for the command in the control buffer, if it is answered.
/// The control buffer is posted again in either case.
pub fn complete_load_prog(buf: &[u8], cmd_len: usize, status: i32, detail: &[u8]) -> (r: Option<
    Vec<u8>,
>)
    requires
        CMD_HDR <= buf@.len(),
        cmd_len <= buf@.len(),
    ensures
        r is Some <==> answered(le_u32(buf@, 0)),
        r is Some ==> r->0@ == status_event(seq_of(buf@, cmd_len as int), status, detail@),
{
    let op: u32 = read_u32_le_unaligned(buf, 0);
    if op != OP_LOAD_PROG && op != OP_DTRACE_SESSION {
        return None;
    }
    Some(load_prog_status(load_prog_seq(buf, cmd_len), status, detail))
}

/// The host reads back from a status event what was put in: the operation, the
/// sequence number, the status, and the text up to its cap.
pub proof fn law_status_reads_back(seq: u64, status: i32, detail: Seq<u8>)
    ensures
        ({
            let e = status_event(seq, status, detail);
            &&& le_u32(e, 0) == OP_LOAD_PROG_STATUS
            &&& le_u64(e, 4) == seq
            &&& signed32(le_u32(e, 12)) == status
            &&& le_u16(e, 16) == sent_detail(detail).len()
            &&& e.len() == STATUS_HDR_LEN + le_u16(e, 16)
            &&& e.skip(STATUS_HDR_LEN as int) == sent_detail(detail)
        }),
{
    let e = status_event(seq, status, detail);
    let a = u32_bytes(OP_LOAD_PROG_STATUS);
    let b = u64_bytes(seq);
    let c = u32_bytes(bits32(status));
    let n = sent_detail(detail).len() as u16;
    let d = u16_bytes(n);
    law_u32_round_trip(OP_LOAD_PROG_STATUS);
    law_u64_round_trip(seq);
    law_u32_round_trip(bits32(status));
    law_u16_round_trip(n);
    law_signed_round_trip(status, 0, 0, 0);
    assert(e.skip(STATUS_HDR_LEN as int) =~= sent_detail(detail));
    assert(e[0] == a[0] && e[1] == a[1] && e[2] == a[2] && e[3] == a[3]);
    assert(e[4] == b[0] && e[5] == b[1] && e[6] == b[2] && e[7] == b[3]);
    assert(e[8] == b[4] && e[9] == b[5] && e[10] == b[6] && e[11] == b[7]);
    assert(e[12] == c[0] && e[13] == c[1] && e[14] == c[2] && e[15] == c[3]);
    assert(e[16] == d[0] && e[17] == d[1]);
}

/// A command whose header declares a body of `body` bytes, and which carries its
/// sequence number right behind that body, is answered with that number.
pub proof fn law_seq_is_echoed(buf: Seq<u8>, cmd_len: int, seq: u64)
    requires
        CMD_HDR + le_u32(buf, 4) + SEQ_LEN <= cmd_len <= buf.len(),
        buf.subrange(CMD_HDR + le_u32(buf, 4), CMD_HDR + le_u32(buf, 4) + SEQ_LEN) == u64_bytes(
            seq,
        ),
    ensures
        seq_of(buf, cmd_len) == seq,
{
    let off = CMD_HDR + le_u32(buf, 4);
    let s = buf.subrange(off, off + SEQ_LEN);
    law_u64_round_trip(seq);
    assert(forall|i: int| 0 <= i < 8 ==> buf[off + i] == #[trigger] s[i]);
    assert(s[0] == buf[off] && s[1] == buf[off + 1]);
    assert(s[2] == buf[off + 2] && s[3] == buf[off + 3]);
    assert(s[4] == buf[off + 4] && s[5] == buf[off + 5]);
    assert(s[6] == buf[off + 6] && s[7] == buf[off + 7]);
}

/// The sequence number of a command is 0 if the command has fewer than sixteen
/// bytes; it is the eight bytes behind the declared body if they are there, and
/// the last eight bytes of the command if they are not.
pub proof fn law_where_the_seq_stands(buf: Seq<u8>, cmd_len: int)
    requires
        0 <= cmd_len <= buf.len(),
    ensures
        cmd_len < 16 ==> seq_of(buf, cmd_len) == 0,
        cmd_len >= 16 && 16 + le_u32(buf, 4) <= cmd_len ==> seq_of(buf, cmd_len) == le_u64(
            buf,
            8 + le_u32(buf, 4),
        ),
        cmd_len >= 16 && 16 + le_u32(buf, 4) > cmd_len ==> seq_of(buf, cmd_len) == le_u64(
            buf,
            cmd_len - 8,
        ),
{
}

/// A status event has the operation, the sequence number, the status, and the
/// text after its length; of the text the first 256 bytes are sent.  Program
/// loads and sessions are answered, and nothing else.
pub proof fn law_what_a_reply_says(seq: u64, status: i32, detail: Seq<u8>, op: u32)
    ensures
        ({
            let e = status_event(seq, status, detail);
            let n = if detail.len() <= 256 {
                detail.len() as int
            } else {
                256
            };
            &&& e.len() == 18 + n
            &&& le_u32(e, 0) == 9
            &&& le_u64(e, 4) == seq
            &&& signed32(le_u32(e, 12)) == status
            &&& le_u16(e, 16) == n
            &&& e.subrange(18, 18 + n) == detail.take(n)
        }),
        answered(op) <==> op == 2 || op == 3,
{
    let e = status_event(seq, status, detail);
    law_status_reads_back(seq, status, detail);
    assert(e.subrange(18, e.len() as int) =~= e.skip(18));
    if detail.len() <= 256 {
        assert(detail.take(detail.len() as int) =~= detail);
    }
}

} // verus!
