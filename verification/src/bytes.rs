//! Little-endian integers in byte sequences.

use vstd::prelude::*;
use vstd::slice::slice_subrange;
use vstd::utf8::encode_utf8_decode_utf8;

verus! {

/// The `u16` whose little-endian bytes stand at `off` in `s`.
pub open spec fn le_u16(s: Seq<u8>, off: int) -> u16 {
    (s[off] + 0x100 * s[off + 1]) as u16
}

/// The `u32` whose little-endian bytes stand at `off` in `s`.
pub open spec fn le_u32(s: Seq<u8>, off: int) -> u32 {
    (s[off] + 0x100 * s[off + 1] + 0x1_0000 * s[off + 2] + 0x100_0000 * s[off + 3]) as u32
}

/// The `u64` whose little-endian bytes stand at `off` in `s`.
pub open spec fn le_u64(s: Seq<u8>, off: int) -> u64 {
    (le_u32(s, off) + 0x1_0000_0000 * le_u32(s, off + 4)) as u64
}

/// The number that the bits of `v` mean in two's complement.
pub open spec fn signed16(v: u16) -> i16 {
    if v < 0x8000 {
        v as i16
    } else {
        (v - 0x1_0000) as i16
    }
}

/// The number that the bits of `v` mean in two's complement.
pub open spec fn signed32(v: u32) -> i32 {
    if v < 0x8000_0000 {
        v as i32
    } else {
        (v - 0x1_0000_0000) as i32
    }
}

/// The two's-complement bits of `v`.
pub open spec fn bits16(v: i16) -> u16 {
    if v >= 0 {
        v as u16
    } else {
        (v + 0x1_0000) as u16
    }
}

/// The two's-complement bits of `v`.
pub open spec fn bits32(v: i32) -> u32 {
    if v >= 0 {
        v as u32
    } else {
        (v + 0x1_0000_0000) as u32
    }
}

/// The two little-endian bytes of `v`.
pub open spec fn u16_bytes(v: u16) -> Seq<u8> {
    seq![(v % 0x100) as u8, (v / 0x100) as u8]
}

/// The four little-endian bytes of `v`.
pub open spec fn u32_bytes(v: u32) -> Seq<u8> {
    seq![
        (v % 0x100) as u8,
        ((v / 0x100) % 0x100) as u8,
        ((v / 0x1_0000) % 0x100) as u8,
        (v / 0x100_0000) as u8,
    ]
}

/// The eight little-endian bytes of `v`.
pub open spec fn u64_bytes(v: u64) -> Seq<u8> {
    u32_bytes((v % 0x1_0000_0000) as u32) + u32_bytes((v / 0x1_0000_0000) as u32)
}

/// `s` with the bytes from `off` on replaced by `b`.
pub open spec fn splice(s: Seq<u8>, off: int, b: Seq<u8>) -> Seq<u8> {
    s.take(off) + b + s.skip(off + b.len())
}

/// Reading two written bytes gives back what was written.
pub proof fn law_u16_round_trip(v: u16)
    ensures
        le_u16(u16_bytes(v), 0) == v,
{
}

/// Reading four written bytes gives back what was written.
pub proof fn law_u32_round_trip(v: u32)
    ensures
        le_u32(u32_bytes(v), 0) == v,
{
}

/// Reading eight written bytes gives back what was written.
pub proof fn law_u64_round_trip(v: u64)
    ensures
        le_u64(u64_bytes(v), 0) == v,
{
    let lo = (v % 0x1_0000_0000) as u32;
    let hi = (v / 0x1_0000_0000) as u32;
    law_u32_round_trip(lo);
    law_u32_round_trip(hi);
    assert(le_u32(u64_bytes(v), 0) == lo);
    assert(le_u32(u64_bytes(v), 4) == hi);
}

/// The base-256 digits of a number made of four bytes are those bytes.
proof fn lemma_u32_digits(a: u8, b: u8, c: u8, d: u8)
    ensures
        ({
            let v = (a + 0x100 * b + 0x1_0000 * c + 0x100_0000 * d) as u32;
            &&& v % 0x100 == a
            &&& (v / 0x100) % 0x100 == b
            &&& (v / 0x1_0000) % 0x100 == c
            &&& v / 0x100_0000 == d
        }),
{
    let v = (a + 0x100 * b + 0x1_0000 * c + 0x100_0000 * d) as u32;
    assert(v / 0x100 == b + 0x100 * c + 0x1_0000 * d);
    assert(v / 0x1_0000 == c + 0x100 * d);
}

/// Writing what was read leaves the bytes as they were.
pub proof fn law_u16_read_write(s: Seq<u8>, off: int)
    requires
        0 <= off,
        off + 2 <= s.len(),
    ensures
        u16_bytes(le_u16(s, off)) == s.subrange(off, off + 2),
{
    assert(u16_bytes(le_u16(s, off)) =~= s.subrange(off, off + 2));
}

/// Writing what was read leaves the bytes as they were.
pub proof fn law_u32_read_write(s: Seq<u8>, off: int)
    requires
        0 <= off,
        off + 4 <= s.len(),
    ensures
        u32_bytes(le_u32(s, off)) == s.subrange(off, off + 4),
{
    lemma_u32_digits(s[off], s[off + 1], s[off + 2], s[off + 3]);
    assert(u32_bytes(le_u32(s, off)) =~= s.subrange(off, off + 4));
}

/// Reading a number at `from` depends on no byte but its own.
pub proof fn law_reads_see_a_part(s: Seq<u8>, from: int, to: int)
    requires
        0 <= from <= to <= s.len(),
    ensures
        to - from == 2 ==> le_u16(s, from) == le_u16(s.subrange(from, to), 0),
        to - from == 4 ==> le_u32(s, from) == le_u32(s.subrange(from, to), 0),
        to - from == 8 ==> le_u64(s, from) == le_u64(s.subrange(from, to), 0),
{
    let t = s.subrange(from, to);
    assert forall|k: int| 0 <= k < to - from implies t[k] == #[trigger] s[from + k] by {}
    if to - from >= 2 {
        assert(t[0] == s[from + 0] && t[1] == s[from + 1]);
    }
    if to - from >= 4 {
        assert(t[2] == s[from + 2] && t[3] == s[from + 3]);
    }
    if to - from == 8 {
        assert(t[4] == s[from + 4] && t[5] == s[from + 5] && t[6] == s[from + 6] && t[7] == s[from
            + 7]);
    }
}

/// Two's complement loses nothing in either direction.
pub proof fn law_signed_round_trip(i: i32, u: u32, j: i16, w: u16)
    ensures
        signed32(bits32(i)) == i,
        bits32(signed32(u)) == u,
        signed16(bits16(j)) == j,
        bits16(signed16(w)) == w,
{
}

/// A spliced sequence holds the new bytes in their place and the old ones elsewhere.
pub proof fn lemma_splice(s: Seq<u8>, off: int, b: Seq<u8>)
    requires
        0 <= off,
        off + b.len() <= s.len(),
    ensures
        splice(s, off, b).len() == s.len(),
        splice(s, off, b).subrange(off, off + b.len()) == b,
        forall|k: int|
            0 <= k < s.len() ==> #[trigger] splice(s, off, b)[k] == if off <= k < off + b.len() {
                b[k - off]
            } else {
                s[k]
            },
{
    assert(splice(s, off, b).subrange(off, off + b.len()) =~= b);
}

/// Read a little-endian `u16` at any alignment.
pub fn read_u16_le_unaligned(p: &[u8], off: usize) -> (r: u16)
    requires
        off + 2 <= p@.len(),
    ensures
        r == le_u16(p@, off as int),
{
    let b0: u16 = p[off] as u16;
    let b1: u16 = p[off + 1] as u16;
    b0 + 0x100 * b1
}

/// Read a little-endian `u32` at any alignment.
pub fn read_u32_le_unaligned(p: &[u8], off: usize) -> (r: u32)
    requires
        off + 4 <= p@.len(),
    ensures
        r == le_u32(p@, off as int),
{
    let b0: u32 = p[off] as u32;
    let b1: u32 = p[off + 1] as u32;
    let b2: u32 = p[off + 2] as u32;
    let b3: u32 = p[off + 3] as u32;
    b0 + 0x100 * b1 + 0x1_0000 * b2 + 0x100_0000 * b3
}

/// Read a little-endian `u64` at any alignment.
pub fn read_u64_le_unaligned(p: &[u8], off: usize) -> (r: u64)
    requires
        off + 8 <= p@.len(),
    ensures
        r == le_u64(p@, off as int),
{
    assert(p@.len() == p.len());
    let lo: u64 = read_u32_le_unaligned(p, off) as u64;
    let hi: u64 = read_u32_le_unaligned(p, off + 4) as u64;
    lo + 0x1_0000_0000 * hi
}

/// The number that the bits of `v` mean in two's complement.
pub fn to_signed16(v: u16) -> (r: i16)
    ensures
        r == signed16(v),
{
    if v < 0x8000 {
        v as i16
    } else {
        (v as i32 - 0x1_0000) as i16
    }
}

/// The number that the bits of `v` mean in two's complement.
pub fn to_signed32(v: u32) -> (r: i32)
    ensures
        r == signed32(v),
{
    if v < 0x8000_0000 {
        v as i32
    } else {
        (v as i64 - 0x1_0000_0000) as i32
    }
}

/// The two's-complement bits of `v`.
pub fn to_bits16(v: i16) -> (r: u16)
    ensures
        r == bits16(v),
{
    if v >= 0 {
        v as u16
    } else {
        (v as i32 + 0x1_0000) as u16
    }
}

/// The two's-complement bits of `v`.
pub fn to_bits32(v: i32) -> (r: u32)
    ensures
        r == bits32(v),
{
    if v >= 0 {
        v as u32
    } else {
        (v as i64 + 0x1_0000_0000) as u32
    }
}

/// Overwrite the bytes from `off` on with `src`.
pub fn write_at(buf: &mut [u8], off: usize, src: &[u8])
    requires
        off + src@.len() <= old(buf)@.len(),
    ensures
        final(buf)@ == splice(old(buf)@, off as int, src@),
{
    let ghost s0 = buf@;
    let n: usize = src.len();
    let end: usize = buf.len();
    let mut i: usize = 0;
    while i < n
        invariant
            n == src@.len(),
            i <= n,
            off + n <= end == s0.len(),
            buf@ == splice(s0, off as int, src@.take(i as int)),
        decreases n - i,
    {
        buf[off + i] = src[i];
        i += 1;
        assert(buf@ =~= splice(s0, off as int, src@.take(i as int)));
    }
    assert(src@.take(n as int) =~= src@);
    assert(buf@ =~= splice(s0, off as int, src@));
}

/// The four little-endian bytes of `v`.
pub fn u32_le(v: u32) -> (r: [u8; 4])
    ensures
        r@ == u32_bytes(v),
{
    let r: [u8; 4] = [
        (v % 0x100) as u8,
        ((v / 0x100) % 0x100) as u8,
        ((v / 0x1_0000) % 0x100) as u8,
        (v / 0x100_0000) as u8,
    ];
    assert(r@ =~= u32_bytes(v));
    r
}

/// The eight little-endian bytes of `v`.
pub fn u64_le(v: u64) -> (r: [u8; 8])
    ensures
        r@ == u64_bytes(v),
{
    let lo: [u8; 4] = u32_le((v % 0x1_0000_0000) as u32);
    let hi: [u8; 4] = u32_le((v / 0x1_0000_0000) as u32);
    let r: [u8; 8] = [lo[0], lo[1], lo[2], lo[3], hi[0], hi[1], hi[2], hi[3]];
    assert(r@ =~= u64_bytes(v));
    r
}

/// Append the two little-endian bytes of `v`.
pub fn push_u16(buf: &mut Vec<u8>, v: u16)
    ensures
        final(buf)@ == old(buf)@ + u16_bytes(v),
{
    let ghost s0 = buf@;
    buf.push((v % 0x100) as u8);
    buf.push((v / 0x100) as u8);
    assert(buf@ =~= s0 + u16_bytes(v));
}

/// Append the four little-endian bytes of `v`.
pub fn push_u32(buf: &mut Vec<u8>, v: u32)
    ensures
        final(buf)@ == old(buf)@ + u32_bytes(v),
{
    let ghost s0 = buf@;
    buf.push((v % 0x100) as u8);
    buf.push(((v / 0x100) % 0x100) as u8);
    buf.push(((v / 0x1_0000) % 0x100) as u8);
    buf.push((v / 0x100_0000) as u8);
    assert(buf@ =~= s0 + u32_bytes(v));
}

/// Append the eight little-endian bytes of `v`.
pub fn push_u64(buf: &mut Vec<u8>, v: u64)
    ensures
        final(buf)@ == old(buf)@ + u64_bytes(v),
{
    let ghost s0 = buf@;
    push_u32(buf, (v % 0x1_0000_0000) as u32);
    push_u32(buf, (v / 0x1_0000_0000) as u32);
    assert(buf@ =~= s0 + u64_bytes(v));
}

/// Append the bytes of `src`.
pub fn push_bytes(buf: &mut Vec<u8>, src: &[u8])
    ensures
        final(buf)@ == old(buf)@ + src@,
{
    let ghost s0 = buf@;
    let n: usize = src.len();
    let mut i: usize = 0;
    while i < n
        invariant
            n == src@.len(),
            i <= n,
            buf@ == s0 + src@.take(i as int),
        decreases n - i,
    {
        buf.push(src[i]);
        i += 1;
        assert(buf@ =~= s0 + src@.take(i as int));
    }
    assert(src@.take(n as int) =~= src@);
}

/// The position of the first zero byte of `s`, or its length if it has none.
pub open spec fn first_nul(s: Seq<u8>) -> int
    decreases s.len(),
{
    if s.len() == 0 || s[0] == 0 {
        0
    } else {
        1 + first_nul(s.skip(1))
    }
}

/// What `first_nul` is: no zero byte stands before it, and one stands there unless it is the end.
pub proof fn lemma_first_nul(s: Seq<u8>)
    ensures
        0 <= first_nul(s) <= s.len(),
        forall|k: int| 0 <= k < first_nul(s) ==> s[k] != 0,
        first_nul(s) < s.len() ==> s[first_nul(s)] == 0,
    decreases s.len(),
{
    if s.len() != 0 && s[0] != 0 {
        lemma_first_nul(s.skip(1));
        assert forall|k: int| 0 <= k < first_nul(s) implies s[k] != 0 by {
            if k > 0 {
                assert(s.skip(1)[k - 1] == s[k]);
            }
        }
    }
}

/// Find the first zero byte.
pub fn nul_position(s: &[u8]) -> (r: usize)
    ensures
        r == first_nul(s@),
{
    let mut i: usize = 0;
    assert(s@.skip(0) =~= s@);
    while i < s.len() && s[i] != 0
        invariant
            i <= s@.len(),
            first_nul(s@) == i + first_nul(s@.skip(i as int)),
        decreases s@.len() - i,
    {
        assert(s@.skip(i as int).skip(1) =~= s@.skip(i + 1));
        i += 1;
    }
    i
}

/// Compare two byte strings.
pub fn bytes_eq(a: &[u8], b: &[u8]) -> (r: bool)
    ensures
        r == (a@ == b@),
{
    if a.len() != b.len() {
        return false;
    }
    let mut i: usize = 0;
    while i < a.len()
        invariant
            i <= a@.len() == b@.len(),
            forall|k: int| 0 <= k < i ==> a@[k] == b@[k],
        decreases a@.len() - i,
    {
        if a[i] != b[i] {
            return false;
        }
        i += 1;
    }
    assert(a@ =~= b@);
    true
}

/// Whether `s` begins with `p`.
pub open spec fn has_prefix(s: Seq<u8>, p: Seq<u8>) -> bool {
    p.len() <= s.len() && s.take(p.len() as int) == p
}

/// Test for a prefix.
pub fn starts_with(s: &[u8], p: &[u8]) -> (r: bool)
    ensures
        r == has_prefix(s@, p@),
{
    if s.len() < p.len() {
        return false;
    }
    let head: &[u8] = slice_subrange(s, 0, p.len());
    assert(head@ =~= s@.take(p@.len() as int));
    bytes_eq(head, p)
}

/// Compare two strings.
pub fn str_eq(a: &str, b: &str) -> (r: bool)
    ensures
        r == (a@ == b@),
{
    proof {
        encode_utf8_decode_utf8(a@);
        encode_utf8_decode_utf8(b@);
    }
    bytes_eq(a.as_bytes(), b.as_bytes())
}

/// Numbers are little-endian: the first byte counts one, each further byte 256
/// times the one before it.
pub proof fn law_numbers_are_little_endian(s: Seq<u8>, off: int)
    ensures
        le_u16(s, off) == s[off] + 256 * s[off + 1],
        le_u32(s, off) == s[off] + 256 * (s[off + 1] + 256 * (s[off + 2] + 256 * s[off + 3])),
        le_u64(s, off) == le_u32(s, off) + 4294967296 * le_u32(s, off + 4),
{
}

/// Signed numbers are in two's complement.
pub proof fn law_twos_complement(v: u32, w: u16)
    ensures
        signed32(v) == (if v <= 2147483647 {
            v as int
        } else {
            v - 4294967296
        }),
        signed16(w) == (if w <= 32767 {
            w as int
        } else {
            w - 65536
        }),
{
}

} // verus!
