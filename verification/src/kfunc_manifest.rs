//! The manifest of the C helpers that the driver calls.
//!
//! The C side keeps the same list of names and signatures.  The module refuses
//! to load unless both sides agree on its length and on its hash.

use vstd::prelude::*;
use vstd::utf8::encode_utf8;

use crate::errno::EINVAL;

verus! {

pub const BIFROST_KFUNC_EXPECTED_LEN: u32 = 7;

pub const DJB2_SEED: u32 = 5381;

/// `v` modulo 2^32.
pub open spec fn wrap32(v: int) -> u32 {
    (v % 0x1_0000_0000) as u32
}

/// One step of the hash.
pub open spec fn djb2_byte(h: u32, b: u8) -> u32 {
    wrap32(wrap32(h * 33) + b)
}

/// The hash of `bytes`, without a separator.
pub open spec fn djb2_prefix(h: u32, bytes: Seq<u8>) -> u32
    decreases bytes.len(),
{
    if bytes.len() == 0 {
        h
    } else {
        djb2_byte(djb2_prefix(h, bytes.drop_last()), bytes.last())
    }
}

/// The hash of `bytes` and of the NUL that separates it from what follows.
pub open spec fn djb2_field(h: u32, bytes: Seq<u8>) -> u32 {
    djb2_byte(djb2_prefix(h, bytes), 0)
}

/// The hash of a list of fields.
pub open spec fn djb2_fields(h: u32, fields: Seq<Seq<u8>>) -> u32
    decreases fields.len(),
{
    if fields.len() == 0 {
        h
    } else {
        djb2_field(djb2_fields(h, fields.drop_last()), fields.last())
    }
}

/// The name and the signature of each helper, in their order.
pub open spec fn manifest() -> Seq<Seq<char>> {
    seq![
        "bifrost_helper_find_task_by_comm"@,
        "struct task_struct *(const unsigned char *, unsigned int)"@,
        "bifrost_helper_put_task_struct"@,
        "void (struct task_struct *)"@,
        "bifrost_helper_resolve_symbol"@,
        "int (struct file *, const u8 *, u32, u64 *, u64 *)"@,
        "bifrost_helper_resolve_usdt"@,
        "int (struct file *, const u8 *, u32, const u8 *, u32, u64 *, u64 *)"@,
        "bifrost_helper_emit_symtab"@,
        "int (struct file *, u8 *, u32, u32, u32 *)"@,
        "bifrost_helper_emit_symtab_for_file"@,
        "int (struct file *, u8 *, u32, u32, u32 *)"@,
        "bifrost_helper_for_each_vma_file"@,
        "void (struct task_struct *, void (*)(struct file *, void *), void *)"@,
    ]
}

/// The bytes of the names and signatures.
pub open spec fn manifest_fields() -> Seq<Seq<u8>> {
    manifest().map_values(|s: Seq<char>| encode_utf8(s))
}

/// The hash that the C side has to report.
pub open spec fn expected_hash() -> u32 {
    djb2_fields(DJB2_SEED, manifest_fields())
}

/// Mix one byte into the hash.
pub fn bifrost_kfunc_djb2_byte(h: u32, b: u8) -> (r: u32)
    ensures
        r == djb2_byte(h, b),
{
    let m: u64 = ((h as u64) * 33) % 0x1_0000_0000;
    ((m + b as u64) % 0x1_0000_0000) as u32
}

/// Mix a field and its separator into the hash.
pub fn bifrost_kfunc_djb2_bytes(h: u32, bytes: &[u8]) -> (r: u32)
    ensures
        r == djb2_field(h, bytes@),
{
    let mut r: u32 = h;
    let mut i: usize = 0;
    assert(bytes@.take(0) =~= Seq::<u8>::empty());
    while i < bytes.len()
        invariant
            i <= bytes@.len(),
            r == djb2_prefix(h, bytes@.take(i as int)),
        decreases bytes@.len() - i,
    {
        assert(bytes@.take(i + 1).drop_last() =~= bytes@.take(i as int));
        r = bifrost_kfunc_djb2_byte(r, bytes[i]);
        i += 1;
    }
    assert(bytes@.take(i as int) =~= bytes@);
    bifrost_kfunc_djb2_byte(r, 0)
}

/// Mix the field `s`, which is field `i` of the manifest, into the hash of the
/// fields before it.
fn mix(h: u32, s: &str, i: Ghost<int>) -> (r: u32)
    requires
        0 <= i@ < manifest().len(),
        s@ == manifest()[i@],
        h == djb2_fields(DJB2_SEED, manifest_fields().take(i@)),
    ensures
        r == djb2_fields(DJB2_SEED, manifest_fields().take(i@ + 1)),
{
    proof {
        let t = manifest_fields().take(i@ + 1);
        assert(t.drop_last() =~= manifest_fields().take(i@));
        assert(t.last() == encode_utf8(s@));
    }
    bifrost_kfunc_djb2_bytes(h, s.as_bytes())
}

/// Compute the hash that the C side has to report.
pub fn bifrost_kfunc_expected_hash() -> (r: u32)
    ensures
        r == expected_hash(),
{
    assert(manifest_fields().take(0) =~= Seq::<Seq<u8>>::empty());
    let h: u32 = DJB2_SEED;
    let h: u32 = mix(h, "bifrost_helper_find_task_by_comm", Ghost(0));
    let h: u32 = mix(h, "struct task_struct *(const unsigned char *, unsigned int)", Ghost(1));
    let h: u32 = mix(h, "bifrost_helper_put_task_struct", Ghost(2));
    let h: u32 = mix(h, "void (struct task_struct *)", Ghost(3));
    let h: u32 = mix(h, "bifrost_helper_resolve_symbol", Ghost(4));
    let h: u32 = mix(h, "int (struct file *, const u8 *, u32, u64 *, u64 *)", Ghost(5));
    let h: u32 = mix(h, "bifrost_helper_resolve_usdt", Ghost(6));
    let h: u32 = mix(
        h,
        "int (struct file *, const u8 *, u32, const u8 *, u32, u64 *, u64 *)",
        Ghost(7),
    );
    let h: u32 = mix(h, "bifrost_helper_emit_symtab", Ghost(8));
    let h: u32 = mix(h, "int (struct file *, u8 *, u32, u32, u32 *)", Ghost(9));
    let h: u32 = mix(h, "bifrost_helper_emit_symtab_for_file", Ghost(10));
    let h: u32 = mix(h, "int (struct file *, u8 *, u32, u32, u32 *)", Ghost(11));
    let h: u32 = mix(h, "bifrost_helper_for_each_vma_file", Ghost(12));
    let h: u32 = mix(
        h,
        "void (struct task_struct *, void (*)(struct file *, void *), void *)",
        Ghost(13),
    );
    assert(manifest_fields().take(14) =~= manifest_fields());
    h
}

/// Where the two sides disagree.
#[derive(Clone, Copy, PartialEq, Eq, Structural, Debug)]
pub enum ManifestFault {
    Length { found: u32 },
    Hash { found: u32 },
}

impl ManifestFault {
    /// The status that the module fails to load with.
    pub fn status(&self) -> (r: i32)
        ensures
            r == -EINVAL,
    {
        -EINVAL
    }
}

/// Hold the length and the hash that the C side reports against the manifest.
/// A difference in length is reported before one in the hash.
pub fn validate(c_len: u32, c_hash: u32) -> (r: Result<(), ManifestFault>)
    ensures
        match r {
            Ok(()) => c_len == BIFROST_KFUNC_EXPECTED_LEN && c_hash == expected_hash(),
            Err(ManifestFault::Length { found }) => c_len != BIFROST_KFUNC_EXPECTED_LEN && found
                == c_len,
            Err(ManifestFault::Hash { found }) => c_len == BIFROST_KFUNC_EXPECTED_LEN && c_hash
                != expected_hash() && found == c_hash,
        },
{
    if c_len != BIFROST_KFUNC_EXPECTED_LEN {
        return Err(ManifestFault::Length { found: c_len });
    }
    if c_hash != bifrost_kfunc_expected_hash() {
        return Err(ManifestFault::Hash { found: c_hash });
    }
    Ok(())
}

/// The manifest has a name and a signature for each of its entries.
pub proof fn law_manifest_length()
    ensures
        manifest().len() == 2 * BIFROST_KFUNC_EXPECTED_LEN,
{
}

/// A step of the hash keeps different hashes different: multiplication by 33
/// can be undone modulo 2^32.
proof fn lemma_step_is_injective(h: u32, g: u32, b: u8)
    requires
        djb2_byte(h, b) == djb2_byte(g, b),
    ensures
        h == g,
{
    let x = h * 33;
    let y = g * 33;
    assert(x % 0x1_0000_0000 == y % 0x1_0000_0000);
    let k = x / 0x1_0000_0000 - y / 0x1_0000_0000;
    assert(33 * (h - g) == 0x1_0000_0000 * k);
    // 1041204193 * 33 == 1 + 8 * 2^32
    assert(h - g == 0x1_0000_0000 * (1041204193 * k - 8 * (h - g)));
}

proof fn lemma_prefix_is_injective(h: u32, g: u32, s: Seq<u8>)
    requires
        h != g,
    ensures
        djb2_prefix(h, s) != djb2_prefix(g, s),
    decreases s.len(),
{
    if s.len() > 0 {
        let t = s.drop_last();
        lemma_prefix_is_injective(h, g, t);
        if djb2_prefix(h, s) == djb2_prefix(g, s) {
            lemma_step_is_injective(djb2_prefix(h, t), djb2_prefix(g, t), s.last());
        }
    }
}

proof fn lemma_prefix_sees_one_byte(h: u32, s: Seq<u8>, i: int, b: u8)
    requires
        0 <= i < s.len(),
        s[i] != b,
    ensures
        djb2_prefix(h, s) != djb2_prefix(h, s.update(i, b)),
    decreases s.len(),
{
    let t = s.drop_last();
    let u = s.update(i, b);
    if i == s.len() - 1 {
        assert(u.drop_last() =~= t);
    } else {
        assert(u.drop_last() =~= t.update(i, b));
        lemma_prefix_sees_one_byte(h, t, i, b);
        if djb2_prefix(h, s) == djb2_prefix(h, u) {
            lemma_step_is_injective(djb2_prefix(h, t), djb2_prefix(h, u.drop_last()), s.last());
        }
    }
}

/// The hash sees a change of any one byte of a name or a signature.
pub proof fn law_hash_sees_any_one_byte(h: u32, fields: Seq<Seq<u8>>, f: int, i: int, b: u8)
    requires
        0 <= f < fields.len(),
        0 <= i < fields[f].len(),
        fields[f][i] != b,
    ensures
        djb2_fields(h, fields) != djb2_fields(h, fields.update(f, fields[f].update(i, b))),
    decreases fields.len(),
{
    let changed = fields.update(f, fields[f].update(i, b));
    let front = fields.drop_last();
    let g = djb2_fields(h, front);
    let last = fields.last();
    if f == fields.len() - 1 {
        assert(changed.drop_last() =~= front);
        lemma_prefix_sees_one_byte(g, last, i, b);
        if djb2_fields(h, fields) == djb2_fields(h, changed) {
            lemma_step_is_injective(djb2_prefix(g, last), djb2_prefix(g, last.update(i, b)), 0);
        }
    } else {
        let front2 = front.update(f, front[f].update(i, b));
        assert(changed.drop_last() =~= front2);
        law_hash_sees_any_one_byte(h, front, f, i, b);
        let g2 = djb2_fields(h, front2);
        lemma_prefix_is_injective(g, g2, last);
        if djb2_fields(h, fields) == djb2_fields(h, changed) {
            lemma_step_is_injective(djb2_prefix(g, last), djb2_prefix(g2, last), 0);
        }
    }
}

/// A step of the hash multiplies by 33 and adds the byte, modulo 2^32; a field
/// is mixed in byte by byte, with a NUL at its end, and the first field before
/// all others.
pub proof fn law_hash_steps(h: u32, b: u8, s: Seq<u8>, fields: Seq<Seq<u8>>)
    ensures
        djb2_byte(h, b) == (33 * h + b) % 0x1_0000_0000,
        djb2_field(h, Seq::empty()) == (33 * h) % 0x1_0000_0000,
        djb2_field(h, seq![b] + s) == djb2_field(((33 * h + b) % 0x1_0000_0000) as u32, s),
        djb2_fields(h, Seq::empty()) == h,
        djb2_fields(h, seq![s] + fields) == djb2_fields(djb2_field(h, s), fields),
{
    lemma_mod_sum(h, b);
    lemma_mod_sum(h, 0);
    lemma_prefix_first(h, b, s);
    lemma_fields_first(h, s, fields);
}

proof fn lemma_mod_sum(h: u32, b: u8)
    ensures
        djb2_byte(h, b) == (33 * h + b) % 0x1_0000_0000,
{
    let m = 0x1_0000_0000int;
    let x = h * 33;
    assert((x % m + b) % m == (x + b) % m) by {
        vstd::arithmetic::div_mod::lemma_add_mod_noop(x % m, b as int, m);
        vstd::arithmetic::div_mod::lemma_add_mod_noop(x, b as int, m);
        vstd::arithmetic::div_mod::lemma_mod_twice(x, m);
    }
}

proof fn lemma_prefix_first(h: u32, b: u8, s: Seq<u8>)
    ensures
        djb2_prefix(h, seq![b] + s) == djb2_prefix(djb2_byte(h, b), s),
    decreases s.len(),
{
    let t = seq![b] + s;
    if s.len() == 0 {
        reveal_with_fuel(djb2_prefix, 2);
        assert(t.drop_last() =~= Seq::<u8>::empty());
    } else {
        lemma_prefix_first(h, b, s.drop_last());
        assert(t.drop_last() =~= seq![b] + s.drop_last());
    }
}

proof fn lemma_fields_first(h: u32, s: Seq<u8>, fields: Seq<Seq<u8>>)
    ensures
        djb2_fields(h, seq![s] + fields) == djb2_fields(djb2_field(h, s), fields),
    decreases fields.len(),
{
    let t = seq![s] + fields;
    if fields.len() == 0 {
        reveal_with_fuel(djb2_fields, 2);
        assert(t.drop_last() =~= Seq::<Seq<u8>>::empty());
    } else {
        lemma_fields_first(h, s, fields.drop_last());
        assert(t.drop_last() =~= seq![s] + fields.drop_last());
    }
}

} // verus!
