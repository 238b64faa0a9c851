//! Paths of probed binaries.

use vstd::prelude::*;
use vstd::slice::slice_subrange;

use crate::bytes::{first_nul, lemma_first_nul};

verus! {

pub const SLASH: u8 = 0x2f;

/// Where the part of `s` that follows its last slash starts.
pub open spec fn name_start(s: Seq<u8>) -> int
    decreases s.len(),
{
    if s.len() == 0 || s.last() == SLASH {
        s.len() as int
    } else {
        name_start(s.drop_last())
    }
}

/// The last component of the path that a buffer holds up to its first NUL.
pub open spec fn basename(buf: Seq<u8>) -> Seq<u8> {
    let path = buf.take(first_nul(buf));
    path.skip(name_start(path))
}

proof fn lemma_name_start(s: Seq<u8>)
    ensures
        0 <= name_start(s) <= s.len(),
        forall|k: int| name_start(s) <= k < s.len() ==> #[trigger] s[k] != SLASH,
        name_start(s) > 0 ==> s[name_start(s) - 1] == SLASH,
    decreases s.len(),
{
    if s.len() != 0 && s.last() != SLASH {
        let t = s.drop_last();
        lemma_name_start(t);
        assert forall|k: int| name_start(s) <= k < s.len() implies #[trigger] s[k] != SLASH by {
            if k < t.len() {
                assert(t[k] == s[k]);
            }
        }
    }
}

/// The basename is what remains of the path once everything up to its last
/// slash is taken off: it has neither a slash nor a NUL, and what stands before
/// it is empty or ends in a slash.
pub proof fn law_basename_is_the_last_component(buf: Seq<u8>)
    ensures
        !basename(buf).contains(SLASH),
        !basename(buf).contains(0),
        exists|dir: Seq<u8>|
            buf.take(first_nul(buf)) == #[trigger] (dir + basename(buf)) && (dir.len() == 0
                || dir.last() == SLASH),
{
    lemma_first_nul(buf);
    let path = buf.take(first_nul(buf));
    let n = name_start(path);
    lemma_name_start(path);
    let name = basename(buf);
    assert forall|k: int| 0 <= k < name.len() implies name[k] != SLASH && name[k] != 0 by {
        assert(name[k] == path[n + k]);
        assert(path[n + k] == buf[n + k]);
    }
    assert(path =~= path.take(n) + name);
}

/// Extract the basename of a NUL-terminated path.
pub fn path_basename(buf: &[u8]) -> (r: &[u8])
    ensures
        r@ == basename(buf@),
{
    let mut start: usize = 0;
    let mut end: usize = 0;
    proof {
        lemma_first_nul(buf@);
    }
    assert(buf@.take(0) =~= Seq::<u8>::empty());
    while end < buf.len() && buf[end] != 0
        invariant
            end <= buf@.len(),
            start <= end,
            start == name_start(buf@.take(end as int)),
            forall|k: int| 0 <= k < end ==> buf@[k] != 0,
        decreases buf@.len() - end,
    {
        assert(buf@.take(end + 1).drop_last() =~= buf@.take(end as int));
        if buf[end] == SLASH {
            start = end + 1;
        }
        end += 1;
    }
    proof {
        let n = first_nul(buf@);
        assert(end == n) by {
            if end < n {
                assert(buf@[end as int] != 0);
            }
            if n < end {
                assert(buf@[n] == 0);
            }
        }
    }
    let r: &[u8] = slice_subrange(buf, start, end);
    assert(r@ =~= basename(buf@));
    r
}

/// A path that is `dir` and then `name`, where `dir` is empty or ends in a slash
/// and `name` has none, has the basename `name`, whatever follows its NUL.
pub proof fn law_basename_of_a_path(dir: Seq<u8>, name: Seq<u8>, rest: Seq<u8>)
    requires
        dir.len() == 0 || dir.last() == 0x2f,
        forall|i: int| 0 <= i < dir.len() ==> #[trigger] dir[i] != 0,
        forall|i: int| 0 <= i < name.len() ==> #[trigger] name[i] != 0 && name[i] != 0x2f,
        rest.len() > 0 ==> rest[0] == 0,
    ensures
        basename(dir + name + rest) == name,
{
    let buf = dir + name + rest;
    let n = (dir.len() + name.len()) as int;
    lemma_first_nul(buf);
    let z = first_nul(buf);
    assert forall|i: int| 0 <= i < n implies #[trigger] buf[i] != 0 by {
        if i < dir.len() {
            assert(buf[i] == dir[i]);
        } else {
            assert(buf[i] == name[i - dir.len()]);
        }
    }
    if z < n {
        assert(buf[z] != 0);
    }
    if z > n {
        assert(buf[n] == rest[0]);
    }
    let path = buf.take(n);
    lemma_name_start(path);
    let s = name_start(path);
    if s < dir.len() {
        assert(path[dir.len() - 1] == dir.last());
    }
    if s > dir.len() {
        assert(path[s - 1] == name[s - 1 - dir.len()]);
    }
    assert(path.skip(s) =~= name);
}

} // verus!
