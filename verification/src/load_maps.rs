//! What a whole program load does to the map table.
//!
//! Maps outlive the command that brought them: a definition whose fake
//! descriptor is known shares the map that is there, and only a new one is
//! given a place of its own.

use vstd::prelude::*;

use crate::errno::{is_err_ptr, ENOMEM};
use crate::load_prog::{
    after, answers, enter_fds, enter_maps, enter_relocs, in_range, law_every_answer_makes_progress,
    steps, Answer, LoadState, Phase, Request, Step,
};
use crate::load_prog_parse::MAX_MAPS_PER_PROG;
use crate::maps::{find_fd, lemma_find_fd, MapSlot, MapsView};
use crate::types::MapDef;

verus! {

/// Whether a map of `s` has fake descriptor `fd`.
pub open spec fn knows(s: Seq<MapSlot>, fd: i32) -> bool {
    exists|j: int| 0 <= j < s.len() && (#[trigger] s[j]).fake_fd == fd
}

/// Whether a definition of `defs` has fake descriptor `fd`.
pub open spec fn defines(defs: Seq<MapDef>, fd: i32) -> bool {
    exists|i: int| 0 <= i < defs.len() && (#[trigger] defs[i]).fake_fd == fd
}

/// The definitions of `defs` that are new beside the maps of `known`: the first
/// of each fake descriptor that no known map has, in their order.
pub open spec fn new_defs(known: Seq<MapSlot>, defs: Seq<MapDef>) -> Seq<MapDef>
    decreases defs.len(),
{
    if defs.len() == 0 {
        Seq::empty()
    } else {
        let front = new_defs(known, defs.drop_last());
        if knows(known, defs.last().fake_fd) || defines(front, defs.last().fake_fd) {
            front
        } else {
            front.push(defs.last())
        }
    }
}

/// Whether `a` and `b` are the same map, but for its real descriptor.
pub open spec fn same_map(a: MapSlot, b: MapSlot) -> bool {
    a == (MapSlot { real_fd: a.real_fd, ..b })
}

/// Whether the map of `m` is one that definition `d` asks for.
pub open spec fn map_of(m: MapSlot, d: MapDef) -> bool {
    m.handle != 0 && m.fake_fd == d.fake_fd && m.agg_kind == d.kind()
}

/// The maps of `before` are still there in `after`, each at its place.
pub open spec fn kept(before: MapsView, after: MapsView) -> bool {
    &&& before.num_maps <= after.num_maps
    &&& forall|j: int|
        0 <= j < before.num_maps ==> same_map(#[trigger] after.slots[j], before.slots[j])
}

/// `after` is `before` with a map for each of `defs` in the next places.
pub open spec fn extended(before: MapsView, after: MapsView, defs: Seq<MapDef>) -> bool {
    &&& kept(before, after)
    &&& after.num_maps == before.num_maps + defs.len()
    &&& forall|k: int|
        0 <= k < defs.len() ==> map_of(#[trigger] after.slots[before.num_maps + k], defs[k])
}

/// What the phase of a load counts on in the map table.
pub open spec fn table_fits(s: LoadState, m: MapsView) -> bool {
    match s.phase {
        Phase::AllocMap { i, .. } => i < s.maps.len() && find_fd(
            m.live(),
            s.maps[i as int].fake_fd,
        ) is None,
        Phase::BindFd { i, place } => i < s.maps.len() && place < m.num_maps,
        _ => true,
    }
}

/// `find_fd` finds a map exactly if one is there.
proof fn lemma_knows(s: Seq<MapSlot>, fd: i32)
    ensures
        (find_fd(s, fd) is Some) == knows(s, fd),
{
    lemma_find_fd(s, fd);
    if find_fd(s, fd) is Some {
        assert(s[find_fd(s, fd)->0].fake_fd == fd);
    }
}

/// Binding a descriptor changes no map.
proof fn lemma_bound(m: MapsView, j: int, fd: i32)
    requires
        m.wf(),
        0 <= j < m.num_maps,
        fd >= 0,
    ensures
        m.bound(j, fd).wf(),
        m.bound(j, fd).num_maps == m.num_maps,
        forall|k: int|
            0 <= k < m.num_maps ==> same_map(#[trigger] m.bound(j, fd).slots[k], m.slots[k]),
{
}

/// Closing the descriptors changes no map.
proof fn lemma_closed(m: MapsView)
    requires
        m.wf(),
    ensures
        m.closed().wf(),
        m.closed().num_maps == m.num_maps,
        forall|k: int|
            0 <= k < m.num_maps ==> same_map(#[trigger] m.closed().slots[k], m.slots[k]),
{
    let c = m.closed();
    assert forall|k: int| 0 <= k < MAX_MAPS_PER_PROG implies (#[trigger] c.slots[k]).real_fd >= -1
        && same_map(c.slots[k], m.slots[k]) by {
        if k < m.num_maps {
            assert(m.live()[k] == m.slots[k]);
        } else {
            assert(m.slots.skip(m.num_maps)[k - m.num_maps] == m.slots[k]);
        }
    }
}

/// A new map is entered after the others.
proof fn lemma_recorded(m: MapsView, raw: u64, d: MapDef)
    requires
        m.wf(),
        m.num_maps < MAX_MAPS_PER_PROG,
        raw != 0,
        find_fd(m.live(), d.fake_fd) is None,
    ensures
        m.recorded(raw, d.fake_fd, d.kind()).wf(),
        extended(m, m.recorded(raw, d.fake_fd, d.kind()), seq![d]),
{
    let r = m.recorded(raw, d.fake_fd, d.kind());
    lemma_find_fd(m.live(), d.fake_fd);
    assert forall|j: int| 0 <= j < m.num_maps implies (#[trigger] r.slots[j]).fake_fd
        != d.fake_fd by {
        assert(m.live()[j] == m.slots[j]);
    }
}

/// Looking for the next map without descriptor leaves the table alone.
proof fn lemma_enter_fds_table(s: LoadState, m: MapsView, i: int)
    requires
        m.wf(),
        0 <= i,
        s.maps.len() <= MAX_MAPS_PER_PROG,
    ensures
        enter_fds(s, m, i).m == m,
        enter_fds(s, m, i).s.maps == s.maps,
        table_fits(enter_fds(s, m, i).s, m),
        !(enter_fds(s, m, i).s.phase is AllocMap),
        !(enter_fds(s, m, i).req is MapTableFull),
    decreases s.maps.len() - i,
{
    if i < s.maps.len() {
        lemma_find_fd(m.live(), s.maps[i].fake_fd);
        lemma_enter_fds_table(s, m, i + 1);
    } else {
        assert(enter_fds(s, m, i) == enter_relocs(s, m));
    }
}

/// Looking for the next new definition leaves the table alone.
proof fn lemma_enter_maps_table(s: LoadState, m: MapsView, i: int, status: i32)
    requires
        m.wf(),
        0 <= i,
        s.maps.len() <= MAX_MAPS_PER_PROG,
    ensures
        enter_maps(s, m, i, status).m == m,
        enter_maps(s, m, i, status).s.maps == s.maps,
        table_fits(enter_maps(s, m, i, status).s, m),
        !(enter_maps(s, m, i, status).req is MapTableFull),
    decreases s.maps.len() - i,
{
    if i < s.maps.len() {
        lemma_enter_maps_table(s, m, i + 1, status);
    } else {
        lemma_enter_fds_table(s, m, 0);
    }
}

/// What one answer does to the table: a new map may be entered, and real
/// descriptors may come and go.
proof fn lemma_answer(s: LoadState, m: MapsView, a: Answer)
    requires
        m.wf(),
        in_range(s),
        table_fits(s, m),
        answers(s.phase, a),
    ensures
        after(s, m, a).m.wf(),
        after(s, m, a).s.maps == s.maps,
        table_fits(after(s, m, a).s, after(s, m, a).m),
        kept(m, after(s, m, a).m),
        after(s, m, a).m.num_maps == m.num_maps || {
            &&& s.phase matches Phase::AllocMap { i, .. }
            &&& extended(m, after(s, m, a).m, seq![s.maps[i as int]])
        },
{
    let d = s.at(Phase::Done);
    match a {
        Answer::MapAllocated { raw } => {
            if let Phase::AllocMap { i, status } = s.phase {
                let def = s.maps[i as int];
                if is_err_ptr(raw) || raw == 0 {
                    let st = if status == 0 {
                        (-ENOMEM) as i32
                    } else {
                        status
                    };
                    lemma_enter_maps_table(d, m, i + 1, st);
                } else if m.num_maps < MAX_MAPS_PER_PROG {
                    lemma_recorded(m, raw, def);
                    lemma_enter_maps_table(
                        d,
                        m.recorded(raw, def.fake_fd, def.kind()),
                        i + 1,
                        status,
                    );
                }
            }
        },
        Answer::FdBound { fd } => {
            if let Phase::BindFd { i, place } = s.phase {
                if fd < 0 {
                    lemma_enter_fds_table(d, m, i + 1);
                } else {
                    lemma_bound(m, place as int, fd);
                    lemma_enter_fds_table(d, m.bound(place as int, fd), i + 1);
                }
            }
        },
        _ => {
            lemma_closed(m);
        },
    }
}

/// Whatever the kernel answers, at every step of a load the table is
/// well-formed, so no two maps share a fake descriptor; every map from before
/// is still at its place; a map is asked for only if none has the definition's
/// descriptor; and every map beyond those from before is one that a definition
/// of the command asks for.
pub proof fn law_a_load_keeps_the_maps_it_finds(
    s: LoadState,
    m: MapsView,
    kernel: spec_fn(Step) -> Answer,
    n: nat,
)
    requires
        m.wf(),
        in_range(s),
        forall|p: Step| !(p.s.phase is Done) ==> answers(p.s.phase, #[trigger] kernel(p)),
    ensures
        ({
            let p = steps(enter_maps(s, m, 0, 0), kernel, n);
            &&& p.m.wf()
            &&& p.s.maps == s.maps
            &&& in_range(p.s)
            &&& table_fits(p.s, p.m)
            &&& kept(m, p.m)
            &&& forall|j: int|
                m.num_maps <= j < p.m.num_maps ==> exists|i: int|
                    0 <= i < s.maps.len() && map_of(#[trigger] p.m.slots[j], #[trigger] s.maps[i])
        }),
    decreases n,
{
    let st = enter_maps(s, m, 0, 0);
    if n == 0 {
        lemma_enter_maps_table(s, m, 0, 0);
        lemma_start_in_range(s, m, 0);
    } else {
        let p = steps(st, kernel, (n - 1) as nat);
        law_a_load_keeps_the_maps_it_finds(s, m, kernel, (n - 1) as nat);
        if !(p.s.phase is Done) {
            let a = kernel(p);
            let q = after(p.s, p.m, a);
            lemma_answer(p.s, p.m, a);
            law_every_answer_makes_progress(p.s, p.m, a);
            assert forall|j: int| 0 <= j < m.num_maps implies same_map(
                #[trigger] q.m.slots[j],
                m.slots[j],
            ) by {
                assert(same_map(q.m.slots[j], p.m.slots[j]));
                assert(same_map(p.m.slots[j], m.slots[j]));
            }
            assert forall|j: int| m.num_maps <= j < q.m.num_maps implies exists|i: int|
                0 <= i < s.maps.len() && map_of(
                    #[trigger] q.m.slots[j],
                    #[trigger] s.maps[i],
                ) by {
                if j < p.m.num_maps {
                    assert(same_map(q.m.slots[j], p.m.slots[j]));
                    let i = choose|i: int|
                        0 <= i < s.maps.len() && map_of(p.m.slots[j], #[trigger] s.maps[i]);
                    assert(map_of(q.m.slots[j], s.maps[i]));
                } else {
                    assert(j == p.m.num_maps + 0);
                    let i = p.s.phase->AllocMap_i as int;
                    assert(map_of(q.m.slots[p.m.num_maps + 0], s.maps[i]));
                }
            }
        }
    }
}

/// A load begins in range.
proof fn lemma_start_in_range(s: LoadState, m: MapsView, i: int)
    requires
        m.wf(),
        in_range(s),
        0 <= i,
    ensures
        in_range(enter_maps(s, m, i, 0).s),
    decreases s.maps.len() - i,
{
    if i < s.maps.len() {
        lemma_start_in_range(s, m, i + 1);
    } else {
        lemma_fds_in_range(s, m, 0);
    }
}

proof fn lemma_fds_in_range(s: LoadState, m: MapsView, i: int)
    requires
        m.wf(),
        in_range(s),
        0 <= i,
    ensures
        in_range(enter_fds(s, m, i).s),
    decreases s.maps.len() - i,
{
    if i < s.maps.len() {
        lemma_fds_in_range(s, m, i + 1);
    }
}

/// Each definition is known or new.
proof fn lemma_new_defs_cover(known: Seq<MapSlot>, defs: Seq<MapDef>, i: int)
    requires
        0 <= i < defs.len(),
    ensures
        knows(known, defs[i].fake_fd) || defines(new_defs(known, defs), defs[i].fake_fd),
    decreases defs.len(),
{
    let front = new_defs(known, defs.drop_last());
    let all = new_defs(known, defs);
    if i < defs.len() - 1 {
        lemma_new_defs_cover(known, defs.drop_last(), i);
        assert(defs.drop_last()[i] == defs[i]);
        if defines(front, defs[i].fake_fd) {
            let k = choose|k: int| 0 <= k < front.len() && (#[trigger] front[k]).fake_fd
                == defs[i].fake_fd;
            assert(all[k] == front[k]);
        }
    } else if !knows(known, defs[i].fake_fd) && !defines(front, defs[i].fake_fd) {
        assert(all[front.len() as int] == defs[i]);
    }
}

/// More definitions give no fewer new ones.
proof fn lemma_new_defs_grow(known: Seq<MapSlot>, defs: Seq<MapDef>, i: int)
    requires
        0 <= i <= defs.len(),
    ensures
        new_defs(known, defs.take(i)).len() <= new_defs(known, defs).len(),
    decreases defs.len(),
{
    if i == defs.len() {
        assert(defs.take(i) =~= defs);
    } else {
        lemma_new_defs_grow(known, defs.drop_last(), i);
        assert(defs.drop_last().take(i) =~= defs.take(i));
    }
}

/// An extended table knows what the table knew, and the definitions that it
/// was extended by.
proof fn lemma_extended_knows(m: MapsView, q: MapsView, defs: Seq<MapDef>, fd: i32)
    requires
        m.wf(),
        q.wf(),
        extended(m, q, defs),
    ensures
        knows(q.live(), fd) == (knows(m.live(), fd) || defines(defs, fd)),
{
    if knows(q.live(), fd) {
        let j = choose|j: int| 0 <= j < q.live().len() && (#[trigger] q.live()[j]).fake_fd == fd;
        assert(q.live()[j] == q.slots[j]);
        if j < m.num_maps {
            assert(same_map(q.slots[j], m.slots[j]));
            assert(m.live()[j].fake_fd == fd);
        } else {
            let k = j - m.num_maps;
            assert(map_of(q.slots[m.num_maps + k], defs[k]));
            assert(defs[k].fake_fd == fd);
        }
    }
    if knows(m.live(), fd) {
        let j = choose|j: int| 0 <= j < m.live().len() && (#[trigger] m.live()[j]).fake_fd == fd;
        assert(same_map(q.slots[j], m.slots[j]));
        assert(q.live()[j].fake_fd == fd);
    }
    if defines(defs, fd) {
        let k = choose|k: int| 0 <= k < defs.len() && (#[trigger] defs[k]).fake_fd == fd;
        assert(map_of(q.slots[m.num_maps + k], defs[k]));
        assert(q.live()[m.num_maps + k].fake_fd == fd);
    }
}

/// How far the table of a load that started with table `m` has come at step `p`:
/// before definition `i` is given its map, the new definitions below `i` have
/// theirs; after the last, all have.
pub open spec fn entered(m: MapsView, defs: Seq<MapDef>, p: Step) -> bool {
    match p.s.phase {
        Phase::AllocMap { i, status } => {
            &&& status == 0
            &&& extended(m, p.m, new_defs(m.live(), defs.take(i as int)))
            &&& new_defs(m.live(), defs.take(i + 1)) == new_defs(
                m.live(),
                defs.take(i as int),
            ).push(defs[i as int])
        },
        _ => extended(m, p.m, new_defs(m.live(), defs)),
    }
}

/// Looking for the next new definition finds it.
proof fn lemma_enter_maps_entered(s: LoadState, m: MapsView, q: MapsView, i: int)
    requires
        m.wf(),
        q.wf(),
        0 <= i <= s.maps.len() <= MAX_MAPS_PER_PROG,
        extended(m, q, new_defs(m.live(), s.maps.take(i))),
    ensures
        entered(m, s.maps, enter_maps(s, q, i, 0)),
    decreases s.maps.len() - i,
{
    if i < s.maps.len() {
        let fd = s.maps[i].fake_fd;
        let t = s.maps.take(i + 1);
        assert(t.drop_last() =~= s.maps.take(i));
        assert(t.last() == s.maps[i]);
        lemma_knows(q.live(), fd);
        lemma_extended_knows(m, q, new_defs(m.live(), s.maps.take(i)), fd);
        if find_fd(q.live(), fd) is Some {
            lemma_enter_maps_entered(s, m, q, i + 1);
        }
    } else {
        assert(s.maps.take(i) =~= s.maps);
        lemma_enter_fds_table(s, q, 0);
    }
}

/// A table with the same maps is extended by the same definitions.
proof fn lemma_extended_stays(m: MapsView, q: MapsView, r: MapsView, defs: Seq<MapDef>)
    requires
        m.wf(),
        extended(m, q, defs),
        kept(q, r),
        r.num_maps == q.num_maps,
    ensures
        extended(m, r, defs),
{
    assert forall|j: int| 0 <= j < m.num_maps implies same_map(
        #[trigger] r.slots[j],
        m.slots[j],
    ) by {
        assert(same_map(r.slots[j], q.slots[j]));
        assert(same_map(q.slots[j], m.slots[j]));
    }
    assert forall|k: int| 0 <= k < defs.len() implies map_of(
        #[trigger] r.slots[m.num_maps + k],
        defs[k],
    ) by {
        assert(same_map(r.slots[m.num_maps + k], q.slots[m.num_maps + k]));
        assert(map_of(q.slots[m.num_maps + k], defs[k]));
    }
}

/// If the kernel has memory for every map and the table has room for the new
/// ones, the table grows by exactly one map for each new descriptor, in the
/// order of the definitions and with their aggregation kinds, and a definition
/// whose descriptor is there allocates nothing.  The maps from before stay, and
/// once all is allocated every definition has its map.
pub proof fn law_a_load_enters_each_new_map_once(
    s: LoadState,
    m: MapsView,
    kernel: spec_fn(Step) -> Answer,
    n: nat,
)
    requires
        m.wf(),
        in_range(s),
        forall|p: Step| !(p.s.phase is Done) ==> answers(p.s.phase, #[trigger] kernel(p)),
        forall|p: Step|
            p.s.phase is AllocMap ==> (#[trigger] kernel(p) matches Answer::MapAllocated { raw }
                && raw != 0 && !is_err_ptr(raw)),
        m.num_maps + new_defs(m.live(), s.maps).len() <= MAX_MAPS_PER_PROG,
    ensures
        ({
            let p = steps(enter_maps(s, m, 0, 0), kernel, n);
            &&& p.m.wf()
            &&& !(p.req is MapTableFull)
            &&& entered(m, s.maps, p)
            &&& !(p.s.phase is AllocMap) ==> forall|i: int|
                0 <= i < s.maps.len() ==> knows(p.m.live(), (#[trigger] s.maps[i]).fake_fd)
        }),
    decreases n,
{
    let st = enter_maps(s, m, 0, 0);
    let p = steps(st, kernel, n);
    law_a_load_keeps_the_maps_it_finds(s, m, kernel, n);
    if n == 0 {
        lemma_enter_maps_table(s, m, 0, 0);
        assert(s.maps.take(0) =~= Seq::<MapDef>::empty());
        lemma_enter_maps_entered(s, m, m, 0);
    } else {
        let o = steps(st, kernel, (n - 1) as nat);
        law_a_load_enters_each_new_map_once(s, m, kernel, (n - 1) as nat);
        law_a_load_keeps_the_maps_it_finds(s, m, kernel, (n - 1) as nat);
        if !(o.s.phase is Done) {
            lemma_entered_after(s, m, o, kernel(o));
        }
    }
    if !(p.s.phase is AllocMap) {
        assert forall|i: int| 0 <= i < s.maps.len() implies knows(
            p.m.live(),
            (#[trigger] s.maps[i]).fake_fd,
        ) by {
            lemma_new_defs_cover(m.live(), s.maps, i);
            lemma_extended_knows(m, p.m, new_defs(m.live(), s.maps), s.maps[i].fake_fd);
        }
    }
}

/// One answer to a load whose maps are entered so far.
proof fn lemma_entered_after(s: LoadState, m: MapsView, o: Step, a: Answer)
    requires
        m.wf(),
        o.m.wf(),
        in_range(o.s),
        o.s.maps == s.maps,
        table_fits(o.s, o.m),
        entered(m, s.maps, o),
        answers(o.s.phase, a),
        o.s.phase is AllocMap ==> (a matches Answer::MapAllocated { raw } && raw != 0
            && !is_err_ptr(raw)),
        m.num_maps + new_defs(m.live(), s.maps).len() <= MAX_MAPS_PER_PROG,
    ensures
        entered(m, s.maps, after(o.s, o.m, a)),
        !(after(o.s, o.m, a).req is MapTableFull),
{
    let d = o.s.at(Phase::Done);
    let all = new_defs(m.live(), s.maps);
    match a {
        Answer::MapAllocated { raw } => {
            if let Phase::AllocMap { i, status } = o.s.phase {
                let def = s.maps[i as int];
                let defs = new_defs(m.live(), s.maps.take(i as int));
                lemma_new_defs_grow(m.live(), s.maps, i + 1);
                let r = o.m.recorded(raw, def.fake_fd, def.kind());
                lemma_recorded(o.m, raw, def);
                assert(extended(m, r, defs.push(def))) by {
                    assert forall|j: int| 0 <= j < m.num_maps implies same_map(
                        #[trigger] r.slots[j],
                        m.slots[j],
                    ) by {
                        assert(same_map(o.m.slots[j], m.slots[j]));
                    }
                    assert forall|k: int| 0 <= k < defs.push(def).len() implies map_of(
                        #[trigger] r.slots[m.num_maps + k],
                        defs.push(def)[k],
                    ) by {
                        if k < defs.len() {
                            assert(map_of(o.m.slots[m.num_maps + k], defs[k]));
                        }
                    }
                }
                lemma_enter_maps_entered(d, m, r, i + 1);
                lemma_enter_maps_table(d, r, i + 1, 0);
            }
        },
        Answer::FdBound { fd } => {
            if let Phase::BindFd { i, place } = o.s.phase {
                if fd < 0 {
                    lemma_enter_fds_table(d, o.m, i + 1);
                } else {
                    let r = o.m.bound(place as int, fd);
                    lemma_bound(o.m, place as int, fd);
                    lemma_extended_stays(m, o.m, r, all);
                    lemma_enter_fds_table(d, r, i + 1);
                }
            }
        },
        _ => {
            lemma_closed(o.m);
            lemma_extended_stays(m, o.m, o.m.closed(), all);
        },
    }
}

} // verus!
