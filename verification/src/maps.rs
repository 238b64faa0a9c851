//! The driver's table of loaded maps.
//!
//! Programs refer to a map by a fake descriptor that the host chose.  The table
//! remembers the map behind each fake descriptor, so that a later program that
//! declares the same descriptor shares the map, and holds the real descriptor
//! that the map has while a program is being verified.

use vstd::prelude::*;

use crate::load_prog_parse::MAX_MAPS_PER_PROG;

verus! {

/// The real descriptor of a map that has none.
pub const NO_FD: i32 = -1;

/// One place of the map table.
#[derive(Clone, Copy, PartialEq, Eq, Structural, Debug)]
pub struct MapSlot {
    /// The kernel's map, `0` if there is none.
    pub handle: u64,
    pub fake_fd: i32,
    pub agg_kind: u8,
    /// Negative when the map has no real descriptor.
    pub real_fd: i32,
}

/// A place that was never used.
pub open spec fn unused_map() -> MapSlot {
    MapSlot { handle: 0, fake_fd: 0, agg_kind: 0, real_fd: NO_FD }
}

/// The table of loaded maps: eight places, of which the first `num_maps` are in use.
pub struct MapTable {
    pub slots: Vec<MapSlot>,
    pub num_maps: usize,
}

/// The first place of `s` whose map has fake descriptor `fd`.
pub open spec fn find_fd(s: Seq<MapSlot>, fd: i32) -> Option<int>
    decreases s.len(),
{
    if s.len() == 0 {
        None
    } else {
        match find_fd(s.drop_last(), fd) {
            Some(j) => Some(j),
            None => if s.last().fake_fd == fd {
                Some(s.len() - 1)
            } else {
                None
            },
        }
    }
}

/// What `find_fd` finds is the first place with that descriptor.
pub proof fn lemma_find_fd(s: Seq<MapSlot>, fd: i32)
    ensures
        match find_fd(s, fd) {
            Some(j) => 0 <= j < s.len() && s[j].fake_fd == fd && forall|k: int|
                0 <= k < j ==> (#[trigger] s[k]).fake_fd != fd,
            None => forall|k: int| 0 <= k < s.len() ==> (#[trigger] s[k]).fake_fd != fd,
        },
    decreases s.len(),
{
    if s.len() > 0 {
        lemma_find_fd(s.drop_last(), fd);
        match find_fd(s.drop_last(), fd) {
            Some(j) => {
                assert(s.drop_last()[j] == s[j]);
                assert forall|k: int| 0 <= k < j implies (#[trigger] s[k]).fake_fd != fd by {
                    assert(s.drop_last()[k] == s[k]);
                }
            },
            None => {
                assert forall|k: int| 0 <= k < s.len() - 1 implies (#[trigger] s[k]).fake_fd
                    != fd by {
                    assert(s.drop_last()[k] == s[k]);
                }
            },
        }
    }
}

/// The real descriptors that are open in `s`, in table order.
pub open spec fn open_fds(s: Seq<MapSlot>) -> Seq<i32>
    decreases s.len(),
{
    if s.len() == 0 {
        Seq::empty()
    } else if s.last().real_fd >= 0 {
        open_fds(s.drop_last()).push(s.last().real_fd)
    } else {
        open_fds(s.drop_last())
    }
}

/// `s` with every open real descriptor given up.
pub open spec fn fds_closed(s: Seq<MapSlot>) -> Seq<MapSlot> {
    s.map_values(
        |m: MapSlot|
            if m.real_fd >= 0 {
                MapSlot { real_fd: NO_FD, ..m }
            } else {
                m
            },
    )
}

/// What a map table holds.
pub struct MapsView {
    pub slots: Seq<MapSlot>,
    pub num_maps: int,
}

impl MapsView {
    /// Eight places; a real descriptor is open or -1; the places in use hold a
    /// map, and no two of them share a fake descriptor.
    pub open spec fn wf(self) -> bool {
        &&& self.slots.len() == MAX_MAPS_PER_PROG
        &&& 0 <= self.num_maps <= MAX_MAPS_PER_PROG
        &&& forall|j: int|
            0 <= j < MAX_MAPS_PER_PROG ==> (#[trigger] self.slots[j]).real_fd >= NO_FD
        &&& forall|j: int| 0 <= j < self.num_maps ==> (#[trigger] self.slots[j]).handle != 0
        &&& forall|j: int, k: int|
            0 <= j < k < self.num_maps ==> (#[trigger] self.slots[j]).fake_fd != (
            #[trigger] self.slots[k]).fake_fd
    }

    /// The places in use.
    pub open spec fn live(self) -> Seq<MapSlot> {
        self.slots.take(self.num_maps)
    }

    /// The table with a new map in the next free place.
    pub open spec fn recorded(self, handle: u64, fake_fd: i32, agg_kind: u8) -> Self {
        MapsView {
            slots: self.slots.update(
                self.num_maps,
                MapSlot {
                    handle,
                    fake_fd,
                    agg_kind,
                    real_fd: self.slots[self.num_maps].real_fd,
                },
            ),
            num_maps: self.num_maps + 1,
        }
    }

    /// The table with real descriptor `fd` noted for the map at place `j`.
    pub open spec fn bound(self, j: int, fd: i32) -> Self {
        MapsView {
            slots: self.slots.update(j, MapSlot { real_fd: fd, ..self.slots[j] }),
            num_maps: self.num_maps,
        }
    }

    /// The table with every open real descriptor given up.
    pub open spec fn closed(self) -> Self {
        MapsView {
            slots: fds_closed(self.live()) + self.slots.skip(self.num_maps),
            num_maps: self.num_maps,
        }
    }
}

impl View for MapTable {
    type V = MapsView;

    open spec fn view(&self) -> MapsView {
        MapsView { slots: self.slots@, num_maps: self.num_maps as int }
    }
}

impl MapTable {
    /// The places in use.
    pub open spec fn live(&self) -> Seq<MapSlot> {
        self@.live()
    }

    /// What the table holds is well-formed.
    pub open spec fn wf(&self) -> bool {
        self@.wf()
    }

    /// An empty table.
    pub fn new() -> (r: Self)
        ensures
            r.wf(),
            r.num_maps == 0,
            r.slots@ == Seq::new(MAX_MAPS_PER_PROG as nat, |i: int| unused_map()),
    {
        let e = MapSlot { handle: 0, fake_fd: 0, agg_kind: 0, real_fd: NO_FD };
        let mut slots: Vec<MapSlot> = Vec::new();
        let mut i: usize = 0;
        while i < MAX_MAPS_PER_PROG
            invariant
                i <= MAX_MAPS_PER_PROG,
                e == unused_map(),
                slots@ == Seq::new(i as nat, |i: int| unused_map()),
            decreases MAX_MAPS_PER_PROG - i,
        {
            slots.push(e);
            i += 1;
            assert(slots@ =~= Seq::new(i as nat, |i: int| unused_map()));
        }
        MapTable { slots, num_maps: 0 }
    }

    /// Forget the maps, as when a device is probed.  The descriptors and kinds
    /// of the places stay until the places are used again.
    pub fn reset(&mut self)
        requires
            old(self).wf(),
        ensures
            final(self).wf(),
            final(self).num_maps == 0,
            final(self).slots@ == old(self).slots@.map_values(
                |m: MapSlot| MapSlot { handle: 0, ..m },
            ),
    {
        let ghost s0 = self.slots@;
        let ghost f = |m: MapSlot| MapSlot { handle: 0, ..m };
        let mut i: usize = 0;
        while i < MAX_MAPS_PER_PROG
            invariant
                i <= MAX_MAPS_PER_PROG,
                s0.len() == MAX_MAPS_PER_PROG,
                self.slots@.len() == MAX_MAPS_PER_PROG,
                f == (|m: MapSlot| MapSlot { handle: 0, ..m }),
                self.slots@.take(i as int) == s0.take(i as int).map_values(f),
                self.slots@.skip(i as int) == s0.skip(i as int),
            decreases MAX_MAPS_PER_PROG - i,
        {
            let mut m = self.slots[i];
            assert(m == s0.skip(i as int)[0]);
            m.handle = 0;
            let ghost before = self.slots@;
            self.slots[i] = m;
            assert(self.slots@.take(i + 1) =~= before.take(i as int).push(m));
            assert(s0.take(i + 1).map_values(f) =~= s0.take(i as int).map_values(f).push(
                f(s0[i as int]),
            ));
            assert(self.slots@.skip(i + 1) =~= before.skip(i as int).skip(1));
            assert(s0.skip(i + 1) =~= s0.skip(i as int).skip(1));
            i += 1;
        }
        assert(self.slots@.take(MAX_MAPS_PER_PROG as int) =~= self.slots@);
        assert(s0.take(MAX_MAPS_PER_PROG as int) =~= s0);
        self.num_maps = 0;
    }

    /// The place of the map with fake descriptor `fd`.
    pub fn find(&self, fd: i32) -> (r: Option<usize>)
        requires
            self.wf(),
        ensures
            match r {
                Some(j) => find_fd(self.live(), fd) == Some(j as int),
                None => find_fd(self.live(), fd) is None,
            },
    {
        let mut j: usize = 0;
        while j < self.num_maps
            invariant
                self.wf(),
                j <= self.num_maps,
                forall|k: int| 0 <= k < j ==> (#[trigger] self.slots@[k]).fake_fd != fd,
            decreases self.num_maps - j,
        {
            if self.slots[j].fake_fd == fd {
                proof {
                    lemma_find_fd(self.live(), fd);
                    assert(self.live()[j as int] == self.slots@[j as int]);
                }
                return Some(j);
            }
            j += 1;
        }
        proof {
            lemma_find_fd(self.live(), fd);
        }
        None
    }

    /// Enter a new map in the next free place.
    pub fn record(&mut self, handle: u64, fake_fd: i32, agg_kind: u8)
        requires
            old(self).wf(),
            old(self).num_maps < MAX_MAPS_PER_PROG,
            handle != 0,
            find_fd(old(self).live(), fake_fd) is None,
        ensures
            final(self).wf(),
            final(self)@ == old(self)@.recorded(handle, fake_fd, agg_kind),
    {
        proof {
            lemma_find_fd(self.live(), fake_fd);
            assert forall|k: int| 0 <= k < self.num_maps implies (
            #[trigger] self.slots@[k]).fake_fd != fake_fd by {
                assert(self.live()[k] == self.slots@[k]);
            }
        }
        let n: usize = self.num_maps;
        let real_fd: i32 = self.slots[n].real_fd;
        self.slots[n] = MapSlot { handle, fake_fd, agg_kind, real_fd };
        self.num_maps = n + 1;
    }

    /// Note the real descriptor of the map at place `j`.
    pub fn set_real_fd(&mut self, j: usize, fd: i32)
        requires
            old(self).wf(),
            j < old(self).num_maps,
            fd >= NO_FD,
        ensures
            final(self).wf(),
            final(self)@ == old(self)@.bound(j as int, fd),
    {
        let mut m = self.slots[j];
        m.real_fd = fd;
        self.slots[j] = m;
    }

    /// Give up every open real descriptor of a place in use.  The result is
    /// what has to be closed.
    pub fn take_real_fds(&mut self) -> (r: Vec<i32>)
        requires
            old(self).wf(),
        ensures
            final(self).wf(),
            r@ == open_fds(old(self).live()),
            final(self)@ == old(self)@.closed(),
    {
        let ghost s0 = self.slots@;
        let ghost t0 = *self;
        let n: usize = self.num_maps;
        let mut r: Vec<i32> = Vec::new();
        let mut j: usize = 0;
        assert(s0.take(0) =~= Seq::<MapSlot>::empty());
        while j < n
            invariant
                j <= n == self.num_maps,
                t0.wf(),
                s0 == t0.slots@,
                n == t0.num_maps,
                self.slots@.len() == s0.len(),
                r@ == open_fds(s0.take(j as int)),
                forall|k: int|
                    0 <= k < s0.len() ==> #[trigger] self.slots@[k] == if k < j && s0[k].real_fd
                        >= 0 {
                        MapSlot { real_fd: NO_FD, ..s0[k] }
                    } else {
                        s0[k]
                    },
            decreases n - j,
        {
            assert(s0.take(j + 1).drop_last() =~= s0.take(j as int));
            let mut m = self.slots[j];
            assert(m == s0[j as int]);
            let fd: i32 = m.real_fd;
            if fd >= 0 {
                r.push(fd);
                m.real_fd = NO_FD;
                self.slots[j] = m;
            }
            j += 1;
        }
        assert(self@.slots =~= t0@.closed().slots);
        r
    }
}

/// Closing gives up exactly the open descriptors: none is left open, and
/// closing again has nothing to close.
pub proof fn law_closed_fds_stay_closed(s: Seq<MapSlot>)
    ensures
        open_fds(fds_closed(s)) == Seq::<i32>::empty(),
        fds_closed(fds_closed(s)) == fds_closed(s),
    decreases s.len(),
{
    assert(fds_closed(fds_closed(s)) =~= fds_closed(s));
    if s.len() > 0 {
        law_closed_fds_stay_closed(s.drop_last());
        assert(fds_closed(s).drop_last() =~= fds_closed(s.drop_last()));
    }
}

/// In a table, the place of a fake descriptor is the only one that has it.
pub proof fn law_fake_fds_are_unique(t: MapTable, j: int)
    requires
        t.wf(),
        0 <= j < t.num_maps,
    ensures
        find_fd(t.live(), t.live()[j].fake_fd) == Some(j),
{
    lemma_find_fd(t.live(), t.live()[j].fake_fd);
    let k = find_fd(t.live(), t.live()[j].fake_fd)->0;
    assert(t.live()[j] == t.slots@[j]);
    assert(t.live()[k] == t.slots@[k]);
}

/// The open descriptors are the real ones of the places that have one, in the
/// order of the places.
pub proof fn law_which_descriptors_are_open(m: MapSlot, s: Seq<MapSlot>)
    ensures
        open_fds(seq![m] + s) == (if m.real_fd >= 0 {
            seq![m.real_fd]
        } else {
            Seq::empty()
        }) + open_fds(s),
        open_fds(Seq::empty()) == Seq::<i32>::empty(),
    decreases s.len(),
{
    let t = seq![m] + s;
    if s.len() == 0 {
        reveal_with_fuel(open_fds, 2);
        assert(t.drop_last() =~= Seq::<MapSlot>::empty());
    } else {
        law_which_descriptors_are_open(m, s.drop_last());
        assert(t.drop_last() =~= seq![m] + s.drop_last());
        assert(t.last() == s.last());
        assert(open_fds(t) =~= (if m.real_fd >= 0 {
            seq![m.real_fd]
        } else {
            Seq::empty()
        }) + open_fds(s));
    }
}

/// Closing sets every real descriptor of a place in use to -1, and changes
/// nothing else.
pub proof fn law_what_closing_changes(v: MapsView, k: int)
    requires
        v.wf(),
        0 <= k < v.slots.len(),
    ensures
        v.closed().num_maps == v.num_maps,
        v.closed().slots.len() == v.slots.len(),
        v.closed().slots[k] == (if k < v.num_maps {
            MapSlot { real_fd: -1i32, ..v.slots[k] }
        } else {
            v.slots[k]
        }),
{
    if k < v.num_maps {
        assert(v.live()[k] == v.slots[k]);
    } else {
        assert(v.slots.skip(v.num_maps)[k - v.num_maps] == v.slots[k]);
    }
}

/// A table that is well-formed has eight places, in whose used ones there are
/// maps with descriptors that differ from one another.
pub proof fn law_what_a_table_is(t: MapTable, j: int, k: int)
    requires
        t.wf(),
        0 <= j < k < t.num_maps,
    ensures
        t.slots@.len() == 8,
        t.num_maps <= 8,
        t.slots@[j].handle != 0,
        t.slots@[j].fake_fd != t.slots@[k].fake_fd,
        t.slots@[j].real_fd >= -1,
        t.live() == t.slots@.take(t.num_maps as int),
{
}

/// A place that was never used has no map and no real descriptor.
pub proof fn law_an_unused_place()
    ensures
        unused_map().handle == 0,
        unused_map().fake_fd == 0,
        unused_map().agg_kind == 0,
        unused_map().real_fd == -1,
{
}

} // verus!
