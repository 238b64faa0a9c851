//! The state of the driver that survives from one command to the next.

use vstd::prelude::*;

use crate::load_prog_parse::{MAX_MAPS_PER_PROG, TARGET_NAME_LEN};
use crate::maps::{unused_map, MapSlot, MapTable};
use crate::slots::{no_links, SlotTable};
use crate::wire::MAX_PROBE_SLOTS;

verus! {

/// The driver's state.
pub struct BifrostGuest {
    pub maps: MapTable,
    pub slots: SlotTable,
    /// Whether any probe is attached; teardown cleans slots only then.
    pub kprobe_attached: bool,
    /// The program in the first slot.
    pub prog: u64,
}

impl BifrostGuest {
    /// The tables are well-formed.
    pub open spec fn wf(&self) -> bool {
        self.maps.wf() && self.slots.wf()
    }

    /// The state after module load; `none` is the discriminant of an unregistered slot.
    pub fn new(none: u8) -> (r: Self)
        ensures
            r.wf(),
            r.maps.num_maps == 0,
            r.maps.slots@ == Seq::new(MAX_MAPS_PER_PROG as nat, |i: int| unused_map()),
            r.slots.num_kprobes == 0,
            r.slots.next_lease == 1,
            forall|s: int|
                0 <= s < MAX_PROBE_SLOTS ==> {
                    &&& (#[trigger] r.slots.slots@[s]).probe_type == none
                    &&& r.slots.slots@[s].target_name@ == Seq::new(
                        TARGET_NAME_LEN as nat,
                        |i: int| 0u8,
                    )
                    &&& r.slots.slots@[s].lease == 0
                    &&& r.slots.slots@[s].prog == 0
                    &&& r.slots.slots@[s].links == no_links()
                },
            !r.kprobe_attached,
            r.prog == 0,
    {
        BifrostGuest {
            maps: MapTable::new(),
            slots: SlotTable::bifrost_slots_init(none),
            kprobe_attached: false,
            prog: 0,
        }
    }

    /// Start over with a device that has just been brought up.  The slot table
    /// belongs to the module and stays.
    pub fn probed(&mut self)
        requires
            old(self).wf(),
        ensures
            final(self).wf(),
            final(self).maps.num_maps == 0,
            final(self).maps.slots@ == old(self).maps.slots@.map_values(
                |m: MapSlot| MapSlot { handle: 0, ..m },
            ),
            final(self).slots == old(self).slots,
            !final(self).kprobe_attached,
            final(self).prog == 0,
    {
        self.maps.reset();
        self.kprobe_attached = false;
        self.prog = 0;
    }
}

} // verus!
