//! The table of probe slots and the issue of slot leases.
//!
//! The table is allocated full when the module loads and never changes its
//! length, so that a probe that fires always finds the same table.

use vstd::prelude::*;

use crate::errno::ENOSPC;
use crate::load_prog_parse::TARGET_NAME_LEN;
use crate::wire::MAX_PROBE_SLOTS;

verus! {

/// Slots that the table is allocated with.
pub const INITIAL_SLOT_HINT: usize = MAX_PROBE_SLOTS;

/// Cap on concurrently attached probe slots.
pub const MAX_KPROBES: usize = MAX_PROBE_SLOTS;

/// A resolved file path, as a pair of kernel references; null when empty.
#[derive(Clone, Copy, PartialEq, Eq, Structural, Debug)]
pub struct PathRef {
    pub mnt: u64,
    pub dentry: u64,
}

/// The kernel objects that one slot holds.
#[derive(Clone, Copy, PartialEq, Eq, Structural, Debug)]
pub struct SlotLinks {
    /// Registration of a user-space probe.
    pub uprobe_handle: u64,
    /// Pinned inode of the probed file.
    pub uprobe_inode: u64,
    /// Path of the probed file, when it was resolved by path.
    pub uprobe_path: PathRef,
    /// Whether the slot's function-boundary link is linked to a trampoline.
    pub fbt_linked: bool,
    /// The trampoline that the link names.
    pub fbt_trampoline: u64,
    /// The tracepoint that the slot's raw-tracepoint link names.
    pub rawtp_btp: u64,
    /// Whether that link is registered.
    pub rawtp_registered: bool,
    /// Timer event of a profile probe.
    pub perf_event: u64,
}

/// The state of one slot.
pub struct BifrostSlot {
    /// Discriminant of the probe family.
    pub probe_type: u8,
    /// NUL-padded target name.
    pub target_name: Vec<u8>,
    /// Lease that was issued when the slot was attached; `0` means none.
    pub lease: u64,
    /// The compiled program.
    pub prog: u64,
    pub links: SlotLinks,
}

/// No kernel object held.
pub open spec fn no_links() -> SlotLinks {
    SlotLinks {
        uprobe_handle: 0,
        uprobe_inode: 0,
        uprobe_path: PathRef { mnt: 0, dentry: 0 },
        fbt_linked: false,
        fbt_trampoline: 0,
        rawtp_btp: 0,
        rawtp_registered: false,
        perf_event: 0,
    }
}

/// No kernel object held.
pub fn empty_links() -> (r: SlotLinks)
    ensures
        r == no_links(),
{
    SlotLinks {
        uprobe_handle: 0,
        uprobe_inode: 0,
        uprobe_path: PathRef { mnt: 0, dentry: 0 },
        fbt_linked: false,
        fbt_trampoline: 0,
        rawtp_btp: 0,
        rawtp_registered: false,
        perf_event: 0,
    }
}

impl BifrostSlot {
    /// A slot that was never registered; `none` is the discriminant that says so.
    pub fn new(none: u8) -> (r: Self)
        ensures
            r.probe_type == none,
            r.target_name@ == Seq::new(TARGET_NAME_LEN as nat, |i: int| 0u8),
            r.lease == 0,
            r.prog == 0,
            r.links == no_links(),
    {
        let mut target_name: Vec<u8> = Vec::new();
        let mut i: usize = 0;
        while i < TARGET_NAME_LEN
            invariant
                i <= TARGET_NAME_LEN,
                target_name@ == Seq::new(i as nat, |i: int| 0u8),
            decreases TARGET_NAME_LEN - i,
        {
            target_name.push(0);
            i += 1;
            assert(target_name@ =~= Seq::new(i as nat, |i: int| 0u8));
        }
        BifrostSlot { probe_type: none, target_name, lease: 0, prog: 0, links: empty_links() }
    }
}

/// The lease that follows `lease`; when the counter wraps it passes over 0,
/// which stands for no lease.
pub open spec fn lease_after(lease: u64) -> u64 {
    if lease == u64::MAX {
        1
    } else {
        (lease + 1) as u64
    }
}

/// The slot table, the number of slots taken so far, and the next lease.
pub struct SlotTable {
    pub slots: Vec<BifrostSlot>,
    pub num_kprobes: usize,
    pub next_lease: u64,
}

impl SlotTable {
    /// The table has its full length, the slots taken lie within it, and the
    /// next lease is one.
    pub open spec fn wf(&self) -> bool {
        &&& self.slots@.len() == MAX_PROBE_SLOTS
        &&& self.num_kprobes <= MAX_PROBE_SLOTS
        &&& self.next_lease != 0
    }

    /// Allocate the full table.
    pub fn bifrost_slots_init(none: u8) -> (r: Self)
        ensures
            r.wf(),
            r.num_kprobes == 0,
            r.next_lease == 1,
            forall|s: int|
                0 <= s < MAX_PROBE_SLOTS ==> {
                    &&& (#[trigger] r.slots@[s]).probe_type == none
                    &&& r.slots@[s].target_name@ == Seq::new(TARGET_NAME_LEN as nat, |i: int| 0u8)
                    &&& r.slots@[s].lease == 0
                    &&& r.slots@[s].prog == 0
                    &&& r.slots@[s].links == no_links()
                },
    {
        let mut slots: Vec<BifrostSlot> = Vec::new();
        while slots.len() < INITIAL_SLOT_HINT
            invariant
                slots@.len() <= INITIAL_SLOT_HINT,
                forall|s: int|
                    0 <= s < slots@.len() ==> {
                        &&& (#[trigger] slots@[s]).probe_type == none
                        &&& slots@[s].target_name@ == Seq::new(
                            TARGET_NAME_LEN as nat,
                            |i: int| 0u8,
                        )
                        &&& slots@[s].lease == 0
                        &&& slots@[s].prog == 0
                        &&& slots@[s].links == no_links()
                    },
            decreases INITIAL_SLOT_HINT - slots@.len(),
        {
            slots.push(BifrostSlot::new(none));
        }
        SlotTable { slots, num_kprobes: 0, next_lease: 1 }
    }

    /// Check that the table has at least `n` slots.
    pub fn slots_ensure(&self, n: usize) -> (r: Result<(), i32>)
        ensures
            match r {
                Ok(()) => n <= self.slots@.len(),
                Err(e) => n > self.slots@.len() && e == -ENOSPC,
            },
    {
        if n > self.slots.len() {
            return Err(-ENOSPC);
        }
        Ok(())
    }

    /// Issue the next lease, which is not 0.
    pub fn slot_lease_new(&mut self) -> (lease: u64)
        requires
            old(self).wf(),
        ensures
            final(self).wf(),
            lease == old(self).next_lease,
            lease != 0,
            final(self).next_lease == lease_after(old(self).next_lease),
            final(self).slots == old(self).slots,
            final(self).num_kprobes == old(self).num_kprobes,
    {
        let lease: u64 = self.next_lease;
        self.next_lease = if lease == u64::MAX {
            1
        } else {
            lease + 1
        };
        lease
    }

    /// The program to run when slot `slot` fires, if there is one.
    pub fn run_prog_slot(&self, slot: usize) -> (r: Option<u64>)
        ensures
            match r {
                Some(prog) => slot < self.slots@.len() && prog == self.slots@[slot as int].prog
                    && prog != 0,
                None => slot >= self.slots@.len() || self.slots@[slot as int].prog == 0,
            },
    {
        if slot >= self.slots.len() {
            return None;
        }
        let prog: u64 = self.slots[slot].prog;
        if prog == 0 {
            None
        } else {
            Some(prog)
        }
    }

    /// Take the program out of slot `slot`.  The result is what has to be freed.
    pub fn free_slot_prog(&mut self, slot: usize) -> (r: Option<u64>)
        ensures
            match r {
                Some(prog) => slot < old(self).slots@.len() && prog == old(
                    self,
                ).slots@[slot as int].prog && prog != 0,
                None => slot >= old(self).slots@.len() || old(self).slots@[slot as int].prog == 0,
            },
            final(self).num_kprobes == old(self).num_kprobes,
            final(self).next_lease == old(self).next_lease,
            final(self).slots@ == (if slot < old(self).slots@.len() {
                old(self).slots@.update(
                    slot as int,
                    (BifrostSlot { prog: 0, ..old(self).slots@[slot as int] }),
                )
            } else {
                old(self).slots@
            }),
    {
        if slot >= self.slots.len() {
            return None;
        }
        let prog: u64 = self.slots[slot].prog;
        self.slots[slot].prog = 0;
        if prog == 0 {
            None
        } else {
            Some(prog)
        }
    }
}

/// The lease that is issued `k` leases after `first`.
pub open spec fn nth_lease(first: u64, k: nat) -> u64
    decreases k,
{
    if k == 0 {
        first
    } else {
        lease_after(nth_lease(first, (k - 1) as nat))
    }
}

proof fn lemma_nth_lease(first: u64, k: nat)
    requires
        first + k <= u64::MAX,
    ensures
        nth_lease(first, k) == first + k,
    decreases k,
{
    if k > 0 {
        lemma_nth_lease(first, (k - 1) as nat);
    }
}

/// No lease is 0, however many are issued.
pub proof fn law_leases_are_never_zero(first: u64, k: nat)
    requires
        first != 0,
    ensures
        nth_lease(first, k) != 0,
    decreases k,
{
    if k > 0 {
        law_leases_are_never_zero(first, (k - 1) as nat);
    }
}

/// Leases are fresh: until the counter wraps, each is larger than all that were
/// issued before it.
pub proof fn law_leases_are_fresh(first: u64, earlier: nat, later: nat)
    requires
        earlier < later,
        first + later <= u64::MAX,
    ensures
        nth_lease(first, earlier) < nth_lease(first, later),
{
    lemma_nth_lease(first, earlier);
    lemma_nth_lease(first, later);
}

/// Leases are issued one after the other; after the last comes 1 again.
pub proof fn law_leases_are_consecutive(lease: u64)
    ensures
        lease < u64::MAX ==> lease_after(lease) == lease + 1,
        lease == u64::MAX ==> lease_after(lease) == 1,
{
}

/// A slot without links holds no kernel object at all.
pub proof fn law_no_links_are_none()
    ensures
        no_links().uprobe_handle == 0 && no_links().uprobe_inode == 0,
        no_links().uprobe_path.mnt == 0 && no_links().uprobe_path.dentry == 0,
        !no_links().fbt_linked && no_links().fbt_trampoline == 0,
        !no_links().rawtp_registered && no_links().rawtp_btp == 0,
        no_links().perf_event == 0,
{
}

} // verus!
