//! Bringing the device up.
//!
//! The driver serves one device at a time.  Bringing it up alternates between
//! kernel calls and decisions, as attaching does: the state names the call that
//! is due, and `next` takes its answer.

use vstd::prelude::*;

use crate::errno::{EBUSY, ENOMEM};
use crate::shmem_layout::SHMEM_REGION_SIZE;

verus! {

/// Size of the control and of the event buffer.
pub const QUEUE_BUF_SIZE: usize = 65536;

/// Size of the doorbell buffer, whose content means nothing.
pub const DOORBELL_BUF_SIZE: usize = 16;

/// A kernel call of bringing the device up.
#[derive(Clone, Copy, PartialEq, Eq, Structural, Debug)]
pub enum ProbeReq {
    /// Claim the driver, unless a device has claimed it already.
    Claim,
    /// Allocate the device's state.
    AllocGuest,
    /// Set up the control, event and doorbell queues.
    FindVqs,
    AllocCtrl,
    AllocEvent,
    AllocDoorbell,
    /// Ask for the shared memory region that the device offers.
    ShmRegion,
    /// Map that region.
    MapShm,
    /// Allocate the array of page frame numbers.
    AllocPfns,
    /// Allocate the shared memory and fill in its page frame numbers.
    AllocShmem,
    FreePfns { pfns: u64 },
    FreeCtrl { buf: u64 },
    FreeEvent { buf: u64 },
    FreeDoorbell { buf: u64 },
    DelVqs,
    FreeGuest { guest: u64 },
    /// Give up the claim.
    ReleaseDevice,
    /// The device is up if `status` is 0, and refused otherwise.
    Done { status: i32 },
}

/// The answer to a kernel call.
#[derive(Clone, Copy, PartialEq, Eq, Structural, Debug)]
pub enum ProbeAnswer {
    /// Whether the claim was free.
    Claimed { ok: bool },
    /// The pointer that the call returned.
    Ptr { ptr: u64 },
    /// The status that the call returned.
    Status { rc: i32 },
    /// Whether the device offers a region, and its length.
    Region { found: bool, len: u64 },
    /// The allocated memory, or 0, and the number of its pages.
    Shmem { va: u64, n_pages: u64 },
    /// The call returned nothing.
    Nothing,
}

/// The state of a device that is being brought up; 0 stands for what is absent.
#[derive(Clone, Copy, PartialEq, Eq, Structural, Debug)]
pub struct ProbeState {
    /// Whether this device holds the claim.
    pub live: bool,
    pub guest: u64,
    /// Whether the queues are set up.
    pub vqs: bool,
    pub ctrl_buf: u64,
    pub event_buf: u64,
    pub doorbell_buf: u64,
    pub shmem_pfns: u64,
    pub shmem_va: u64,
    pub shmem_n_pages: u64,
    pub shmem_from_virtio: bool,
    /// Whether all is decided and at most giving back is left to do.
    pub ending: bool,
    pub status: i32,
    /// The kernel call that is due.
    pub at: ProbeReq,
}

/// Whether `a` is an answer to the call `r`.
pub open spec fn probe_answers(r: ProbeReq, a: ProbeAnswer) -> bool {
    match r {
        ProbeReq::Claim => a is Claimed,
        ProbeReq::AllocGuest => a is Ptr,
        ProbeReq::FindVqs => a is Status,
        ProbeReq::AllocCtrl => a is Ptr,
        ProbeReq::AllocEvent => a is Ptr,
        ProbeReq::AllocDoorbell => a is Ptr,
        ProbeReq::ShmRegion => a is Region,
        ProbeReq::MapShm => a is Ptr,
        ProbeReq::AllocPfns => a is Ptr,
        ProbeReq::AllocShmem => a is Shmem,
        ProbeReq::Done { .. } => false,
        _ => a is Nothing,
    }
}

/// A device that has not been looked at.
pub open spec fn probe_start() -> ProbeState {
    ProbeState {
        live: false,
        guest: 0,
        vqs: false,
        ctrl_buf: 0,
        event_buf: 0,
        doorbell_buf: 0,
        shmem_pfns: 0,
        shmem_va: 0,
        shmem_n_pages: 0,
        shmem_from_virtio: false,
        ending: false,
        status: 0,
        at: ProbeReq::Claim,
    }
}

/// End.  A refused device gives back all that it has, the claim last.
pub open spec fn probe_end(s: ProbeState) -> ProbeState {
    let at = if s.status == 0 {
        ProbeReq::Done { status: 0 }
    } else if s.shmem_pfns != 0 {
        ProbeReq::FreePfns { pfns: s.shmem_pfns }
    } else if s.ctrl_buf != 0 {
        ProbeReq::FreeCtrl { buf: s.ctrl_buf }
    } else if s.event_buf != 0 {
        ProbeReq::FreeEvent { buf: s.event_buf }
    } else if s.doorbell_buf != 0 {
        ProbeReq::FreeDoorbell { buf: s.doorbell_buf }
    } else if s.vqs {
        ProbeReq::DelVqs
    } else if s.guest != 0 {
        ProbeReq::FreeGuest { guest: s.guest }
    } else if s.live {
        ProbeReq::ReleaseDevice
    } else {
        ProbeReq::Done { status: s.status }
    };
    ProbeState { at, ending: true, ..s }
}

/// Refuse the device.
pub open spec fn refuse(s: ProbeState, status: i32) -> ProbeState {
    probe_end(ProbeState { status, ..s })
}

/// The state after the pointer `ptr` was returned.
pub open spec fn probe_after_ptr(s: ProbeState, ptr: u64) -> ProbeState {
    match s.at {
        ProbeReq::AllocGuest => if ptr == 0 {
            refuse(s, (-ENOMEM) as i32)
        } else {
            ProbeState { guest: ptr, at: ProbeReq::FindVqs, ..s }
        },
        ProbeReq::AllocCtrl => ProbeState { ctrl_buf: ptr, at: ProbeReq::AllocEvent, ..s },
        ProbeReq::AllocEvent => ProbeState { event_buf: ptr, at: ProbeReq::AllocDoorbell, ..s },
        ProbeReq::AllocDoorbell => {
            let t = ProbeState { doorbell_buf: ptr, ..s };
            if t.ctrl_buf == 0 || t.event_buf == 0 || ptr == 0 {
                refuse(t, (-ENOMEM) as i32)
            } else {
                ProbeState { at: ProbeReq::ShmRegion, ..t }
            }
        },
        ProbeReq::MapShm => if ptr == 0 {
            ProbeState { at: ProbeReq::AllocPfns, ..s }
        } else {
            probe_end(ProbeState { shmem_va: ptr, shmem_from_virtio: true, ..s })
        },
        ProbeReq::AllocPfns => if ptr == 0 {
            refuse(s, (-ENOMEM) as i32)
        } else {
            ProbeState { shmem_pfns: ptr, at: ProbeReq::AllocShmem, ..s }
        },
        _ => s,
    }
}

/// The state after a call that gives something back.
pub open spec fn probe_after_nothing(s: ProbeState) -> ProbeState {
    match s.at {
        ProbeReq::FreePfns { .. } => probe_end(ProbeState { shmem_pfns: 0, ..s }),
        ProbeReq::FreeCtrl { .. } => probe_end(ProbeState { ctrl_buf: 0, ..s }),
        ProbeReq::FreeEvent { .. } => probe_end(ProbeState { event_buf: 0, ..s }),
        ProbeReq::FreeDoorbell { .. } => probe_end(ProbeState { doorbell_buf: 0, ..s }),
        ProbeReq::DelVqs => probe_end(ProbeState { vqs: false, ..s }),
        ProbeReq::FreeGuest { .. } => probe_end(ProbeState { guest: 0, ..s }),
        ProbeReq::ReleaseDevice => probe_end(ProbeState { live: false, ..s }),
        _ => s,
    }
}

/// The state after the call that was due gave the answer `a`.
pub open spec fn probe_after(s: ProbeState, a: ProbeAnswer) -> ProbeState {
    match a {
        ProbeAnswer::Claimed { ok } => if ok {
            ProbeState { live: true, at: ProbeReq::AllocGuest, ..s }
        } else {
            refuse(s, (-EBUSY) as i32)
        },
        ProbeAnswer::Ptr { ptr } => probe_after_ptr(s, ptr),
        ProbeAnswer::Status { rc } => if rc != 0 {
            refuse(s, rc)
        } else {
            ProbeState { vqs: true, at: ProbeReq::AllocCtrl, ..s }
        },
        ProbeAnswer::Region { found, len } => if found && len >= SHMEM_REGION_SIZE {
            ProbeState { at: ProbeReq::MapShm, ..s }
        } else {
            ProbeState { at: ProbeReq::AllocPfns, ..s }
        },
        ProbeAnswer::Shmem { va, n_pages } => if va == 0 {
            refuse(s, (-ENOMEM) as i32)
        } else {
            probe_end(ProbeState { shmem_va: va, shmem_n_pages: n_pages, ..s })
        },
        ProbeAnswer::Nothing => probe_after_nothing(s),
    }
}

impl ProbeState {
    /// The buffers are allocated.
    pub open spec fn buffered(&self) -> bool {
        &&& self.guest != 0 && self.vqs
        &&& self.ctrl_buf != 0 && self.event_buf != 0 && self.doorbell_buf != 0
    }

    /// What is known of a device at each call.
    pub open spec fn wf(&self) -> bool {
        let s = *self;
        &&& s.ending ==> s == probe_end(s)
        &&& s.ending && s.status == 0 ==> s.up()
        &&& !(s.ending && s.status == 0) ==> s.shmem_va == 0 && !s.shmem_from_virtio
            && s.shmem_n_pages == 0
        &&& !s.ending ==> {
            let z = probe_start();
            &&& s.status == 0
            &&& match s.at {
                ProbeReq::Claim => s == z,
                ProbeReq::AllocGuest => s == (ProbeState { live: true, at: s.at, ..z }),
                ProbeReq::FindVqs => {
                    s.guest != 0 && s == (ProbeState { live: true, guest: s.guest, at: s.at, ..z })
                },
                ProbeReq::AllocCtrl => {
                    &&& s.guest != 0
                    &&& s == (ProbeState { live: true, guest: s.guest, vqs: true, at: s.at, ..z })
                },
                ProbeReq::AllocEvent => {
                    &&& s.guest != 0
                    &&& s == (ProbeState {
                        live: true,
                        guest: s.guest,
                        vqs: true,
                        ctrl_buf: s.ctrl_buf,
                        at: s.at,
                        ..z
                    })
                },
                ProbeReq::AllocDoorbell => {
                    &&& s.guest != 0
                    &&& s == (ProbeState {
                        live: true,
                        guest: s.guest,
                        vqs: true,
                        ctrl_buf: s.ctrl_buf,
                        event_buf: s.event_buf,
                        at: s.at,
                        ..z
                    })
                },
                ProbeReq::ShmRegion => s.live && s.buffered() && s.shmem_pfns == 0,
                ProbeReq::MapShm => s.live && s.buffered() && s.shmem_pfns == 0,
                ProbeReq::AllocPfns => s.live && s.buffered() && s.shmem_pfns == 0,
                ProbeReq::AllocShmem => s.live && s.buffered() && s.shmem_pfns != 0,
                _ => false,
            }
        }
    }

    /// The device has all that it needs; its memory is either the device's
    /// region or allocated pages with their frame numbers.
    pub open spec fn up(&self) -> bool {
        &&& self.live
        &&& self.buffered()
        &&& self.shmem_va != 0
        &&& self.shmem_from_virtio <==> self.shmem_pfns == 0
    }

    /// A device that has not been looked at.
    pub fn new() -> (r: Self)
        ensures
            r == probe_start(),
            r.wf(),
    {
        ProbeState {
            live: false,
            guest: 0,
            vqs: false,
            ctrl_buf: 0,
            event_buf: 0,
            doorbell_buf: 0,
            shmem_pfns: 0,
            shmem_va: 0,
            shmem_n_pages: 0,
            shmem_from_virtio: false,
            ending: false,
            status: 0,
            at: ProbeReq::Claim,
        }
    }

    fn ended(self) -> (r: Self)
        ensures
            r == probe_end(self),
    {
        let at: ProbeReq = if self.status == 0 {
            ProbeReq::Done { status: 0 }
        } else if self.shmem_pfns != 0 {
            ProbeReq::FreePfns { pfns: self.shmem_pfns }
        } else if self.ctrl_buf != 0 {
            ProbeReq::FreeCtrl { buf: self.ctrl_buf }
        } else if self.event_buf != 0 {
            ProbeReq::FreeEvent { buf: self.event_buf }
        } else if self.doorbell_buf != 0 {
            ProbeReq::FreeDoorbell { buf: self.doorbell_buf }
        } else if self.vqs {
            ProbeReq::DelVqs
        } else if self.guest != 0 {
            ProbeReq::FreeGuest { guest: self.guest }
        } else if self.live {
            ProbeReq::ReleaseDevice
        } else {
            ProbeReq::Done { status: self.status }
        };
        ProbeState { at, ending: true, ..self }
    }

    fn refused(self, status: i32) -> (r: Self)
        ensures
            r == refuse(self, status),
    {
        ProbeState { status, ..self }.ended()
    }

    fn ptr(self, ptr: u64) -> (r: Self)
        ensures
            r == probe_after_ptr(self, ptr),
    {
        match self.at {
            ProbeReq::AllocGuest => {
                if ptr == 0 {
                    self.refused(-ENOMEM)
                } else {
                    ProbeState { guest: ptr, at: ProbeReq::FindVqs, ..self }
                }
            },
            ProbeReq::AllocCtrl => ProbeState { ctrl_buf: ptr, at: ProbeReq::AllocEvent, ..self },
            ProbeReq::AllocEvent => ProbeState {
                event_buf: ptr,
                at: ProbeReq::AllocDoorbell,
                ..self
            },
            ProbeReq::AllocDoorbell => {
                let t = ProbeState { doorbell_buf: ptr, ..self };
                if t.ctrl_buf == 0 || t.event_buf == 0 || ptr == 0 {
                    t.refused(-ENOMEM)
                } else {
                    ProbeState { at: ProbeReq::ShmRegion, ..t }
                }
            },
            ProbeReq::MapShm => {
                if ptr == 0 {
                    ProbeState { at: ProbeReq::AllocPfns, ..self }
                } else {
                    ProbeState { shmem_va: ptr, shmem_from_virtio: true, ..self }.ended()
                }
            },
            ProbeReq::AllocPfns => {
                if ptr == 0 {
                    self.refused(-ENOMEM)
                } else {
                    ProbeState { shmem_pfns: ptr, at: ProbeReq::AllocShmem, ..self }
                }
            },
            _ => self,
        }
    }

    fn nothing(self) -> (r: Self)
        ensures
            r == probe_after_nothing(self),
    {
        match self.at {
            ProbeReq::FreePfns { .. } => ProbeState { shmem_pfns: 0, ..self }.ended(),
            ProbeReq::FreeCtrl { .. } => ProbeState { ctrl_buf: 0, ..self }.ended(),
            ProbeReq::FreeEvent { .. } => ProbeState { event_buf: 0, ..self }.ended(),
            ProbeReq::FreeDoorbell { .. } => ProbeState { doorbell_buf: 0, ..self }.ended(),
            ProbeReq::DelVqs => ProbeState { vqs: false, ..self }.ended(),
            ProbeReq::FreeGuest { .. } => ProbeState { guest: 0, ..self }.ended(),
            ProbeReq::ReleaseDevice => ProbeState { live: false, ..self }.ended(),
            _ => self,
        }
    }

    /// Take the answer to the call that was due.
    pub fn next(self, a: ProbeAnswer) -> (r: Self)
        requires
            self.wf(),
            probe_answers(self.at, a),
        ensures
            r == probe_after(self, a),
            r.wf(),
    {
        match a {
            ProbeAnswer::Claimed { ok } => {
                if ok {
                    ProbeState { live: true, at: ProbeReq::AllocGuest, ..self }
                } else {
                    self.refused(-EBUSY)
                }
            },
            ProbeAnswer::Ptr { ptr } => self.ptr(ptr),
            ProbeAnswer::Status { rc } => {
                if rc != 0 {
                    self.refused(rc)
                } else {
                    ProbeState { vqs: true, at: ProbeReq::AllocCtrl, ..self }
                }
            },
            ProbeAnswer::Region { found, len } => {
                if found && len >= SHMEM_REGION_SIZE as u64 {
                    ProbeState { at: ProbeReq::MapShm, ..self }
                } else {
                    ProbeState { at: ProbeReq::AllocPfns, ..self }
                }
            },
            ProbeAnswer::Shmem { va, n_pages } => {
                if va == 0 {
                    self.refused(-ENOMEM)
                } else {
                    ProbeState { shmem_va: va, shmem_n_pages: n_pages, ..self }.ended()
                }
            },
            ProbeAnswer::Nothing => self.nothing(),
        }
    }
}

/// Something that a device holds.
pub enum Holding {
    Device,
    Guest { guest: u64 },
    Vqs,
    Ctrl { buf: u64 },
    Event { buf: u64 },
    Doorbell { buf: u64 },
    Pfns { pfns: u64 },
    Shmem { va: u64 },
}

/// What a device holds.
pub open spec fn holdings(s: ProbeState) -> Set<Holding> {
    Set::new(
        |h: Holding|
            match h {
                Holding::Device => s.live,
                Holding::Guest { guest } => guest != 0 && guest == s.guest,
                Holding::Vqs => s.vqs,
                Holding::Ctrl { buf } => buf != 0 && buf == s.ctrl_buf,
                Holding::Event { buf } => buf != 0 && buf == s.event_buf,
                Holding::Doorbell { buf } => buf != 0 && buf == s.doorbell_buf,
                Holding::Pfns { pfns } => pfns != 0 && pfns == s.shmem_pfns,
                Holding::Shmem { va } => va != 0 && va == s.shmem_va,
            },
    )
}

/// What holds `h` if `ptr` is not null, and nothing otherwise.
pub open spec fn unless_null(ptr: u64, h: Holding) -> Set<Holding> {
    if ptr != 0 {
        set![h]
    } else {
        Set::empty()
    }
}

/// What the answer `a` to the call `r` hands out.
pub open spec fn gained(r: ProbeReq, a: ProbeAnswer) -> Set<Holding> {
    match (r, a) {
        (ProbeReq::Claim, ProbeAnswer::Claimed { ok }) => if ok {
            set![Holding::Device]
        } else {
            Set::empty()
        },
        (ProbeReq::AllocGuest, ProbeAnswer::Ptr { ptr }) => unless_null(
            ptr,
            Holding::Guest { guest: ptr },
        ),
        (ProbeReq::FindVqs, ProbeAnswer::Status { rc }) => if rc == 0 {
            set![Holding::Vqs]
        } else {
            Set::empty()
        },
        (ProbeReq::AllocCtrl, ProbeAnswer::Ptr { ptr }) => unless_null(
            ptr,
            Holding::Ctrl { buf: ptr },
        ),
        (ProbeReq::AllocEvent, ProbeAnswer::Ptr { ptr }) => unless_null(
            ptr,
            Holding::Event { buf: ptr },
        ),
        (ProbeReq::AllocDoorbell, ProbeAnswer::Ptr { ptr }) => unless_null(
            ptr,
            Holding::Doorbell { buf: ptr },
        ),
        (ProbeReq::MapShm, ProbeAnswer::Ptr { ptr }) => unless_null(
            ptr,
            Holding::Shmem { va: ptr },
        ),
        (ProbeReq::AllocPfns, ProbeAnswer::Ptr { ptr }) => unless_null(
            ptr,
            Holding::Pfns { pfns: ptr },
        ),
        (ProbeReq::AllocShmem, ProbeAnswer::Shmem { va, .. }) => unless_null(
            va,
            Holding::Shmem { va },
        ),
        _ => Set::empty(),
    }
}

/// What the call `r` gives back.
pub open spec fn returned(r: ProbeReq) -> Set<Holding> {
    match r {
        ProbeReq::FreePfns { pfns } => set![Holding::Pfns { pfns }],
        ProbeReq::FreeCtrl { buf } => set![Holding::Ctrl { buf }],
        ProbeReq::FreeEvent { buf } => set![Holding::Event { buf }],
        ProbeReq::FreeDoorbell { buf } => set![Holding::Doorbell { buf }],
        ProbeReq::DelVqs => set![Holding::Vqs],
        ProbeReq::FreeGuest { guest } => set![Holding::Guest { guest }],
        ProbeReq::ReleaseDevice => set![Holding::Device],
        _ => Set::empty(),
    }
}

/// Nothing that the device holds is lost, and nothing is given back that it
/// does not hold.
pub proof fn law_holdings_are_conserved(s: ProbeState, a: ProbeAnswer)
    requires
        s.wf(),
        probe_answers(s.at, a),
    ensures
        probe_after(s, a).wf(),
        returned(s.at).subset_of(holdings(s)),
        holdings(probe_after(s, a)) == holdings(s).difference(returned(s.at)).union(
            gained(s.at, a),
        ),
{
    let t = probe_after(s, a);
    let expected = holdings(s).difference(returned(s.at)).union(gained(s.at, a));
    assert forall|h: Holding| holdings(t).contains(h) == expected.contains(h) by {
        match h {
            Holding::Device => {},
            Holding::Guest { .. } => {},
            Holding::Vqs => {},
            Holding::Ctrl { .. } => {},
            Holding::Event { .. } => {},
            Holding::Doorbell { .. } => {},
            Holding::Pfns { .. } => {},
            Holding::Shmem { .. } => {},
        }
    }
    assert(holdings(t) =~= expected);
}

/// A refused device holds nothing, the claim included, so that another device
/// can claim the driver; one that is up has all that it needs.
pub proof fn law_a_refused_device_holds_nothing(s: ProbeState)
    requires
        s.wf(),
        s.at is Done,
    ensures
        s.status != 0 ==> holdings(s) == Set::<Holding>::empty(),
        s.status == 0 ==> s.up(),
{
    if s.status != 0 {
        assert(holdings(s) =~= Set::<Holding>::empty());
    }
}

/// While one device holds the claim, any other is refused with `-EBUSY` at
/// once, and the claim is left alone.
pub proof fn law_second_device_is_refused()
    ensures
        probe_after(probe_start(), ProbeAnswer::Claimed { ok: false }).at == (ProbeReq::Done {
            status: (-EBUSY) as i32,
        }),
        holdings(probe_after(probe_start(), ProbeAnswer::Claimed { ok: false })) == Set::<
            Holding,
        >::empty(),
{
    let s = probe_after(probe_start(), ProbeAnswer::Claimed { ok: false });
    assert(holdings(s) =~= Set::<Holding>::empty());
}

/// An upper bound on the calls that are left.
pub open spec fn probe_calls_left(s: ProbeState) -> int {
    if s.ending {
        if s.status == 0 {
            0
        } else {
            (if s.shmem_pfns != 0 {
                1int
            } else {
                0
            }) + (if s.ctrl_buf != 0 {
                1int
            } else {
                0
            }) + (if s.event_buf != 0 {
                1int
            } else {
                0
            }) + (if s.doorbell_buf != 0 {
                1int
            } else {
                0
            }) + (if s.vqs {
                1int
            } else {
                0
            }) + (if s.guest != 0 {
                1int
            } else {
                0
            }) + (if s.live {
                1int
            } else {
                0
            })
        }
    } else {
        match s.at {
            ProbeReq::Claim => 17,
            ProbeReq::AllocGuest => 16,
            ProbeReq::FindVqs => 15,
            ProbeReq::AllocCtrl => 14,
            ProbeReq::AllocEvent => 13,
            ProbeReq::AllocDoorbell => 12,
            ProbeReq::ShmRegion => 11,
            ProbeReq::MapShm => 10,
            ProbeReq::AllocPfns => 9,
            _ => 8,
        }
    }
}

/// Bringing a device up, or refusing it, takes at most 17 calls.
pub proof fn law_every_probe_ends(s: ProbeState, a: ProbeAnswer)
    requires
        s.wf(),
        probe_answers(s.at, a),
    ensures
        0 <= probe_calls_left(probe_after(s, a)) < probe_calls_left(s) <= 17,
        probe_calls_left(probe_after(s, a)) == 0 <==> probe_after(s, a).at is Done,
{
}

/// The device goes on with the call `r`.
pub open spec fn proceeds(s: ProbeState, r: ProbeReq) -> bool {
    !s.ending && s.at == r
}

/// The device is refused with `status`.
pub open spec fn is_refused(s: ProbeState, status: int) -> bool {
    s.ending && s.status == status && status != 0
}

/// A device is claimed, then its state is allocated and its queues found, then
/// the three buffers are allocated; a driver that has a device is busy, and one
/// buffer that is missing is out of memory.
pub proof fn law_how_a_device_comes_up(s: ProbeState, ok: bool, ptr: u64, rc: i32)
    requires
        s.wf(),
        !s.ending,
    ensures
        s.at is Claim ==> {
            let t = probe_after(s, ProbeAnswer::Claimed { ok });
            if ok {
                proceeds(t, ProbeReq::AllocGuest)
            } else {
                is_refused(t, -16)
            }
        },
        s.at is AllocGuest ==> {
            let t = probe_after(s, ProbeAnswer::Ptr { ptr });
            if ptr == 0 {
                is_refused(t, -12)
            } else {
                proceeds(t, ProbeReq::FindVqs) && t.guest == ptr
            }
        },
        s.at is FindVqs ==> {
            let t = probe_after(s, ProbeAnswer::Status { rc });
            if rc != 0 {
                is_refused(t, rc as int)
            } else {
                proceeds(t, ProbeReq::AllocCtrl)
            }
        },
        s.at is AllocCtrl ==> {
            let t = probe_after(s, ProbeAnswer::Ptr { ptr });
            proceeds(t, ProbeReq::AllocEvent) && t.ctrl_buf == ptr
        },
        s.at is AllocEvent ==> {
            let t = probe_after(s, ProbeAnswer::Ptr { ptr });
            proceeds(t, ProbeReq::AllocDoorbell) && t.event_buf == ptr
        },
        s.at is AllocDoorbell ==> {
            let t = probe_after(s, ProbeAnswer::Ptr { ptr });
            if s.ctrl_buf == 0 || s.event_buf == 0 || ptr == 0 {
                is_refused(t, -12)
            } else {
                proceeds(t, ProbeReq::ShmRegion) && t.doorbell_buf == ptr
            }
        },
{
}

/// A region that the device offers is mapped if it has 16 megabytes; otherwise,
/// and if it cannot be mapped, memory is allocated with an array of its frame
/// numbers, and the device is refused without.
pub proof fn law_where_the_memory_comes_from(
    s: ProbeState,
    found: bool,
    len: u64,
    ptr: u64,
    n_pages: u64,
)
    requires
        s.wf(),
        !s.ending,
    ensures
        s.at is ShmRegion ==> {
            let t = probe_after(s, ProbeAnswer::Region { found, len });
            if found && len >= 16777216 {
                proceeds(t, ProbeReq::MapShm)
            } else {
                proceeds(t, ProbeReq::AllocPfns)
            }
        },
        s.at is MapShm ==> {
            let t = probe_after(s, ProbeAnswer::Ptr { ptr });
            if ptr == 0 {
                proceeds(t, ProbeReq::AllocPfns)
            } else {
                t.at == (ProbeReq::Done { status: 0 }) && t.shmem_va == ptr && t.shmem_from_virtio
                    && t.shmem_pfns == 0 && t.shmem_n_pages == 0
            }
        },
        s.at is AllocPfns ==> {
            let t = probe_after(s, ProbeAnswer::Ptr { ptr });
            if ptr == 0 {
                is_refused(t, -12)
            } else {
                proceeds(t, ProbeReq::AllocShmem) && t.shmem_pfns == ptr
            }
        },
        s.at is AllocShmem ==> {
            let t = probe_after(s, ProbeAnswer::Shmem { va: ptr, n_pages });
            if ptr == 0 {
                is_refused(t, -12)
            } else {
                t.at == (ProbeReq::Done { status: 0 }) && t.shmem_va == ptr && !t.shmem_from_virtio
                    && t.shmem_pfns == s.shmem_pfns && t.shmem_n_pages == n_pages
            }
        },
{
}

/// What a device has stays as it is until it is given back, and a refusal keeps
/// its status.
pub proof fn law_what_a_device_keeps(s: ProbeState, a: ProbeAnswer)
    requires
        s.wf(),
        probe_answers(s.at, a),
    ensures
        ({
            let t = probe_after(s, a);
            &&& !(s.at is AllocGuest) && !(s.at is FreeGuest) ==> t.guest == s.guest
            &&& !(s.at is AllocCtrl) && !(s.at is FreeCtrl) ==> t.ctrl_buf == s.ctrl_buf
            &&& !(s.at is AllocEvent) && !(s.at is FreeEvent) ==> t.event_buf == s.event_buf
            &&& !(s.at is AllocDoorbell) && !(s.at is FreeDoorbell) ==> t.doorbell_buf
                == s.doorbell_buf
            &&& !(s.at is AllocPfns) && !(s.at is FreePfns) ==> t.shmem_pfns == s.shmem_pfns
            &&& s.ending ==> t.ending && t.status == s.status
        }),
{
}

/// A refused device gives back in this order: the frame numbers, the three
/// buffers, the queues, its state, the claim.
pub proof fn law_the_order_of_a_refusal(s: ProbeState)
    requires
        s.wf(),
        s.ending,
        s.status != 0,
    ensures
        s.at is FreePfns <==> s.shmem_pfns != 0,
        s.at is FreeCtrl <==> s.shmem_pfns == 0 && s.ctrl_buf != 0,
        s.at is FreeEvent <==> s.shmem_pfns == 0 && s.ctrl_buf == 0 && s.event_buf != 0,
        s.at is FreeDoorbell ==> s.shmem_pfns == 0 && s.ctrl_buf == 0 && s.event_buf == 0,
        s.at is DelVqs ==> s.doorbell_buf == 0 && s.ctrl_buf == 0 && s.event_buf == 0,
        s.at is FreeGuest ==> !s.vqs && s.ctrl_buf == 0,
        s.at is ReleaseDevice ==> !s.vqs && s.guest == 0 && s.ctrl_buf == 0,
        s.at is Done ==> s.at == (ProbeReq::Done { status: s.status }) && !s.live,
{
}

} // verus!
