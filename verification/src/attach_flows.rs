//! What each way of attaching does, call by call.
//!
//! An attach that goes on makes the next call; one that fails gives back what it
//! holds and ends with the status; one that succeeds leaves the slot what the
//! probe consists of.

use vstd::prelude::*;

use crate::attach::{
    after, answers, cleaned, cleanup_ops, first, guest_settled, is_uprobe, settled, task_name, AttachAnswer, AttachExt,
    AttachReq, AttachState, CleanupOp, Flow,
};
use crate::errno::is_err_ptr;
use crate::guest::BifrostGuest;
use crate::path_helpers::{basename, law_basename_of_a_path};
use crate::slots::{BifrostSlot, SlotLinks};
use crate::wire::ProbeType;

verus! {

/// The attach goes on with the call `r`.
pub open spec fn goes_on(s: AttachState, r: AttachReq) -> bool {
    !s.ending && s.at == r
}

/// The attach has failed, and will end with `status`.
pub open spec fn has_failed(s: AttachState, status: int) -> bool {
    s.ending && s.status == status && status != 0
}

/// The attach has succeeded.
pub open spec fn has_succeeded(s: AttachState) -> bool {
    s.ending && s.status == 0
}

/// The status that the pointer `ptr` of a failed call carries, or `other` if it
/// is null.
pub open spec fn carried(ptr: u64, other: int) -> int {
    if ptr == 0 {
        other
    } else {
        ptr - 0x1_0000_0000_0000_0000
    }
}

/// The task of a probe by symbol, or of a static probe of a running program, is
/// looked for under the basename that the command carries; only that of a probe
/// at a file offset under the last component of the path.
pub proof fn law_the_name_that_is_looked_for(
    flow: Flow,
    name: Seq<u8>,
    dir: Seq<u8>,
    last: Seq<u8>,
    rest: Seq<u8>,
)
    requires
        dir.len() == 0 || dir.last() == 0x2f,
        forall|i: int| 0 <= i < dir.len() ==> #[trigger] dir[i] != 0,
        forall|i: int| 0 <= i < last.len() ==> #[trigger] last[i] != 0 && last[i] != 0x2f,
        rest.len() > 0 ==> rest[0] == 0,
    ensures
        task_name(flow, name, dir + last + rest) == (if flow == Flow::Uprobe {
            last
        } else {
            name
        }),
{
    law_basename_of_a_path(dir, last, rest);
}

/// A function-boundary program, a tracepoint program and a profile timer begin
/// with their program, which has to be there, the timer with a period that is
/// not zero; what has no family is refused.
pub proof fn law_how_kernel_probes_begin(
    slot: int,
    family: ProbeType,
    prog: u64,
    name: Seq<u8>,
    path: Seq<u8>,
    off: u64,
)
    ensures
        ({
            let s = first(slot, family, prog, name, path, off);
            &&& family == ProbeType::Fentry || family == ProbeType::Fexit ==> {
                &&& prog == 0 ==> has_failed(s, -22)
                &&& prog != 0 ==> goes_on(s, AttachReq::Trampoline { prog })
            }
            &&& family == ProbeType::Tracepoint ==> {
                &&& prog == 0 ==> has_failed(s, -22)
                &&& prog != 0 ==> goes_on(s, AttachReq::GetTracepoint)
            }
            &&& family == ProbeType::ProfileTimer ==> {
                &&& prog == 0 || off == 0 ==> has_failed(s, -22)
                &&& prog != 0 && off != 0 ==> goes_on(s, AttachReq::CreateEvent { period_ns: off })
            }
            &&& family == ProbeType::Unregistered || family == ProbeType::Unknown ==> has_failed(
                s,
                -22,
            )
        }),
{
}

/// A probe at a file offset looks for the task that its path names, or for the
/// path itself if that has no last component; a probe by symbol, and a static
/// probe that names no absolute path, look for the task that they name; a static
/// probe that does opens the file, if the path has at most 256 bytes.
pub proof fn law_how_user_probes_begin(
    slot: int,
    family: ProbeType,
    prog: u64,
    name: Seq<u8>,
    path: Seq<u8>,
    off: u64,
)
    ensures
        ({
            let s = first(slot, family, prog, name, path, off);
            let by_path = name.len() > 0 && name[0] == 0x2f;
            &&& family == ProbeType::Uprobe || family == ProbeType::Uretprobe ==> {
                &&& s.flow == Flow::Uprobe
                &&& basename(path).len() == 0 ==> goes_on(s, AttachReq::ResolvePath)
                &&& basename(path).len() != 0 ==> goes_on(s, AttachReq::FindTask)
            }
            &&& family == ProbeType::UprobeBySym || family == ProbeType::UretprobeBySym ==> {
                &&& s.flow == Flow::UprobeBySym
                &&& name.len() == 0 ==> has_failed(s, -2)
                &&& name.len() != 0 ==> goes_on(s, AttachReq::FindTask)
            }
            &&& family == ProbeType::Usdt && !by_path ==> {
                &&& s.flow == Flow::UsdtByTask
                &&& name.len() == 0 ==> has_failed(s, -2)
                &&& name.len() != 0 ==> goes_on(s, AttachReq::FindTask)
            }
            &&& family == ProbeType::Usdt && by_path ==> {
                &&& s.flow == Flow::UsdtByPath
                &&& name.len() > 256 ==> has_failed(s, -22)
                &&& name.len() <= 256 ==> goes_on(s, AttachReq::OpenFile)
            }
        }),
{
}

/// An attach begins for its slot and program, at the offset that the command
/// gives; it is on return for the three families of returns and no other.
pub proof fn law_what_an_attach_is_for(
    slot: int,
    family: ProbeType,
    prog: u64,
    name: Seq<u8>,
    path: Seq<u8>,
    off: u64,
)
    requires
        0 <= slot <= usize::MAX,
    ensures
        ({
            let s = first(slot, family, prog, name, path, off);
            &&& s.slot == slot
            &&& s.prog == prog
            &&& s.off == off
            &&& s.sema == 0
            &&& s.attempts == 0
            &&& s.ret <==> family == ProbeType::Fexit || family == ProbeType::Uretprobe || family
                == ProbeType::UretprobeBySym
        }),
{
}

/// Whatever the kernel answers, an attach stays with its slot, its way of
/// attaching and its direction; its program until that is freed; its offset
/// unless one is resolved, and the offset of its semaphore unless those of a
/// static probe are.
pub proof fn law_an_attach_stays_with_its_probe(s: AttachState, a: AttachAnswer)
    requires
        s.wf(),
        answers(s.at, a),
    ensures
        after(s, a).slot == s.slot,
        after(s, a).flow == s.flow,
        after(s, a).ret == s.ret,
        !(s.at is FreeProg) ==> after(s, a).prog == s.prog,
        !(a is Offsets) ==> after(s, a).off == s.off,
        !(a is Offsets) || s.flow == Flow::UprobeBySym ==> after(s, a).sema == s.sema,
        !(s.at is Sleep) ==> after(s, a).attempts == s.attempts,
        s.ending ==> after(s, a).status == s.status,
{
}

/// A function-boundary program is linked to the trampoline that the verifier
/// left, for entry or for return, and the slot keeps it.
pub proof fn law_attaching_to_a_function(s: AttachState, ptr: u64, rc: i32)
    requires
        s.wf(),
        !s.ending,
    ensures
        s.at is Trampoline ==> {
            let t = after(s, AttachAnswer::Ptr { ptr });
            &&& ptr == 0 ==> has_failed(t, -22)
            &&& ptr != 0 ==> goes_on(
                t,
                AttachReq::LinkTrampoline {
                    trampoline: ptr,
                    attach_type: if s.ret {
                        25
                    } else {
                        24
                    },
                },
            )
        },
        s.at matches AttachReq::LinkTrampoline { trampoline, .. } ==> {
            let t = after(s, AttachAnswer::Status { rc });
            &&& rc != 0 ==> has_failed(t, rc as int)
            &&& rc == 0 ==> has_succeeded(t) && t.kept.fbt_linked && t.kept.fbt_trampoline
                == trampoline
        },
{
}

/// A tracepoint program is registered with the tracepoint that its target names,
/// and the slot keeps it.
pub proof fn law_attaching_to_a_tracepoint(s: AttachState, ptr: u64, rc: i32)
    requires
        s.wf(),
        !s.ending,
    ensures
        s.at is GetTracepoint ==> {
            let t = after(s, AttachAnswer::Ptr { ptr });
            &&& ptr == 0 ==> has_failed(t, -2)
            &&& ptr != 0 ==> goes_on(t, AttachReq::RegisterTracepoint { btp: ptr })
        },
        s.at matches AttachReq::RegisterTracepoint { btp } ==> {
            let t = after(s, AttachAnswer::Status { rc });
            &&& rc != 0 ==> has_failed(t, rc as int)
            &&& rc == 0 ==> has_succeeded(t) && t.kept.rawtp_registered && t.kept.rawtp_btp == btp
        },
{
}

/// A timer runs the program on the event that was created for it, and the slot
/// keeps the event.  A pointer within 4095 of the end of the address space
/// carries an error.
pub proof fn law_attaching_to_a_timer(s: AttachState, ptr: u64, rc: i32)
    requires
        s.wf(),
        !s.ending,
    ensures
        s.at is CreateEvent ==> {
            let t = after(s, AttachAnswer::Ptr { ptr });
            &&& ptr >= 0x1_0000_0000_0000_0000 - 4095 ==> has_failed(t, carried(ptr, 0))
            &&& ptr < 0x1_0000_0000_0000_0000 - 4095 ==> goes_on(
                t,
                AttachReq::SetEventProg { event: ptr },
            )
        },
        s.at matches AttachReq::SetEventProg { event } ==> {
            let t = after(s, AttachAnswer::Status { rc });
            &&& rc != 0 ==> has_failed(t, rc as int)
            &&& rc == 0 ==> has_succeeded(t) && t.kept.perf_event == event
        },
{
}

/// Of a task that is found the executable is asked for; a probe at a file offset
/// goes on by path without task or executable, and any other fails.  The
/// executable is then resolved by symbol, or by static probe; a probe at a file
/// offset gives back the task first.
pub proof fn law_finding_the_program(s: AttachState, ptr: u64)
    requires
        s.wf(),
        !s.ending,
    ensures
        s.at is FindTask ==> {
            let t = after(s, AttachAnswer::Ptr { ptr });
            &&& ptr != 0 ==> goes_on(t, AttachReq::TaskExe { task: ptr })
            &&& ptr == 0 && s.flow == Flow::Uprobe ==> goes_on(t, AttachReq::ResolvePath)
            &&& ptr == 0 && s.flow != Flow::Uprobe ==> has_failed(t, -2)
        },
        s.at matches AttachReq::TaskExe { task } ==> {
            let t = after(s, AttachAnswer::Ptr { ptr });
            &&& s.flow == Flow::Uprobe ==> goes_on(t, AttachReq::PutTask { task })
            &&& s.flow != Flow::Uprobe && ptr == 0 ==> has_failed(t, -2)
            &&& s.flow == Flow::UprobeBySym && ptr != 0 ==> goes_on(
                t,
                AttachReq::ResolveSymbol { file: ptr },
            )
            &&& s.flow == Flow::UsdtByTask && ptr != 0 ==> goes_on(
                t,
                AttachReq::ResolveUsdt { file: ptr },
            )
        },
        s.at is OpenFile ==> {
            let t = after(s, AttachAnswer::Ptr { ptr });
            &&& ptr == 0 || is_err_ptr(ptr) ==> has_failed(t, carried(ptr, -2))
            &&& ptr != 0 && !is_err_ptr(ptr) ==> goes_on(t, AttachReq::ResolveUsdt { file: ptr })
        },
        s.at is PutTask ==> {
            let t = after(s, AttachAnswer::Nothing);
            &&& s.held.file == 0 ==> goes_on(t, AttachReq::ResolvePath)
            &&& s.held.file != 0 ==> goes_on(t, AttachReq::PinFile { file: s.held.file })
        },
{
}

/// The offsets that were resolved are those of the probe: a symbol has one, a
/// static probe one of its site and one of its semaphore.  A probe by symbol
/// then publishes the task's symbols and gives the task back; a static probe
/// pins the file.
pub proof fn law_resolving_the_site(s: AttachState, rc: i32, off: u64, sema: u64)
    requires
        s.wf(),
        !s.ending,
    ensures
        s.at is ResolveSymbol || s.at is ResolveUsdt ==> {
            let t = after(s, AttachAnswer::Offsets { rc, off, sema });
            &&& rc != 0 ==> has_failed(t, rc as int)
            &&& rc == 0 ==> t.off == off
            &&& rc == 0 && s.at is ResolveUsdt ==> t.sema == sema && goes_on(
                t,
                AttachReq::PinFile { file: s.held.file },
            )
            &&& rc == 0 && s.at is ResolveSymbol ==> t.sema == s.sema && goes_on(
                t,
                AttachReq::PushSymtabs { task: s.held.task },
            )
        },
        s.at is PushSymtabs && s.flow == Flow::UprobeBySym ==> goes_on(
            after(s, AttachAnswer::Nothing),
            AttachReq::PutTask { task: s.held.task },
        ),
{
}

/// The site that a consumer is registered at, on the inode that was pinned.
pub open spec fn at_site(s: AttachState, inode: u64) -> AttachReq {
    AttachReq::Register { inode, off: s.off, ref_ctr_off: s.sema, ret: s.ret }
}

/// A file whose inode is pinned is given back, and the consumer registered on
/// the inode; before that a static probe of a running program publishes the
/// symbols of its task.  If no inode could be pinned, a probe at a file offset
/// goes on by path, and any other fails.
pub proof fn law_pinning_the_file(s: AttachState, ptr: u64)
    requires
        s.wf(),
        !s.ending,
    ensures
        s.at matches AttachReq::PinFile { file } ==> {
            let t = after(s, AttachAnswer::Ptr { ptr });
            goes_on(t, AttachReq::PutFile { file }) && t.held.inode == ptr
        },
        s.at is PutFile ==> {
            let t = after(s, AttachAnswer::Nothing);
            &&& s.flow == Flow::UsdtByTask ==> goes_on(
                t,
                AttachReq::PushSymtabs { task: s.held.task },
            )
            &&& s.flow != Flow::UsdtByTask && s.held.inode != 0 ==> goes_on(
                t,
                at_site(s, s.held.inode),
            )
            &&& s.flow == Flow::Uprobe && s.held.inode == 0 ==> goes_on(t, AttachReq::ResolvePath)
            &&& s.flow != Flow::UsdtByTask && s.flow != Flow::Uprobe && s.held.inode == 0
                ==> has_failed(t, -2)
        },
        s.at is PushSymtabs && s.flow == Flow::UsdtByTask ==> {
            let t = after(s, AttachAnswer::Nothing);
            &&& s.held.inode != 0 ==> goes_on(t, at_site(s, s.held.inode))
            &&& s.held.inode == 0 ==> has_failed(t, -2)
        },
        s.at is PinPath ==> {
            let t = after(s, AttachAnswer::Ptr { ptr });
            &&& ptr != 0 ==> goes_on(t, at_site(s, ptr))
            &&& ptr == 0 ==> has_failed(t, -2)
        },
{
}

/// A path that is there is pinned; one that is not is waited for, and looked up
/// again unless the thread has to stop or it was the three hundredth time; any
/// other error ends the attach.
pub proof fn law_waiting_for_a_path(s: AttachState, a: AttachAnswer)
    requires
        s.wf(),
        !s.ending,
        answers(s.at, a),
    ensures
        s.at is ResolvePath ==> (a matches AttachAnswer::Path { rc, path } && {
            let t = after(s, a);
            &&& rc == 0 ==> goes_on(t, AttachReq::PinPath) && t.held.path == path
            &&& rc == -2 ==> goes_on(t, AttachReq::Sleep)
            &&& rc != 0 && rc != -2 ==> has_failed(t, rc as int)
        }),
        s.at is Sleep ==> (a matches AttachAnswer::Stop { stop } && {
            let t = after(s, a);
            &&& stop || s.attempts >= 299 ==> has_failed(t, -2)
            &&& !stop && s.attempts < 299 ==> goes_on(t, AttachReq::ResolvePath) && t.attempts
                == s.attempts + 1
        }),
{
}

/// A consumer that is registered is kept by the slot, with its inode and its
/// path.
pub proof fn law_registering_the_consumer(s: AttachState, ptr: u64)
    requires
        s.wf(),
        !s.ending,
        s.at is Register,
    ensures
        ({
            let t = after(s, AttachAnswer::Ptr { ptr });
            &&& ptr == 0 || is_err_ptr(ptr) ==> has_failed(t, carried(ptr, -22))
            &&& ptr != 0 && !is_err_ptr(ptr) ==> {
                &&& has_succeeded(t)
                &&& t.kept.uprobe_handle == ptr
                &&& t.kept.uprobe_inode == s.held.inode
                &&& t.kept.uprobe_path == s.held.path
            }
        }),
{
}

/// What is held is given back in a fixed order: inode, path, file, task,
/// tracepoint, event; then the program of a failed attach is freed, and then
/// the attach has ended with its status.
pub proof fn law_the_order_of_giving_back(s: AttachState)
    requires
        s.wf(),
        s.ending,
    ensures
        s.at is PutInode <==> s.held.inode != 0,
        s.at is PutPath <==> s.held.inode == 0 && s.held.path.dentry != 0,
        s.at is PutFile <==> s.held.inode == 0 && s.held.path.dentry == 0 && s.held.file != 0,
        s.at is PutTask <==> s.held.inode == 0 && s.held.path.dentry == 0 && s.held.file == 0
            && s.held.task != 0,
        s.at is FreeProg ==> s.status != 0 && s.held.task == 0 && s.held.btp == 0 && s.held.event
            == 0 && s.at == (AttachReq::FreeProg { prog: s.prog }),
        s.at is Done ==> s.at == (AttachReq::Done { status: s.status }) && (s.status != 0 ==> s.prog
            == 0),
{
}

/// A successful attach puts into the slot what a probe of its kind consists of,
/// and leaves all else of the slot as it was.
pub proof fn law_what_a_slot_gains(slot: BifrostSlot, s: AttachState)
    requires
        s.wf(),
        s.at == (AttachReq::Done { status: 0 }),
    ensures
        ({
            let l = slot.links;
            let m = settled(slot, s).links;
            &&& s.flow == Flow::Fbt ==> m == (SlotLinks {
                fbt_linked: true,
                fbt_trampoline: s.kept.fbt_trampoline,
                ..l
            })
            &&& s.flow == Flow::Tracepoint ==> m == (SlotLinks {
                rawtp_registered: true,
                rawtp_btp: s.kept.rawtp_btp,
                ..l
            })
            &&& s.flow == Flow::ProfileTimer ==> m == (SlotLinks {
                perf_event: s.kept.perf_event,
                ..l
            })
            &&& s.flow == Flow::Uprobe ==> m == (SlotLinks {
                uprobe_handle: s.kept.uprobe_handle,
                uprobe_inode: s.kept.uprobe_inode,
                uprobe_path: s.kept.uprobe_path,
                ..l
            })
            &&& s.flow == Flow::UprobeBySym || s.flow == Flow::UsdtByTask || s.flow
                == Flow::UsdtByPath ==> m == (SlotLinks {
                uprobe_handle: s.kept.uprobe_handle,
                uprobe_inode: s.kept.uprobe_inode,
                ..l
            })
            &&& settled(slot, s) == (BifrostSlot { links: m, ..slot })
        }),
{
}

/// The cleanup of a slot: a probe is unregistered before what it stands on is
/// given back, and nothing is called for what is not there.
pub proof fn law_what_a_cleanup_calls(family: ProbeType, l: SlotLinks)
    ensures
        ({
            let ops = cleanup_ops(family, l);
            let user = family == ProbeType::Uprobe || family == ProbeType::Uretprobe || family
                == ProbeType::UprobeBySym || family == ProbeType::UretprobeBySym || family
                == ProbeType::Usdt;
            &&& is_uprobe(family) <==> user
            &&& family == ProbeType::Fentry || family == ProbeType::Fexit ==> {
                &&& !l.fbt_linked ==> ops.len() == 0
                &&& l.fbt_linked ==> ops.len() >= 1 && ops[0] == (CleanupOp::UnlinkTrampoline {
                    trampoline: l.fbt_trampoline,
                })
                &&& l.fbt_linked && l.fbt_trampoline == 0 ==> ops.len() == 1
                &&& l.fbt_linked && l.fbt_trampoline != 0 ==> ops.len() == 2 && ops[1] == (
                CleanupOp::PutTrampoline { trampoline: l.fbt_trampoline })
            }
            &&& family == ProbeType::Tracepoint ==> {
                &&& !l.rawtp_registered || l.rawtp_btp == 0 ==> ops.len() == 0
                &&& l.rawtp_registered && l.rawtp_btp != 0 ==> {
                    &&& ops.len() == 2
                    &&& ops[0] == (CleanupOp::UnregisterTracepoint { btp: l.rawtp_btp })
                    &&& ops[1] == (CleanupOp::PutTracepoint { btp: l.rawtp_btp })
                }
            }
            &&& family == ProbeType::ProfileTimer ==> {
                &&& l.perf_event == 0 ==> ops.len() == 0
                &&& l.perf_event != 0 ==> ops.len() == 1 && ops[0] == (CleanupOp::ReleaseEvent {
                    event: l.perf_event,
                })
            }
            &&& user ==> {
                let h = if l.uprobe_handle != 0 {
                    1int
                } else {
                    0
                };
                let i = if l.uprobe_inode != 0 {
                    1int
                } else {
                    0
                };
                let p = if l.uprobe_path.dentry != 0 {
                    1int
                } else {
                    0
                };
                &&& ops.len() == h + i + p
                &&& h == 1 ==> ops[0] == (CleanupOp::UnregisterUprobe { handle: l.uprobe_handle })
                &&& i == 1 ==> ops[h] == (CleanupOp::PutInode { inode: l.uprobe_inode })
                &&& p == 1 ==> ops[h + i] == (CleanupOp::PutPath { path: l.uprobe_path })
            }
            &&& family == ProbeType::Unregistered || family == ProbeType::Unknown ==> ops.len() == 0
        }),
{
}

/// The cleanup of a slot takes away what a probe of its family consists of, and
/// nothing else.
pub proof fn law_what_a_cleanup_clears(family: ProbeType, l: SlotLinks)
    ensures
        ({
            let c = cleaned(family, l);
            let user = family == ProbeType::Uprobe || family == ProbeType::Uretprobe || family
                == ProbeType::UprobeBySym || family == ProbeType::UretprobeBySym || family
                == ProbeType::Usdt;
            let fbt = family == ProbeType::Fentry || family == ProbeType::Fexit;
            &&& c.fbt_linked == (l.fbt_linked && !fbt)
            &&& c.fbt_trampoline == l.fbt_trampoline
            &&& c.rawtp_registered == (l.rawtp_registered && family != ProbeType::Tracepoint)
            &&& c.rawtp_btp == (if family == ProbeType::Tracepoint && l.rawtp_registered {
                0
            } else {
                l.rawtp_btp
            })
            &&& c.perf_event == (if family == ProbeType::ProfileTimer {
                0
            } else {
                l.perf_event
            })
            &&& c.uprobe_handle == (if user {
                0
            } else {
                l.uprobe_handle
            })
            &&& c.uprobe_inode == (if user {
                0
            } else {
                l.uprobe_inode
            })
            &&& c.uprobe_path.dentry == (if user {
                0
            } else {
                l.uprobe_path.dentry
            })
            &&& !user ==> c.uprobe_path == l.uprobe_path
        }),
{
}

/// An attach touches its own slot alone.  The driver counts one slot more, and
/// that a probe is attached, exactly when the attach has succeeded.
pub proof fn law_what_an_attach_changes(
    before: BifrostGuest,
    after: BifrostGuest,
    s: AttachState,
    t: int,
)
    requires
        before.wf(),
        s.wf(),
        guest_settled(before, after, s),
        0 <= t < 256,
    ensures
        t != s.slot ==> after.slots.slots@[t] == before.slots.slots@[t],
        after.slots.slots@.len() == before.slots.slots@.len(),
        after.slots.slots@[s.slot as int].probe_type == before.slots.slots@[s.slot as int].probe_type,
        after.slots.slots@[s.slot as int].target_name
            == before.slots.slots@[s.slot as int].target_name,
        s.at == (AttachReq::Done { status: 0 }) ==> after.slots.num_kprobes == s.slot + 1
            && after.kprobe_attached,
        s.at != (AttachReq::Done { status: 0 }) ==> after.slots.num_kprobes
            == before.slots.num_kprobes && after.kprobe_attached == before.kprobe_attached,
        s.at != (AttachReq::Done { status: 0 }) ==> after.slots.slots@[s.slot as int].links
            == before.slots.slots@[s.slot as int].links,
        after.slots.next_lease == before.slots.next_lease,
        after.maps == before.maps,
        after.prog == before.prog,
{
}

/// The attach of a command begins with the command's basename, its path, and its
/// file offset.
pub proof fn law_what_a_command_begins_with(
    ext: AttachExt<'_>,
    slot: int,
    family: ProbeType,
    prog: u64,
)
    ensures
        ext.first(slot, family, prog) == first(
            slot,
            family,
            prog,
            ext.uprobe_basename@,
            ext.uprobe_path_buf@,
            ext.uprobe_file_offset,
        ),
{
}

/// While calls are made the slot of an attach stays as it is.  A failed attach
/// has taken its program and its lease out, and nothing else, by the time that
/// the program is freed.
pub proof fn law_what_a_slot_loses(slot: BifrostSlot, s: AttachState)
    requires
        s.wf(),
    ensures
        !(s.at is FreeProg) && !(s.at is Done) ==> settled(slot, s) == slot,
        s.at is FreeProg || (s.at is Done && s.status != 0) ==> settled(slot, s) == (BifrostSlot {
            prog: 0,
            lease: 0,
            ..slot
        }),
{
}

} // verus!
