//! Attaching the program of a slot to its probe, and detaching it.
//!
//! An attach alternates between kernel calls, which the driver shell makes, and
//! decisions, which are made here.  The state of an attach names the call that
//! is due; `next` takes the answer to that call.  Every kernel object that a
//! call hands out is recorded in the state until it is given back or kept by
//! the slot.

use vstd::prelude::*;
use vstd::slice::slice_subrange;

use crate::bpf_consts::{BPF_TRACE_FENTRY, BPF_TRACE_FEXIT};
use crate::errno::{
    err_ptr_status, event_failed, event_ptr_failed, is_err_ptr, ptr_is_err, status_of_err_ptr,
    EINVAL, ENOENT, ENOSPC,
};
use crate::guest::BifrostGuest;
use crate::load_prog_parse::LoadProgLayout;
use crate::path_helpers::{basename, path_basename, SLASH};
use crate::slots::{empty_links, lease_after, no_links, BifrostSlot, PathRef, SlotLinks};
use crate::wire::{ProbeType, ProbeTypeCodes, MAX_PROBE_SLOTS};

verus! {

/// Longest path that a user-space tracing probe may name.
pub const USDT_PATH_MAX: usize = 256;

/// How often a path that does not exist yet is looked up.
pub const PATH_ATTEMPTS: u32 = 300;

/// The ways to attach.
#[derive(Clone, Copy, PartialEq, Eq, Structural, Debug)]
pub enum Flow {
    Fbt,
    Tracepoint,
    ProfileTimer,
    /// A user-space probe at an offset in a file that is named by its path.
    Uprobe,
    /// A user-space probe on a symbol of a running program.
    UprobeBySym,
    /// A static user-space probe of a running program.
    UsdtByTask,
    /// A static user-space probe of a file that is named by its path.
    UsdtByPath,
    Unsupported,
}

/// A kernel call of an attach.
#[derive(Clone, Copy, PartialEq, Eq, Structural, Debug)]
pub enum AttachReq {
    /// The trampoline that the verifier resolved for program `prog`, or 0.
    Trampoline { prog: u64 },
    /// Link the slot's tracing link to the trampoline.
    LinkTrampoline { trampoline: u64, attach_type: u32 },
    /// The tracepoint that the slot's target name names, or 0.
    GetTracepoint,
    /// Register the slot's raw-tracepoint link.
    RegisterTracepoint { btp: u64 },
    PutTracepoint { btp: u64 },
    /// Create a timer event.
    CreateEvent { period_ns: u64 },
    /// Run the program of the slot whenever the event fires.
    SetEventProg { event: u64 },
    ReleaseEvent { event: u64 },
    /// A referenced task whose command name is the one asked for, or 0.
    FindTask,
    /// The referenced executable file of a task, or 0.
    TaskExe { task: u64 },
    PutTask { task: u64 },
    /// Publish the symbol tables of the files that a task has mapped.
    PushSymtabs { task: u64 },
    /// Open the file that the probe names.
    OpenFile,
    /// The file offset of the symbol that the probe names.
    ResolveSymbol { file: u64 },
    /// The file offsets of the probe site and of its semaphore.
    ResolveUsdt { file: u64 },
    /// Pin the inode of a file; 0 if that fails.
    PinFile { file: u64 },
    PutFile { file: u64 },
    /// Look up the path that the probe names.
    ResolvePath,
    /// Wait a moment; the answer tells whether the thread has to stop.
    Sleep,
    /// Pin the inode of the path that was looked up; 0 if that fails.
    PinPath,
    PutInode { inode: u64 },
    PutPath { path: PathRef },
    /// Register the slot's consumer, for function returns if `ret` is set.
    Register { inode: u64, off: u64, ref_ctr_off: u64, ret: bool },
    /// Free the program that was taken out of the slot.
    FreeProg { prog: u64 },
    /// The attach has ended.
    Done { status: i32 },
}

/// The answer to a kernel call.
#[derive(Clone, Copy, PartialEq, Eq, Structural, Debug)]
pub enum AttachAnswer {
    /// The pointer that the call returned.
    Ptr { ptr: u64 },
    /// The status that the call returned.
    Status { rc: i32 },
    /// The status, and the path if the status is 0.
    Path { rc: i32, path: PathRef },
    /// The status, and the offsets if the status is 0.
    Offsets { rc: i32, off: u64, sema: u64 },
    /// Whether the thread has to stop.
    Stop { stop: bool },
    /// The call returned nothing.
    Nothing,
}

/// The kernel objects that an attach has to give back or to keep; 0 for none.
#[derive(Clone, Copy, PartialEq, Eq, Structural, Debug)]
pub struct Held {
    pub task: u64,
    pub file: u64,
    pub inode: u64,
    pub path: PathRef,
    pub btp: u64,
    pub event: u64,
}

/// Nothing held.
pub open spec fn nothing() -> Held {
    Held {
        task: 0,
        file: 0,
        inode: 0,
        path: PathRef { mnt: 0, dentry: 0 },
        btp: 0,
        event: 0,
    }
}

/// The state of an attach.
#[derive(Clone, Copy, PartialEq, Eq, Structural, Debug)]
pub struct AttachState {
    pub slot: usize,
    pub flow: Flow,
    /// Whether the probe fires on return from a function.
    pub ret: bool,
    /// The program of the slot.
    pub prog: u64,
    /// File offset of the probe, or the period of a timer.
    pub off: u64,
    /// File offset of the semaphore of a static probe.
    pub sema: u64,
    /// How often the path was looked up in vain.
    pub attempts: u32,
    pub held: Held,
    /// What the slot keeps.
    pub kept: SlotLinks,
    /// Whether only giving back is left to do.
    pub ending: bool,
    pub status: i32,
    /// The kernel call that is due.
    pub at: AttachReq,
}

/// Whether `a` is an answer to the call `r`.
pub open spec fn answers(r: AttachReq, a: AttachAnswer) -> bool {
    match r {
        AttachReq::Trampoline { .. } => a is Ptr,
        AttachReq::LinkTrampoline { .. } => a is Status,
        AttachReq::GetTracepoint => a is Ptr,
        AttachReq::RegisterTracepoint { .. } => a is Status,
        AttachReq::CreateEvent { .. } => a is Ptr,
        AttachReq::SetEventProg { .. } => a is Status,
        AttachReq::FindTask => a is Ptr,
        AttachReq::TaskExe { .. } => a is Ptr,
        AttachReq::OpenFile => a is Ptr,
        AttachReq::ResolveSymbol { .. } => a is Offsets,
        AttachReq::ResolveUsdt { .. } => a is Offsets,
        AttachReq::PinFile { .. } => a is Ptr,
        AttachReq::ResolvePath => a matches AttachAnswer::Path { rc, path } && (rc == 0
            ==> path.dentry != 0),
        AttachReq::Sleep => a is Stop,
        AttachReq::PinPath => a is Ptr,
        AttachReq::Register { .. } => a is Ptr,
        AttachReq::Done { .. } => false,
        _ => a is Nothing,
    }
}

/// Give back what is held, one object after the other, and end.  The program
/// of a failed attach is freed last.
pub open spec fn end(s: AttachState) -> AttachState {
    let at = if s.held.inode != 0 {
        AttachReq::PutInode { inode: s.held.inode }
    } else if s.held.path.dentry != 0 {
        AttachReq::PutPath { path: s.held.path }
    } else if s.held.file != 0 {
        AttachReq::PutFile { file: s.held.file }
    } else if s.held.task != 0 {
        AttachReq::PutTask { task: s.held.task }
    } else if s.held.btp != 0 {
        AttachReq::PutTracepoint { btp: s.held.btp }
    } else if s.held.event != 0 {
        AttachReq::ReleaseEvent { event: s.held.event }
    } else if s.status != 0 && s.prog != 0 {
        AttachReq::FreeProg { prog: s.prog }
    } else {
        AttachReq::Done { status: s.status }
    };
    AttachState { at, ending: true, ..s }
}

/// End with a failure.
pub open spec fn fail(s: AttachState, status: i32) -> AttachState {
    end(AttachState { status, ..s })
}

/// End with success; the slot keeps `kept`.
pub open spec fn win(s: AttachState, held: Held, kept: SlotLinks) -> AttachState {
    end(AttachState { status: 0, held, kept, ..s })
}

/// Go on with the call `at`.
pub open spec fn go(s: AttachState, at: AttachReq) -> AttachState {
    AttachState { at, ..s }
}

/// Register the consumer on the pinned inode, if there is one.
pub open spec fn register(s: AttachState) -> AttachState {
    if s.held.inode == 0 {
        fail(s, (-ENOENT) as i32)
    } else {
        go(
            s,
            AttachReq::Register {
                inode: s.held.inode,
                off: s.off,
                ref_ctr_off: s.sema,
                ret: s.ret,
            },
        )
    }
}

/// Where an attach that has given back its task goes on.
pub open spec fn after_put_task(s: AttachState) -> AttachState {
    if s.ending {
        end(s)
    } else if s.held.file == 0 {
        go(s, AttachReq::ResolvePath)
    } else {
        go(s, AttachReq::PinFile { file: s.held.file })
    }
}

/// Where an attach that has given back its file goes on.
pub open spec fn after_put_file(s: AttachState) -> AttachState {
    if s.ending {
        end(s)
    } else if s.flow == Flow::Uprobe && s.held.inode == 0 {
        go(s, AttachReq::ResolvePath)
    } else if s.flow == Flow::UsdtByTask {
        go(s, AttachReq::PushSymtabs { task: s.held.task })
    } else {
        register(s)
    }
}

/// The state after the pointer `ptr` was returned.
pub open spec fn after_ptr(s: AttachState, ptr: u64) -> AttachState {
    match s.at {
        AttachReq::Trampoline { .. } => if ptr == 0 {
            fail(s, (-EINVAL) as i32)
        } else {
            go(
                s,
                AttachReq::LinkTrampoline {
                    trampoline: ptr,
                    attach_type: if s.ret {
                        BPF_TRACE_FEXIT
                    } else {
                        BPF_TRACE_FENTRY
                    },
                },
            )
        },
        AttachReq::GetTracepoint => if ptr == 0 {
            fail(s, (-ENOENT) as i32)
        } else {
            AttachState {
                held: Held { btp: ptr, ..s.held },
                at: AttachReq::RegisterTracepoint { btp: ptr },
                ..s
            }
        },
        AttachReq::CreateEvent { .. } => if event_failed(ptr) {
            fail(s, err_ptr_status(ptr, (-EINVAL) as i32))
        } else {
            AttachState {
                held: Held { event: ptr, ..s.held },
                at: AttachReq::SetEventProg { event: ptr },
                ..s
            }
        },
        AttachReq::FindTask => if ptr != 0 {
            AttachState {
                held: Held { task: ptr, ..s.held },
                at: AttachReq::TaskExe { task: ptr },
                ..s
            }
        } else if s.flow == Flow::Uprobe {
            go(s, AttachReq::ResolvePath)
        } else {
            fail(s, (-ENOENT) as i32)
        },
        AttachReq::TaskExe { task } => if s.flow == Flow::Uprobe {
            AttachState {
                held: Held { file: ptr, ..s.held },
                at: AttachReq::PutTask { task },
                ..s
            }
        } else if ptr == 0 {
            fail(s, (-ENOENT) as i32)
        } else {
            AttachState {
                held: Held { file: ptr, ..s.held },
                at: if s.flow == Flow::UprobeBySym {
                    AttachReq::ResolveSymbol { file: ptr }
                } else {
                    AttachReq::ResolveUsdt { file: ptr }
                },
                ..s
            }
        },
        AttachReq::OpenFile => if ptr == 0 || is_err_ptr(ptr) {
            fail(s, err_ptr_status(ptr, (-ENOENT) as i32))
        } else {
            AttachState {
                held: Held { file: ptr, ..s.held },
                at: AttachReq::ResolveUsdt { file: ptr },
                ..s
            }
        },
        AttachReq::PinFile { file } => AttachState {
            held: Held { inode: ptr, ..s.held },
            at: AttachReq::PutFile { file },
            ..s
        },
        AttachReq::PinPath => register(AttachState { held: Held { inode: ptr, ..s.held }, ..s }),
        AttachReq::Register { .. } => if ptr == 0 || is_err_ptr(ptr) {
            fail(s, err_ptr_status(ptr, (-EINVAL) as i32))
        } else {
            win(
                s,
                Held { inode: 0, path: PathRef { mnt: 0, dentry: 0 }, ..s.held },
                SlotLinks {
                    uprobe_handle: ptr,
                    uprobe_inode: s.held.inode,
                    uprobe_path: s.held.path,
                    ..s.kept
                },
            )
        },
        _ => s,
    }
}

/// The state after the status `rc` was returned.
pub open spec fn after_status(s: AttachState, rc: i32) -> AttachState {
    if rc != 0 {
        fail(s, rc)
    } else {
        match s.at {
            AttachReq::LinkTrampoline { trampoline, .. } => win(
                s,
                s.held,
                SlotLinks { fbt_linked: true, fbt_trampoline: trampoline, ..s.kept },
            ),
            AttachReq::RegisterTracepoint { btp } => win(
                s,
                Held { btp: 0, ..s.held },
                SlotLinks { rawtp_btp: btp, rawtp_registered: true, ..s.kept },
            ),
            AttachReq::SetEventProg { event } => win(
                s,
                Held { event: 0, ..s.held },
                SlotLinks { perf_event: event, ..s.kept },
            ),
            _ => s,
        }
    }
}

/// The state after a call that returns nothing.
pub open spec fn after_nothing(s: AttachState) -> AttachState {
    match s.at {
        AttachReq::PutTask { .. } => after_put_task(
            AttachState { held: Held { task: 0, ..s.held }, ..s },
        ),
        AttachReq::PutFile { .. } => after_put_file(
            AttachState { held: Held { file: 0, ..s.held }, ..s },
        ),
        AttachReq::PushSymtabs { task } => if s.flow == Flow::UprobeBySym {
            go(s, AttachReq::PutTask { task })
        } else {
            register(s)
        },
        AttachReq::PutInode { .. } => end(
            AttachState { held: Held { inode: 0, ..s.held }, ..s },
        ),
        AttachReq::PutPath { .. } => end(
            AttachState { held: Held { path: PathRef { mnt: 0, dentry: 0 }, ..s.held }, ..s },
        ),
        AttachReq::PutTracepoint { .. } => end(
            AttachState { held: Held { btp: 0, ..s.held }, ..s },
        ),
        AttachReq::ReleaseEvent { .. } => end(
            AttachState { held: Held { event: 0, ..s.held }, ..s },
        ),
        AttachReq::FreeProg { .. } => end(AttachState { prog: 0, ..s }),
        _ => s,
    }
}

/// The state after the call that was due gave the answer `a`.
pub open spec fn after(s: AttachState, a: AttachAnswer) -> AttachState {
    match a {
        AttachAnswer::Ptr { ptr } => after_ptr(s, ptr),
        AttachAnswer::Status { rc } => after_status(s, rc),
        AttachAnswer::Path { rc, path } => if rc == 0 {
            AttachState { held: Held { path, ..s.held }, at: AttachReq::PinPath, ..s }
        } else if rc == -ENOENT {
            go(s, AttachReq::Sleep)
        } else {
            fail(s, rc)
        },
        AttachAnswer::Offsets { rc, off, sema } => if rc != 0 {
            fail(s, rc)
        } else if s.flow == Flow::UprobeBySym {
            AttachState { off, at: AttachReq::PushSymtabs { task: s.held.task }, ..s }
        } else {
            AttachState { off, sema, at: AttachReq::PinFile { file: s.held.file }, ..s }
        },
        AttachAnswer::Stop { stop } => if stop || s.attempts + 1 >= PATH_ATTEMPTS {
            fail(s, (-ENOENT) as i32)
        } else {
            AttachState { attempts: (s.attempts + 1) as u32, at: AttachReq::ResolvePath, ..s }
        },
        AttachAnswer::Nothing => after_nothing(s),
    }
}

/// How a probe of family `family` is attached; `name` is the basename, or the
/// path, that a static user-space probe names.
pub open spec fn flow_of(family: ProbeType, name: Seq<u8>) -> Flow {
    match family {
        ProbeType::Fentry => Flow::Fbt,
        ProbeType::Fexit => Flow::Fbt,
        ProbeType::Tracepoint => Flow::Tracepoint,
        ProbeType::ProfileTimer => Flow::ProfileTimer,
        ProbeType::Uprobe => Flow::Uprobe,
        ProbeType::Uretprobe => Flow::Uprobe,
        ProbeType::UprobeBySym => Flow::UprobeBySym,
        ProbeType::UretprobeBySym => Flow::UprobeBySym,
        ProbeType::Usdt => if name.len() > 0 && name[0] == SLASH {
            Flow::UsdtByPath
        } else {
            Flow::UsdtByTask
        },
        ProbeType::Unregistered => Flow::Unsupported,
        ProbeType::Unknown => Flow::Unsupported,
    }
}

/// Whether probes of the family fire on return from a function.
pub open spec fn on_return(family: ProbeType) -> bool {
    family == ProbeType::Fexit || family == ProbeType::Uretprobe || family
        == ProbeType::UretprobeBySym
}

/// The first state of an attach that has taken no step.
pub open spec fn fresh(
    slot: int,
    family: ProbeType,
    prog: u64,
    name: Seq<u8>,
    off: u64,
) -> AttachState {
    AttachState {
        slot: slot as usize,
        flow: flow_of(family, name),
        ret: on_return(family),
        prog,
        off,
        sema: 0,
        attempts: 0,
        held: nothing(),
        kept: no_links(),
        ending: false,
        status: 0,
        at: AttachReq::Done { status: 0 },
    }
}

/// The state in which an attach begins.
pub open spec fn first(
    slot: int,
    family: ProbeType,
    prog: u64,
    name: Seq<u8>,
    path: Seq<u8>,
    off: u64,
) -> AttachState {
    let s = fresh(slot, family, prog, name, off);
    match s.flow {
        Flow::Fbt => if prog == 0 {
            fail(s, (-EINVAL) as i32)
        } else {
            go(s, AttachReq::Trampoline { prog })
        },
        Flow::Tracepoint => if prog == 0 {
            fail(s, (-EINVAL) as i32)
        } else {
            go(s, AttachReq::GetTracepoint)
        },
        Flow::ProfileTimer => if prog == 0 || off == 0 {
            fail(s, (-EINVAL) as i32)
        } else {
            go(s, AttachReq::CreateEvent { period_ns: off })
        },
        Flow::Uprobe => if basename(path).len() == 0 {
            go(s, AttachReq::ResolvePath)
        } else {
            go(s, AttachReq::FindTask)
        },
        Flow::UprobeBySym => if name.len() == 0 {
            fail(s, (-ENOENT) as i32)
        } else {
            go(s, AttachReq::FindTask)
        },
        Flow::UsdtByTask => if name.len() == 0 {
            fail(s, (-ENOENT) as i32)
        } else {
            go(s, AttachReq::FindTask)
        },
        Flow::UsdtByPath => if name.len() > USDT_PATH_MAX {
            fail(s, (-EINVAL) as i32)
        } else {
            go(s, AttachReq::OpenFile)
        },
        Flow::Unsupported => fail(s, (-EINVAL) as i32),
    }
}

impl AttachState {
    /// What is known of an attach at each of its calls.
    pub open spec fn wf(&self) -> bool {
        let h = self.held;
        &&& self.slot < MAX_PROBE_SLOTS
        &&& self.attempts < PATH_ATTEMPTS
        &&& self.held.path.dentry == 0 ==> self.held.path.mnt == 0
        &&& !(self.ending && self.status == 0) ==> self.kept == no_links()
        &&& self.ending && self.status == 0 ==> {
            &&& self.linked()
            &&& self.kept == merged(no_links(), *self)
            &&& h == (Held { task: h.task, ..nothing() })
        }
        &&& self.ending ==> *self == end(*self)
        &&& !self.ending ==> self.status == 0
        &&& !self.ending ==> match self.at {
            AttachReq::Trampoline { prog } => {
                h == nothing() && self.flow == Flow::Fbt && prog == self.prog
            },
            AttachReq::LinkTrampoline { trampoline, .. } => {
                h == nothing() && self.flow == Flow::Fbt && trampoline != 0
            },
            AttachReq::GetTracepoint => h == nothing() && self.flow == Flow::Tracepoint,
            AttachReq::RegisterTracepoint { btp } => {
                btp != 0 && h == (Held { btp, ..nothing() }) && self.flow == Flow::Tracepoint
            },
            AttachReq::CreateEvent { .. } => h == nothing() && self.flow == Flow::ProfileTimer,
            AttachReq::SetEventProg { event } => {
                h == (Held { event, ..nothing() }) && self.flow == Flow::ProfileTimer
            },
            AttachReq::FindTask => {
                h == nothing() && (self.flow == Flow::Uprobe || self.by_task())
            },
            AttachReq::TaskExe { task } => {
                &&& task != 0
                &&& h == (Held { task, ..nothing() })
                &&& self.flow == Flow::Uprobe || self.by_task()
            },
            AttachReq::PutTask { task } => {
                &&& task != 0
                &&& h == (Held { task, file: h.file, ..nothing() })
                &&& self.flow == Flow::Uprobe || (self.flow == Flow::UprobeBySym && h.file != 0)
            },
            AttachReq::PushSymtabs { task } => {
                &&& task != 0
                &&& h.task == task
                &&& (self.flow == Flow::UprobeBySym && h.file != 0 && h == (Held {
                    task,
                    file: h.file,
                    ..nothing()
                })) || (self.flow == Flow::UsdtByTask && h == (Held {
                    task,
                    inode: h.inode,
                    ..nothing()
                }))
            },
            AttachReq::OpenFile => h == nothing() && self.flow == Flow::UsdtByPath,
            AttachReq::ResolveSymbol { file } => {
                &&& file != 0
                &&& h.task != 0
                &&& h == (Held { task: h.task, file, ..nothing() })
                &&& self.flow == Flow::UprobeBySym
            },
            AttachReq::ResolveUsdt { file } => {
                &&& file != 0
                &&& h == (Held { task: h.task, file, ..nothing() })
                &&& (self.flow == Flow::UsdtByTask && h.task != 0) || (self.flow
                    == Flow::UsdtByPath && h.task == 0)
            },
            AttachReq::PinFile { file } => {
                &&& file != 0
                &&& h == (Held { task: h.task, file, ..nothing() })
                &&& self.names_file()
                &&& (h.task != 0) == (self.flow == Flow::UsdtByTask)
            },
            AttachReq::PutFile { file } => {
                &&& file != 0
                &&& h == (Held { task: h.task, file, inode: h.inode, ..nothing() })
                &&& self.names_file()
                &&& (h.task != 0) == (self.flow == Flow::UsdtByTask)
            },
            AttachReq::ResolvePath => h == nothing() && self.flow == Flow::Uprobe,
            AttachReq::Sleep => h == nothing() && self.flow == Flow::Uprobe,
            AttachReq::PinPath => {
                &&& h.path.dentry != 0
                &&& h == (Held { path: h.path, ..nothing() })
                &&& self.flow == Flow::Uprobe
            },
            AttachReq::Register { inode, off, ref_ctr_off, ret } => {
                &&& inode != 0
                &&& h == (Held { task: h.task, inode, path: h.path, ..nothing() })
                &&& self.names_file()
                &&& h.path.dentry != 0 ==> self.flow == Flow::Uprobe
                &&& (h.task != 0) == (self.flow == Flow::UsdtByTask)
                &&& off == self.off && ref_ctr_off == self.sema && ret == self.ret
            },
            _ => false,
        }
    }

    /// Whether the slot keeps what a probe of this kind consists of.
    pub open spec fn linked(&self) -> bool {
        match self.flow {
            Flow::Fbt => self.kept.fbt_linked && self.kept.fbt_trampoline != 0,
            Flow::Tracepoint => self.kept.rawtp_registered && self.kept.rawtp_btp != 0,
            Flow::ProfileTimer => true,
            Flow::Unsupported => false,
            _ => self.kept.uprobe_handle != 0 && self.kept.uprobe_inode != 0,
        }
    }

    /// Whether the probe is on a program that is found by its command name alone.
    pub open spec fn by_task(&self) -> bool {
        self.flow == Flow::UprobeBySym || self.flow == Flow::UsdtByTask
    }

    /// Whether the probe is on a file.
    pub open spec fn names_file(&self) -> bool {
        self.flow == Flow::Uprobe || self.by_task() || self.flow == Flow::UsdtByPath
    }
}

/// Nothing held.
fn empty_held() -> (r: Held)
    ensures
        r == nothing(),
{
    Held {
        task: 0,
        file: 0,
        inode: 0,
        path: PathRef { mnt: 0, dentry: 0 },
        btp: 0,
        event: 0,
    }
}

impl AttachState {
    fn ended(self) -> (r: AttachState)
        ensures
            r == end(self),
    {
        let at: AttachReq = if self.held.inode != 0 {
            AttachReq::PutInode { inode: self.held.inode }
        } else if self.held.path.dentry != 0 {
            AttachReq::PutPath { path: self.held.path }
        } else if self.held.file != 0 {
            AttachReq::PutFile { file: self.held.file }
        } else if self.held.task != 0 {
            AttachReq::PutTask { task: self.held.task }
        } else if self.held.btp != 0 {
            AttachReq::PutTracepoint { btp: self.held.btp }
        } else if self.held.event != 0 {
            AttachReq::ReleaseEvent { event: self.held.event }
        } else if self.status != 0 && self.prog != 0 {
            AttachReq::FreeProg { prog: self.prog }
        } else {
            AttachReq::Done { status: self.status }
        };
        AttachState { at, ending: true, ..self }
    }

    fn failed(self, status: i32) -> (r: AttachState)
        ensures
            r == fail(self, status),
    {
        AttachState { status, ..self }.ended()
    }

    fn won(self, held: Held, kept: SlotLinks) -> (r: AttachState)
        ensures
            r == win(self, held, kept),
    {
        AttachState { status: 0, held, kept, ..self }.ended()
    }

    fn goes(self, at: AttachReq) -> (r: AttachState)
        ensures
            r == go(self, at),
    {
        AttachState { at, ..self }
    }

    fn registers(self) -> (r: AttachState)
        ensures
            r == register(self),
    {
        if self.held.inode == 0 {
            self.failed(-ENOENT)
        } else {
            self.goes(
                AttachReq::Register {
                    inode: self.held.inode,
                    off: self.off,
                    ref_ctr_off: self.sema,
                    ret: self.ret,
                },
            )
        }
    }

    fn put_task(self) -> (r: AttachState)
        ensures
            r == after_put_task(self),
    {
        if self.ending {
            self.ended()
        } else if self.held.file == 0 {
            self.goes(AttachReq::ResolvePath)
        } else {
            self.goes(AttachReq::PinFile { file: self.held.file })
        }
    }

    fn put_file(self) -> (r: AttachState)
        ensures
            r == after_put_file(self),
    {
        if self.ending {
            self.ended()
        } else if self.flow == Flow::Uprobe && self.held.inode == 0 {
            self.goes(AttachReq::ResolvePath)
        } else if self.flow == Flow::UsdtByTask {
            self.goes(AttachReq::PushSymtabs { task: self.held.task })
        } else {
            self.registers()
        }
    }

    fn ptr(self, ptr: u64) -> (r: AttachState)
        ensures
            r == after_ptr(self, ptr),
    {
        match self.at {
            AttachReq::Trampoline { .. } => {
                if ptr == 0 {
                    self.failed(-EINVAL)
                } else {
                    let attach_type: u32 = if self.ret {
                        BPF_TRACE_FEXIT
                    } else {
                        BPF_TRACE_FENTRY
                    };
                    self.goes(AttachReq::LinkTrampoline { trampoline: ptr, attach_type })
                }
            },
            AttachReq::GetTracepoint => {
                if ptr == 0 {
                    self.failed(-ENOENT)
                } else {
                    AttachState {
                        held: Held { btp: ptr, ..self.held },
                        at: AttachReq::RegisterTracepoint { btp: ptr },
                        ..self
                    }
                }
            },
            AttachReq::CreateEvent { .. } => {
                if event_ptr_failed(ptr) {
                    self.failed(status_of_err_ptr(ptr, -EINVAL))
                } else {
                    AttachState {
                        held: Held { event: ptr, ..self.held },
                        at: AttachReq::SetEventProg { event: ptr },
                        ..self
                    }
                }
            },
            AttachReq::FindTask => {
                if ptr != 0 {
                    AttachState {
                        held: Held { task: ptr, ..self.held },
                        at: AttachReq::TaskExe { task: ptr },
                        ..self
                    }
                } else if self.flow == Flow::Uprobe {
                    self.goes(AttachReq::ResolvePath)
                } else {
                    self.failed(-ENOENT)
                }
            },
            AttachReq::TaskExe { task } => {
                if self.flow == Flow::Uprobe {
                    AttachState {
                        held: Held { file: ptr, ..self.held },
                        at: AttachReq::PutTask { task },
                        ..self
                    }
                } else if ptr == 0 {
                    self.failed(-ENOENT)
                } else {
                    let at: AttachReq = if self.flow == Flow::UprobeBySym {
                        AttachReq::ResolveSymbol { file: ptr }
                    } else {
                        AttachReq::ResolveUsdt { file: ptr }
                    };
                    AttachState { held: Held { file: ptr, ..self.held }, at, ..self }
                }
            },
            AttachReq::OpenFile => {
                if ptr == 0 || ptr_is_err(ptr) {
                    self.failed(status_of_err_ptr(ptr, -ENOENT))
                } else {
                    AttachState {
                        held: Held { file: ptr, ..self.held },
                        at: AttachReq::ResolveUsdt { file: ptr },
                        ..self
                    }
                }
            },
            AttachReq::PinFile { file } => AttachState {
                held: Held { inode: ptr, ..self.held },
                at: AttachReq::PutFile { file },
                ..self
            },
            AttachReq::PinPath => AttachState {
                held: Held { inode: ptr, ..self.held },
                ..self
            }.registers(),
            AttachReq::Register { .. } => {
                if ptr == 0 || ptr_is_err(ptr) {
                    self.failed(status_of_err_ptr(ptr, -EINVAL))
                } else {
                    self.won(
                        Held { inode: 0, path: PathRef { mnt: 0, dentry: 0 }, ..self.held },
                        SlotLinks {
                            uprobe_handle: ptr,
                            uprobe_inode: self.held.inode,
                            uprobe_path: self.held.path,
                            ..self.kept
                        },
                    )
                }
            },
            _ => self,
        }
    }

    fn status(self, rc: i32) -> (r: AttachState)
        ensures
            r == after_status(self, rc),
    {
        if rc != 0 {
            return self.failed(rc);
        }
        match self.at {
            AttachReq::LinkTrampoline { trampoline, .. } => self.won(
                self.held,
                SlotLinks { fbt_linked: true, fbt_trampoline: trampoline, ..self.kept },
            ),
            AttachReq::RegisterTracepoint { btp } => self.won(
                Held { btp: 0, ..self.held },
                SlotLinks { rawtp_btp: btp, rawtp_registered: true, ..self.kept },
            ),
            AttachReq::SetEventProg { event } => self.won(
                Held { event: 0, ..self.held },
                SlotLinks { perf_event: event, ..self.kept },
            ),
            _ => self,
        }
    }

    fn nothing(self) -> (r: AttachState)
        ensures
            r == after_nothing(self),
    {
        match self.at {
            AttachReq::PutTask { .. } => AttachState {
                held: Held { task: 0, ..self.held },
                ..self
            }.put_task(),
            AttachReq::PutFile { .. } => AttachState {
                held: Held { file: 0, ..self.held },
                ..self
            }.put_file(),
            AttachReq::PushSymtabs { task } => {
                if self.flow == Flow::UprobeBySym {
                    self.goes(AttachReq::PutTask { task })
                } else {
                    self.registers()
                }
            },
            AttachReq::PutInode { .. } => AttachState {
                held: Held { inode: 0, ..self.held },
                ..self
            }.ended(),
            AttachReq::PutPath { .. } => AttachState {
                held: Held { path: PathRef { mnt: 0, dentry: 0 }, ..self.held },
                ..self
            }.ended(),
            AttachReq::PutTracepoint { .. } => AttachState {
                held: Held { btp: 0, ..self.held },
                ..self
            }.ended(),
            AttachReq::ReleaseEvent { .. } => AttachState {
                held: Held { event: 0, ..self.held },
                ..self
            }.ended(),
            AttachReq::FreeProg { .. } => AttachState { prog: 0, ..self }.ended(),
            _ => self,
        }
    }

    /// Take the answer to the call that was due.
    pub fn next(self, a: AttachAnswer) -> (r: AttachState)
        requires
            self.wf(),
            answers(self.at, a),
        ensures
            r == after(self, a),
            r.wf(),
    {
        proof {
            law_states_stay_well_formed(self, a);
        }
        match a {
            AttachAnswer::Ptr { ptr } => self.ptr(ptr),
            AttachAnswer::Status { rc } => self.status(rc),
            AttachAnswer::Path { rc, path } => {
                if rc == 0 {
                    AttachState {
                        held: Held { path, ..self.held },
                        at: AttachReq::PinPath,
                        ..self
                    }
                } else if rc == -ENOENT {
                    self.goes(AttachReq::Sleep)
                } else {
                    self.failed(rc)
                }
            },
            AttachAnswer::Offsets { rc, off, sema } => {
                if rc != 0 {
                    self.failed(rc)
                } else if self.flow == Flow::UprobeBySym {
                    AttachState {
                        off,
                        at: AttachReq::PushSymtabs { task: self.held.task },
                        ..self
                    }
                } else {
                    AttachState {
                        off,
                        sema,
                        at: AttachReq::PinFile { file: self.held.file },
                        ..self
                    }
                }
            },
            AttachAnswer::Stop { stop } => {
                if stop || self.attempts + 1 >= PATH_ATTEMPTS {
                    self.failed(-ENOENT)
                } else {
                    AttachState {
                        attempts: self.attempts + 1,
                        at: AttachReq::ResolvePath,
                        ..self
                    }
                }
            },
            AttachAnswer::Nothing => self.nothing(),
        }
    }
}

/// What a command says of the probe, besides its family.
pub struct AttachExt<'a> {
    /// Command name of the probed program, or the path of a static probe's file.
    pub uprobe_basename: &'a [u8],
    /// Symbol, or name of a static probe.
    pub uprobe_symbol: &'a [u8],
    /// Provider of a static probe.
    pub uprobe_provider: &'a [u8],
    /// NUL-padded path of the probed file.
    pub uprobe_path_buf: &'a [u8],
    /// File offset of the probe, or period of a timer.
    pub uprobe_file_offset: u64,
}

/// The command name under which the task of a probe is looked for.
pub open spec fn task_name(flow: Flow, name: Seq<u8>, path: Seq<u8>) -> Seq<u8> {
    if flow == Flow::Uprobe {
        basename(path)
    } else {
        name
    }
}

impl<'a> AttachExt<'a> {
    /// What the layout of a command says of the probe.
    pub fn of(layout: &'a LoadProgLayout) -> (r: Self)
        requires
            layout.wf(),
        ensures
            r.uprobe_basename@ == layout.basename(),
            r.uprobe_symbol@ == layout.symbol(),
            r.uprobe_provider@ == layout.provider(),
            r.uprobe_path_buf@ == layout.uprobe_path_buf@,
            r.uprobe_file_offset == layout.uprobe_file_offset,
    {
        AttachExt {
            uprobe_basename: slice_subrange(
                layout.uprobe_basename.as_slice(),
                0,
                layout.uprobe_basename_len,
            ),
            uprobe_symbol: slice_subrange(
                layout.uprobe_symbol.as_slice(),
                0,
                layout.uprobe_symbol_len,
            ),
            uprobe_provider: slice_subrange(
                layout.uprobe_provider.as_slice(),
                0,
                layout.uprobe_provider_len,
            ),
            uprobe_path_buf: layout.uprobe_path_buf.as_slice(),
            uprobe_file_offset: layout.uprobe_file_offset,
        }
    }

    /// The state in which the attach of such a probe to `slot` begins.
    pub open spec fn first(&self, slot: int, family: ProbeType, prog: u64) -> AttachState {
        first(
            slot,
            family,
            prog,
            self.uprobe_basename@,
            self.uprobe_path_buf@,
            self.uprobe_file_offset,
        )
    }

    /// Choose the command name to look for.
    pub fn comm(&self, flow: Flow) -> (r: &[u8])
        ensures
            r@ == task_name(flow, self.uprobe_basename@, self.uprobe_path_buf@),
    {
        if flow == Flow::Uprobe {
            path_basename(self.uprobe_path_buf)
        } else {
            self.uprobe_basename
        }
    }

    /// Choose how to attach.
    fn flow(&self, family: ProbeType) -> (r: Flow)
        ensures
            r == flow_of(family, self.uprobe_basename@),
    {
        match family {
            ProbeType::Fentry => Flow::Fbt,
            ProbeType::Fexit => Flow::Fbt,
            ProbeType::Tracepoint => Flow::Tracepoint,
            ProbeType::ProfileTimer => Flow::ProfileTimer,
            ProbeType::Uprobe => Flow::Uprobe,
            ProbeType::Uretprobe => Flow::Uprobe,
            ProbeType::UprobeBySym => Flow::UprobeBySym,
            ProbeType::UretprobeBySym => Flow::UprobeBySym,
            ProbeType::Usdt => {
                if self.uprobe_basename.len() > 0 && self.uprobe_basename[0] == SLASH {
                    Flow::UsdtByPath
                } else {
                    Flow::UsdtByTask
                }
            },
            ProbeType::Unregistered => Flow::Unsupported,
            ProbeType::Unknown => Flow::Unsupported,
        }
    }

    /// Begin to attach such a probe to `slot`.
    pub fn begin(&self, slot: usize, family: ProbeType, prog: u64) -> (r: AttachState)
        requires
            slot < MAX_PROBE_SLOTS,
        ensures
            r == self.first(slot as int, family, prog),
            r.wf(),
    {
        let name_len: usize = self.uprobe_basename.len();
        let s = AttachState {
            slot,
            flow: self.flow(family),
            ret: match family {
                ProbeType::Fexit => true,
                ProbeType::Uretprobe => true,
                ProbeType::UretprobeBySym => true,
                _ => false,
            },
            prog,
            off: self.uprobe_file_offset,
            sema: 0,
            attempts: 0,
            held: empty_held(),
            kept: empty_links(),
            ending: false,
            status: 0,
            at: AttachReq::Done { status: 0 },
        };
        match s.flow {
            Flow::Fbt => {
                if prog == 0 {
                    s.failed(-EINVAL)
                } else {
                    s.goes(AttachReq::Trampoline { prog })
                }
            },
            Flow::Tracepoint => {
                if prog == 0 {
                    s.failed(-EINVAL)
                } else {
                    s.goes(AttachReq::GetTracepoint)
                }
            },
            Flow::ProfileTimer => {
                if prog == 0 || s.off == 0 {
                    s.failed(-EINVAL)
                } else {
                    s.goes(AttachReq::CreateEvent { period_ns: s.off })
                }
            },
            Flow::Uprobe => {
                if path_basename(self.uprobe_path_buf).len() == 0 {
                    s.goes(AttachReq::ResolvePath)
                } else {
                    s.goes(AttachReq::FindTask)
                }
            },
            Flow::UprobeBySym => {
                if name_len == 0 {
                    s.failed(-ENOENT)
                } else {
                    s.goes(AttachReq::FindTask)
                }
            },
            Flow::UsdtByTask => {
                if name_len == 0 {
                    s.failed(-ENOENT)
                } else {
                    s.goes(AttachReq::FindTask)
                }
            },
            Flow::UsdtByPath => {
                if name_len > USDT_PATH_MAX {
                    s.failed(-EINVAL)
                } else {
                    s.goes(AttachReq::OpenFile)
                }
            },
            Flow::Unsupported => s.failed(-EINVAL),
        }
    }
}

/// The links of a slot after a successful attach: what a probe of the kind
/// consists of is replaced, the rest stays.
pub open spec fn merged(links: SlotLinks, s: AttachState) -> SlotLinks {
    match s.flow {
        Flow::Fbt => SlotLinks {
            fbt_linked: s.kept.fbt_linked,
            fbt_trampoline: s.kept.fbt_trampoline,
            ..links
        },
        Flow::Tracepoint => SlotLinks {
            rawtp_btp: s.kept.rawtp_btp,
            rawtp_registered: s.kept.rawtp_registered,
            ..links
        },
        Flow::ProfileTimer => SlotLinks { perf_event: s.kept.perf_event, ..links },
        Flow::Uprobe => SlotLinks {
            uprobe_handle: s.kept.uprobe_handle,
            uprobe_inode: s.kept.uprobe_inode,
            uprobe_path: s.kept.uprobe_path,
            ..links
        },
        _ => SlotLinks {
            uprobe_handle: s.kept.uprobe_handle,
            uprobe_inode: s.kept.uprobe_inode,
            ..links
        },
    }
}

/// The slot of an attach in state `s`.  A failure takes the program and the
/// lease away before the program is freed; success stores the links.
pub open spec fn settled(slot: BifrostSlot, s: AttachState) -> BifrostSlot {
    match s.at {
        AttachReq::FreeProg { .. } => BifrostSlot { prog: 0, lease: 0, ..slot },
        AttachReq::Done { status } => if status != 0 {
            BifrostSlot { prog: 0, lease: 0, ..slot }
        } else {
            BifrostSlot { links: merged(slot.links, s), ..slot }
        },
        _ => slot,
    }
}

/// How the state `after` of the driver follows from `before` when an attach
/// has come to state `s`.
pub open spec fn guest_settled(before: BifrostGuest, after: BifrostGuest, s: AttachState) -> bool {
    let done = s.at == (AttachReq::Done { status: 0 });
    &&& after.slots.slots@ == before.slots.slots@.update(
        s.slot as int,
        settled(before.slots.slots@[s.slot as int], s),
    )
    &&& after.slots.num_kprobes == (if done {
        s.slot + 1
    } else {
        before.slots.num_kprobes as int
    })
    &&& after.slots.next_lease == before.slots.next_lease
    &&& after.kprobe_attached == (before.kprobe_attached || done)
    &&& after.maps == before.maps
    &&& after.prog == before.prog
}

/// Bring the driver's state in line with an attach.
fn settle(guest: &mut BifrostGuest, s: &AttachState)
    requires
        old(guest).wf(),
        s.wf(),
    ensures
        final(guest).wf(),
        guest_settled(*old(guest), *final(guest), *s),
{
    let slot: usize = s.slot;
    let ghost slots0 = guest.slots.slots@;
    match s.at {
        AttachReq::FreeProg { .. } => {
            guest.slots.slots[slot].prog = 0;
            guest.slots.slots[slot].lease = 0;
        },
        AttachReq::Done { status } => {
            if status != 0 {
                guest.slots.slots[slot].prog = 0;
                guest.slots.slots[slot].lease = 0;
            } else {
                let links: SlotLinks = guest.slots.slots[slot].links;
                guest.slots.slots[slot].links = match s.flow {
                    Flow::Fbt => SlotLinks {
                        fbt_linked: s.kept.fbt_linked,
                        fbt_trampoline: s.kept.fbt_trampoline,
                        ..links
                    },
                    Flow::Tracepoint => SlotLinks {
                        rawtp_btp: s.kept.rawtp_btp,
                        rawtp_registered: s.kept.rawtp_registered,
                        ..links
                    },
                    Flow::ProfileTimer => SlotLinks { perf_event: s.kept.perf_event, ..links },
                    Flow::Uprobe => SlotLinks {
                        uprobe_handle: s.kept.uprobe_handle,
                        uprobe_inode: s.kept.uprobe_inode,
                        uprobe_path: s.kept.uprobe_path,
                        ..links
                    },
                    _ => SlotLinks {
                        uprobe_handle: s.kept.uprobe_handle,
                        uprobe_inode: s.kept.uprobe_inode,
                        ..links
                    },
                };
                guest.slots.num_kprobes = slot + 1;
                guest.kprobe_attached = true;
            }
        },
        _ => {},
    }
    assert(guest.slots.slots@ =~= slots0.update(slot as int, settled(slots0[slot as int], *s)));
}

/// Begin to attach the program of slot `slot`: issue a fresh lease and find
/// the first kernel call.  The lease is issued before anything is tried.
pub fn slot_family_attach(
    guest: &mut BifrostGuest,
    codes: &ProbeTypeCodes,
    slot: usize,
    probe_type: u8,
    ext: &AttachExt<'_>,
) -> (r: Result<AttachState, i32>)
    requires
        old(guest).wf(),
        slot < usize::MAX,
    ensures
        final(guest).wf(),
        match r {
            Ok(s) => {
                &&& slot < MAX_PROBE_SLOTS
                &&& s == ext.first(
                    slot as int,
                    codes.family(probe_type),
                    old(guest).slots.slots@[slot as int].prog,
                )
                &&& s.wf()
                &&& final(guest).slots.slots@ == old(guest).slots.slots@.update(
                    slot as int,
                    settled(
                        (BifrostSlot {
                            lease: old(guest).slots.next_lease,
                            ..old(guest).slots.slots@[slot as int]
                        }),
                        s,
                    ),
                )
                &&& final(guest).slots.num_kprobes == old(guest).slots.num_kprobes
                &&& final(guest).slots.next_lease == lease_after(old(guest).slots.next_lease)
                &&& final(guest).kprobe_attached == old(guest).kprobe_attached
                &&& final(guest).maps == old(guest).maps
                &&& final(guest).prog == old(guest).prog
            },
            Err(e) => slot >= MAX_PROBE_SLOTS && e == -ENOSPC && *final(guest) == *old(guest),
        },
{
    match guest.slots.slots_ensure(slot + 1) {
        Ok(()) => {},
        Err(e) => return Err(e),
    }
    let prog: u64 = guest.slots.slots[slot].prog;
    let lease: u64 = guest.slots.slot_lease_new();
    guest.slots.slots[slot].lease = lease;
    let s: AttachState = ext.begin(slot, codes.probe_type(probe_type), prog);
    settle(guest, &s);
    assert(guest.slots.slots@ =~= old(guest).slots.slots@.update(
        slot as int,
        settled(
            BifrostSlot {
                lease: old(guest).slots.next_lease,
                ..old(guest).slots.slots@[slot as int]
            },
            s,
        ),
    ));
    Ok(s)
}

/// Take the answer to the call that was due, and bring the driver's state in
/// line.
pub fn attach_answered(guest: &mut BifrostGuest, s: AttachState, a: AttachAnswer) -> (r:
    AttachState)
    requires
        old(guest).wf(),
        s.wf(),
        answers(s.at, a),
    ensures
        final(guest).wf(),
        r == after(s, a),
        r.wf(),
        guest_settled(*old(guest), *final(guest), r),
{
    let r: AttachState = s.next(a);
    settle(guest, &r);
    r
}

/// A kernel call of the cleanup of a slot.
#[derive(Clone, Copy, PartialEq, Eq, Structural, Debug)]
pub enum CleanupOp {
    /// Unlink the slot's tracing link from the trampoline.
    UnlinkTrampoline { trampoline: u64 },
    PutTrampoline { trampoline: u64 },
    /// Unregister the slot's raw-tracepoint link.
    UnregisterTracepoint { btp: u64 },
    PutTracepoint { btp: u64 },
    /// Unregister the slot's consumer, without waiting for its handlers.
    UnregisterUprobe { handle: u64 },
    PutInode { inode: u64 },
    PutPath { path: PathRef },
    ReleaseEvent { event: u64 },
}

/// One call if `due`, none otherwise.
pub open spec fn op_if(due: bool, op: CleanupOp) -> Seq<CleanupOp> {
    if due {
        seq![op]
    } else {
        Seq::empty()
    }
}

/// Whether probes of the family are user-space probes.
pub open spec fn is_uprobe(family: ProbeType) -> bool {
    ||| family == ProbeType::Uprobe
    ||| family == ProbeType::Uretprobe
    ||| family == ProbeType::UprobeBySym
    ||| family == ProbeType::UretprobeBySym
    ||| family == ProbeType::Usdt
}

/// The calls that clean up a slot of family `family` with links `l`.
pub open spec fn cleanup_ops(family: ProbeType, l: SlotLinks) -> Seq<CleanupOp> {
    if family == ProbeType::Fentry || family == ProbeType::Fexit {
        op_if(l.fbt_linked, CleanupOp::UnlinkTrampoline { trampoline: l.fbt_trampoline }) + op_if(
            l.fbt_linked && l.fbt_trampoline != 0,
            CleanupOp::PutTrampoline { trampoline: l.fbt_trampoline },
        )
    } else if family == ProbeType::Tracepoint {
        let due = l.rawtp_registered && l.rawtp_btp != 0;
        op_if(due, CleanupOp::UnregisterTracepoint { btp: l.rawtp_btp }) + op_if(
            due,
            CleanupOp::PutTracepoint { btp: l.rawtp_btp },
        )
    } else if is_uprobe(family) {
        op_if(
            l.uprobe_handle != 0,
            CleanupOp::UnregisterUprobe { handle: l.uprobe_handle },
        ) + op_if(l.uprobe_inode != 0, CleanupOp::PutInode { inode: l.uprobe_inode }) + op_if(
            l.uprobe_path.dentry != 0,
            CleanupOp::PutPath { path: l.uprobe_path },
        )
    } else if family == ProbeType::ProfileTimer {
        op_if(l.perf_event != 0, CleanupOp::ReleaseEvent { event: l.perf_event })
    } else {
        Seq::empty()
    }
}

/// The links of a slot after its cleanup.
pub open spec fn cleaned(family: ProbeType, l: SlotLinks) -> SlotLinks {
    if family == ProbeType::Fentry || family == ProbeType::Fexit {
        SlotLinks { fbt_linked: false, ..l }
    } else if family == ProbeType::Tracepoint {
        if l.rawtp_registered {
            SlotLinks { rawtp_btp: 0, rawtp_registered: false, ..l }
        } else {
            l
        }
    } else if is_uprobe(family) {
        SlotLinks {
            uprobe_handle: 0,
            uprobe_inode: 0,
            uprobe_path: if l.uprobe_path.dentry != 0 {
                PathRef { mnt: 0, dentry: 0 }
            } else {
                l.uprobe_path
            },
            ..l
        }
    } else if family == ProbeType::ProfileTimer {
        SlotLinks { perf_event: 0, ..l }
    } else {
        l
    }
}

/// Clean up slot `slot`.  The result is the calls to make, in their order, and
/// whether the slot is of a user-space family, whose handlers have to be waited
/// for.
pub fn slot_family_cleanup(
    guest: &mut BifrostGuest,
    codes: &ProbeTypeCodes,
    slot: usize,
    probe_type: u8,
) -> (r: (Vec<CleanupOp>, bool))
    requires
        old(guest).wf(),
        slot < MAX_PROBE_SLOTS,
    ensures
        final(guest).wf(),
        r.0@ == cleanup_ops(codes.family(probe_type), old(guest).slots.slots@[slot as int].links),
        r.1 == is_uprobe(codes.family(probe_type)),
        final(guest).slots.slots@ == old(guest).slots.slots@.update(
            slot as int,
            (BifrostSlot {
                lease: 0,
                links: cleaned(
                    codes.family(probe_type),
                    old(guest).slots.slots@[slot as int].links,
                ),
                ..old(guest).slots.slots@[slot as int]
            }),
        ),
        final(guest).slots.num_kprobes == old(guest).slots.num_kprobes,
        final(guest).slots.next_lease == old(guest).slots.next_lease,
        final(guest).kprobe_attached == old(guest).kprobe_attached,
        final(guest).maps == old(guest).maps,
        final(guest).prog == old(guest).prog,
{
    let ghost slots0 = guest.slots.slots@;
    let family: ProbeType = codes.probe_type(probe_type);
    let l: SlotLinks = guest.slots.slots[slot].links;
    let mut ops: Vec<CleanupOp> = Vec::new();
    let mut had_uprobe: bool = false;
    let mut after: SlotLinks = l;
    match family {
        ProbeType::Fentry | ProbeType::Fexit => {
            if l.fbt_linked {
                ops.push(CleanupOp::UnlinkTrampoline { trampoline: l.fbt_trampoline });
                if l.fbt_trampoline != 0 {
                    ops.push(CleanupOp::PutTrampoline { trampoline: l.fbt_trampoline });
                }
            }
            after.fbt_linked = false;
        },
        ProbeType::Tracepoint => {
            if l.rawtp_registered {
                if l.rawtp_btp != 0 {
                    ops.push(CleanupOp::UnregisterTracepoint { btp: l.rawtp_btp });
                    ops.push(CleanupOp::PutTracepoint { btp: l.rawtp_btp });
                }
                after.rawtp_btp = 0;
                after.rawtp_registered = false;
            }
        },
        ProbeType::Uprobe
        | ProbeType::Uretprobe
        | ProbeType::UprobeBySym
        | ProbeType::UretprobeBySym
        | ProbeType::Usdt => {
            had_uprobe = true;
            if l.uprobe_handle != 0 {
                ops.push(CleanupOp::UnregisterUprobe { handle: l.uprobe_handle });
            }
            after.uprobe_handle = 0;
            if l.uprobe_inode != 0 {
                ops.push(CleanupOp::PutInode { inode: l.uprobe_inode });
                after.uprobe_inode = 0;
            }
            if l.uprobe_path.dentry != 0 {
                ops.push(CleanupOp::PutPath { path: l.uprobe_path });
                after.uprobe_path = PathRef { mnt: 0, dentry: 0 };
            }
        },
        ProbeType::ProfileTimer => {
            if l.perf_event != 0 {
                ops.push(CleanupOp::ReleaseEvent { event: l.perf_event });
                after.perf_event = 0;
            }
        },
        ProbeType::Unregistered | ProbeType::Unknown => {},
    }
    assert(ops@ =~= cleanup_ops(family, l));
    guest.slots.slots[slot].links = after;
    guest.slots.slots[slot].lease = 0;
    assert(guest.slots.slots@ =~= slots0.update(
        slot as int,
        BifrostSlot { lease: 0, links: cleaned(family, l), ..slots0[slot as int] },
    ));
    (ops, had_uprobe)
}

/// The label of a probe family.
pub open spec fn label(family: ProbeType) -> Seq<char> {
    match family {
        ProbeType::Fentry => "fbt"@,
        ProbeType::Fexit => "fbt"@,
        ProbeType::Tracepoint => "tracepoint"@,
        ProbeType::Uprobe => "uprobe"@,
        ProbeType::Uretprobe => "uprobe"@,
        ProbeType::UprobeBySym => "uprobe_by_sym"@,
        ProbeType::UretprobeBySym => "uprobe_by_sym"@,
        ProbeType::Usdt => "usdt"@,
        ProbeType::ProfileTimer => "profile-timer"@,
        ProbeType::Unregistered => "none"@,
        ProbeType::Unknown => "unknown"@,
    }
}

/// Name the family that owns `probe_type`.
pub fn slot_family_label(codes: &ProbeTypeCodes, probe_type: u8) -> (r: &'static str)
    ensures
        r@ == label(codes.family(probe_type)),
{
    match codes.probe_type(probe_type) {
        ProbeType::Fentry | ProbeType::Fexit => "fbt",
        ProbeType::Tracepoint => "tracepoint",
        ProbeType::Uprobe | ProbeType::Uretprobe => "uprobe",
        ProbeType::UprobeBySym | ProbeType::UretprobeBySym => "uprobe_by_sym",
        ProbeType::Usdt => "usdt",
        ProbeType::ProfileTimer => "profile-timer",
        ProbeType::Unregistered => "none",
        ProbeType::Unknown => "unknown",
    }
}

/// A reference to a kernel object.
pub enum Object {
    Task { task: u64 },
    File { file: u64 },
    Inode { inode: u64 },
    Path { path: PathRef },
    Tracepoint { btp: u64 },
    Event { event: u64 },
}

/// The references that an attach holds or that its slot is to keep.
pub open spec fn owned(s: AttachState) -> Set<Object> {
    Set::new(
        |o: Object|
            match o {
                Object::Task { task } => task != 0 && task == s.held.task,
                Object::File { file } => file != 0 && file == s.held.file,
                Object::Inode { inode } => inode != 0 && (inode == s.held.inode || inode
                    == s.kept.uprobe_inode),
                Object::Path { path } => path.dentry != 0 && (path == s.held.path || path
                    == s.kept.uprobe_path),
                Object::Tracepoint { btp } => btp != 0 && (btp == s.held.btp || btp
                    == s.kept.rawtp_btp),
                Object::Event { event } => event != 0 && (event == s.held.event || event
                    == s.kept.perf_event),
            },
    )
}

/// The references that the answer `a` to the call `r` hands out.
pub open spec fn acquired(r: AttachReq, a: AttachAnswer) -> Set<Object> {
    match (r, a) {
        (AttachReq::GetTracepoint, AttachAnswer::Ptr { ptr }) => if ptr != 0 {
            set![Object::Tracepoint { btp: ptr }]
        } else {
            Set::empty()
        },
        (AttachReq::CreateEvent { .. }, AttachAnswer::Ptr { ptr }) => if ptr != 0 && !event_failed(
            ptr,
        ) {
            set![Object::Event { event: ptr }]
        } else {
            Set::empty()
        },
        (AttachReq::FindTask, AttachAnswer::Ptr { ptr }) => if ptr != 0 {
            set![Object::Task { task: ptr }]
        } else {
            Set::empty()
        },
        (AttachReq::TaskExe { .. }, AttachAnswer::Ptr { ptr }) => if ptr != 0 {
            set![Object::File { file: ptr }]
        } else {
            Set::empty()
        },
        (AttachReq::OpenFile, AttachAnswer::Ptr { ptr }) => if ptr != 0 && !is_err_ptr(ptr) {
            set![Object::File { file: ptr }]
        } else {
            Set::empty()
        },
        (AttachReq::PinFile { .. }, AttachAnswer::Ptr { ptr }) => if ptr != 0 {
            set![Object::Inode { inode: ptr }]
        } else {
            Set::empty()
        },
        (AttachReq::PinPath, AttachAnswer::Ptr { ptr }) => if ptr != 0 {
            set![Object::Inode { inode: ptr }]
        } else {
            Set::empty()
        },
        (AttachReq::ResolvePath, AttachAnswer::Path { rc, path }) => if rc == 0 {
            set![Object::Path { path }]
        } else {
            Set::empty()
        },
        _ => Set::empty(),
    }
}

/// The references that the call `r` gives back.
pub open spec fn released(r: AttachReq) -> Set<Object> {
    match r {
        AttachReq::PutTask { task } => set![Object::Task { task }],
        AttachReq::PutFile { file } => set![Object::File { file }],
        AttachReq::PutInode { inode } => set![Object::Inode { inode }],
        AttachReq::PutPath { path } => set![Object::Path { path }],
        AttachReq::PutTracepoint { btp } => set![Object::Tracepoint { btp }],
        AttachReq::ReleaseEvent { event } => set![Object::Event { event }],
        _ => Set::empty(),
    }
}

/// Every answer leads from a well-formed state to a well-formed state.
pub proof fn law_states_stay_well_formed(s: AttachState, a: AttachAnswer)
    requires
        s.wf(),
        answers(s.at, a),
    ensures
        after(s, a).wf(),
{
}

/// An attach begins in a well-formed state that owns nothing.
pub proof fn law_an_attach_begins_with_nothing(
    slot: int,
    family: ProbeType,
    prog: u64,
    name: Seq<u8>,
    path: Seq<u8>,
    off: u64,
)
    requires
        0 <= slot < MAX_PROBE_SLOTS,
    ensures
        first(slot, family, prog, name, path, off).wf(),
        owned(first(slot, family, prog, name, path, off)) == Set::<Object>::empty(),
{
    assert(owned(first(slot, family, prog, name, path, off)) =~= Set::<Object>::empty());
}

/// No reference is lost and none is given back twice: a call gives back only
/// what is owned, and what is owned after its answer is what was owned before,
/// less what the call gave back, with what the answer handed out.
pub proof fn law_references_are_conserved(s: AttachState, a: AttachAnswer)
    requires
        s.wf(),
        answers(s.at, a),
    ensures
        released(s.at).subset_of(owned(s)),
        owned(after(s, a)) == owned(s).difference(released(s.at)).union(acquired(s.at, a)),
{
    let t = after(s, a);
    let expected = owned(s).difference(released(s.at)).union(acquired(s.at, a));
    assert forall|o: Object| owned(t).contains(o) == expected.contains(o) by {
        match o {
            Object::Task { .. } => {},
            Object::File { .. } => {},
            Object::Inode { .. } => {},
            Object::Path { .. } => {},
            Object::Tracepoint { .. } => {},
            Object::Event { .. } => {},
        }
    }
    assert(owned(t) =~= expected);
}

/// An attach that failed owns nothing and has freed the program.
pub proof fn law_a_failed_attach_leaves_nothing(s: AttachState)
    requires
        s.wf(),
        s.at is Done,
        s.status != 0,
    ensures
        s.at == (AttachReq::Done { status: s.status }),
        owned(s) == Set::<Object>::empty(),
        s.kept == no_links(),
        s.prog == 0,
{
    assert(owned(s) =~= Set::<Object>::empty());
}

/// An attach that succeeded holds nothing that its slot does not keep, and the
/// slot keeps what a probe of that kind consists of.
pub proof fn law_a_successful_attach_keeps_its_links(s: AttachState)
    requires
        s.wf(),
        s.at is Done,
        s.status == 0,
    ensures
        s.held == nothing(),
        s.linked(),
{
}

/// A failed attach leaves its slot without program and lease, and before it
/// frees the program the slot no longer names it; a successful one leaves the
/// slot both.
pub proof fn law_slot_after_attach(slot: BifrostSlot, s: AttachState)
    requires
        s.wf(),
    ensures
        s.at is Done && s.status != 0 ==> settled(slot, s).prog == 0 && settled(slot, s).lease == 0,
        s.at is FreeProg ==> settled(slot, s).prog == 0,
        s.at is Done && s.status == 0 ==> settled(slot, s).prog == slot.prog && settled(
            slot,
            s,
        ).lease == slot.lease,
{
}

/// An upper bound on the calls that are left.
pub open spec fn calls_left(s: AttachState) -> int {
    if s.ending {
        (if s.held.inode != 0 {
            1int
        } else {
            0
        }) + (if s.held.path.dentry != 0 {
            1int
        } else {
            0
        }) + (if s.held.file != 0 {
            1int
        } else {
            0
        }) + (if s.held.task != 0 {
            1int
        } else {
            0
        }) + (if s.held.btp != 0 {
            1int
        } else {
            0
        }) + (if s.held.event != 0 {
            1int
        } else {
            0
        }) + (if s.status != 0 && s.prog != 0 {
            1int
        } else {
            0
        })
    } else {
        match s.at {
            AttachReq::Trampoline { .. } => 9,
            AttachReq::LinkTrampoline { .. } => 8,
            AttachReq::GetTracepoint => 9,
            AttachReq::RegisterTracepoint { .. } => 8,
            AttachReq::CreateEvent { .. } => 9,
            AttachReq::SetEventProg { .. } => 8,
            AttachReq::Register { .. } => 8,
            AttachReq::PinPath => 9,
            AttachReq::Sleep => 8 + 2 * (PATH_ATTEMPTS - s.attempts),
            AttachReq::ResolvePath => 9 + 2 * (PATH_ATTEMPTS - s.attempts),
            AttachReq::PutFile { .. } => 700,
            AttachReq::PinFile { .. } => 701,
            AttachReq::PutTask { .. } => 702,
            AttachReq::PushSymtabs { .. } => if s.flow == Flow::UprobeBySym {
                703
            } else {
                9
            },
            AttachReq::ResolveSymbol { .. } => 704,
            AttachReq::ResolveUsdt { .. } => 704,
            AttachReq::TaskExe { .. } => 705,
            AttachReq::OpenFile => 705,
            _ => 706,
        }
    }
}

/// Every attach ends: each answer takes it closer to its end, and no call is
/// left exactly when it is there.  A path is looked up at most `PATH_ATTEMPTS`
/// times.
pub proof fn law_every_attach_ends(s: AttachState, a: AttachAnswer)
    requires
        s.wf(),
        answers(s.at, a),
    ensures
        0 <= calls_left(after(s, a)) < calls_left(s) <= 706,
        calls_left(after(s, a)) == 0 <==> after(s, a).at is Done,
        s.at is Sleep && after(s, a).at is ResolvePath ==> after(s, a).attempts == s.attempts + 1
            < PATH_ATTEMPTS,
{
}

/// The references that cleanup calls give back.
pub open spec fn given_back(ops: Seq<CleanupOp>) -> Set<Object> {
    Set::new(
        |o: Object|
            match o {
                Object::Inode { inode } => ops.contains(CleanupOp::PutInode { inode }),
                Object::Path { path } => ops.contains(CleanupOp::PutPath { path }),
                Object::Tracepoint { btp } => ops.contains(CleanupOp::PutTracepoint { btp }),
                Object::Event { event } => ops.contains(CleanupOp::ReleaseEvent { event }),
                _ => false,
            },
    )
}

proof fn lemma_op_if(due: bool, op: CleanupOp, x: CleanupOp)
    ensures
        op_if(due, op).contains(x) <==> (due && x == op),
{
    if due {
        assert(op_if(due, op)[0] == op);
    }
}

proof fn lemma_concat_contains(a: Seq<CleanupOp>, b: Seq<CleanupOp>, x: CleanupOp)
    ensures
        (a + b).contains(x) <==> (a.contains(x) || b.contains(x)),
{
    let c = a + b;
    if a.contains(x) {
        let i = choose|i: int| 0 <= i < a.len() && a[i] == x;
        assert(c[i] == x);
    }
    if b.contains(x) {
        let i = choose|i: int| 0 <= i < b.len() && b[i] == x;
        assert(c[a.len() + i] == x);
    }
}

/// Cleanup undoes attach: of a slot that held nothing before, the cleanup gives
/// back exactly the references that the attach left with the slot.
pub proof fn law_cleanup_undoes_attach(family: ProbeType, name: Seq<u8>, s: AttachState)
    requires
        s.wf(),
        s.at == (AttachReq::Done { status: 0 }),
        s.flow == flow_of(family, name),
    ensures
        given_back(cleanup_ops(family, merged(no_links(), s))) == owned(s),
{
    let l = merged(no_links(), s);
    let ops = cleanup_ops(family, l);
    assert forall|o: Object| given_back(ops).contains(o) == owned(s).contains(o) by {
        let x = match o {
            Object::Inode { inode } => CleanupOp::PutInode { inode },
            Object::Path { path } => CleanupOp::PutPath { path },
            Object::Tracepoint { btp } => CleanupOp::PutTracepoint { btp },
            Object::Event { event } => CleanupOp::ReleaseEvent { event },
            _ => CleanupOp::ReleaseEvent { event: 0 },
        };
        let u0 = op_if(l.fbt_linked, CleanupOp::UnlinkTrampoline { trampoline: l.fbt_trampoline });
        let u1 = op_if(
            l.fbt_linked && l.fbt_trampoline != 0,
            CleanupOp::PutTrampoline { trampoline: l.fbt_trampoline },
        );
        let due = l.rawtp_registered && l.rawtp_btp != 0;
        let t0 = op_if(due, CleanupOp::UnregisterTracepoint { btp: l.rawtp_btp });
        let t1 = op_if(due, CleanupOp::PutTracepoint { btp: l.rawtp_btp });
        let p0 = op_if(
            l.uprobe_handle != 0,
            CleanupOp::UnregisterUprobe { handle: l.uprobe_handle },
        );
        let p1 = op_if(l.uprobe_inode != 0, CleanupOp::PutInode { inode: l.uprobe_inode });
        let p2 = op_if(l.uprobe_path.dentry != 0, CleanupOp::PutPath { path: l.uprobe_path });
        lemma_op_if(l.fbt_linked, CleanupOp::UnlinkTrampoline { trampoline: l.fbt_trampoline }, x);
        lemma_op_if(
            l.fbt_linked && l.fbt_trampoline != 0,
            CleanupOp::PutTrampoline { trampoline: l.fbt_trampoline },
            x,
        );
        lemma_op_if(due, CleanupOp::UnregisterTracepoint { btp: l.rawtp_btp }, x);
        lemma_op_if(due, CleanupOp::PutTracepoint { btp: l.rawtp_btp }, x);
        lemma_op_if(
            l.uprobe_handle != 0,
            CleanupOp::UnregisterUprobe { handle: l.uprobe_handle },
            x,
        );
        lemma_op_if(l.uprobe_inode != 0, CleanupOp::PutInode { inode: l.uprobe_inode }, x);
        lemma_op_if(l.uprobe_path.dentry != 0, CleanupOp::PutPath { path: l.uprobe_path }, x);
        lemma_op_if(l.perf_event != 0, CleanupOp::ReleaseEvent { event: l.perf_event }, x);
        lemma_concat_contains(u0, u1, x);
        lemma_concat_contains(t0, t1, x);
        lemma_concat_contains(p0, p1, x);
        lemma_concat_contains(p0 + p1, p2, x);
    }
    assert(given_back(ops) =~= owned(s));
}

/// A slot that has been cleaned up needs no further cleanup.
pub proof fn law_cleanup_is_done_once(family: ProbeType, l: SlotLinks)
    ensures
        cleanup_ops(family, cleaned(family, l)) == Seq::<CleanupOp>::empty(),
        cleaned(family, cleaned(family, l)) == cleaned(family, l),
{
    assert(cleanup_ops(family, cleaned(family, l)) =~= Seq::<CleanupOp>::empty());
}

} // verus!
