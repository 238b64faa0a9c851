//! BPF kernel-API constants.

use vstd::prelude::*;

verus! {

pub const BPF_MAP_TYPE_ARRAY: u32 = 2;

pub const BPF_MAP_TYPE_PERCPU_ARRAY: u32 = 6;

pub const BPF_MAP_TYPE_RINGBUF: u32 = 27;

/// The two-slot 64-bit immediate load.
pub const BPF_LD_IMM64: u8 = 0x18;

/// Source-register marker of an immediate that is a map handle.
pub const BPF_PSEUDO_MAP_FD: u8 = 1;

pub const BPF_PROG_TYPE_PERF_EVENT: u32 = 7;

pub const BPF_PROG_TYPE_RAW_TRACEPOINT: u32 = 17;

pub const BPF_PROG_TYPE_TRACING: u32 = 26;

pub const BPF_TRACE_FENTRY: u32 = 24;

pub const BPF_TRACE_FEXIT: u32 = 25;

} // verus!
