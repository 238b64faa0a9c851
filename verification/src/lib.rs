//! Decision core of the Bifrost guest driver.
//!
//! The driver receives probe programs from its host over a virtio control
//! queue, loads and attaches them, and publishes records through a shared
//! memory region.  Everything the driver decides or encodes is a function of
//! plain values and stands here with its contract; the calls into the kernel
//! are made by the driver shell around this crate.
//!
//! Kernel pointers appear as `u64` handles, where `0` is the null pointer.

pub mod agg_rows;
pub mod agg_snapshot;
pub mod attach;
pub mod attach_flows;
pub mod bpf_consts;
pub mod bytes;
pub mod control_reply;
pub mod device;
pub mod dtrace_adapter;
pub mod errno;
pub mod guest;
pub mod insn_patch;
pub mod kfunc_manifest;
pub mod load_maps;
pub mod load_prog;
pub mod load_prog_parse;
pub mod load_prog_wire;
pub mod load_steps;
pub mod maps;
pub mod path_helpers;
pub mod record_writer;
pub mod session;
pub mod session_period;
pub mod shmem_init;
pub mod shmem_layout;
pub mod shmem_publish;
pub mod slots;
pub mod symtab_snapshot;
pub mod teardown;
pub mod types;
pub mod wire;
pub mod worker;
