# bifrost

Decision core of the Bifrost guest driver, verified with Verus.

The driver runs in a guest kernel.  Its host sends it commands over a virtio
control queue: probe programs to load and attach, and DTrace sessions to start.
The driver answers each command with one status event and publishes records
through a shared memory region.

`src/` is the library.  It makes no kernel call: where the driver alternates
between calls and decisions, the library holds a state that names the call that
is due and takes its answer.  Every function has a contract, and what holds of
several functions together is stated by the proof functions whose names begin
with `law_`.

| module | what it decides or encodes |
|---|---|
| `bytes`, `types`, `record_writer`, `wire`, `errno`, `bpf_consts` | integers, wire types, record buffers, discriminants, error numbers |
| `load_prog_parse`, `load_prog_wire` | the layout of a program-load command, as it is parsed and as it is sent |
| `maps`, `insn_patch`, `slots`, `guest` | the driver's tables, and patching programs against them |
| `load_prog`, `load_maps` | loading a program, from its command to the reply, and what that does to the map table |
| `attach`, `path_helpers` | attaching a probe, and cleaning it up |
| `session` | DTrace sessions, their DOF objects, and the records of the profile timer |
| `agg_snapshot`, `symtab_snapshot`, `shmem_publish` | what is published in shared memory |
| `shmem_layout`, `shmem_init` | the shared memory region and its announcement |
| `control_reply`, `worker` | command dispatch and status events |
| `device`, `teardown` | bringing the device up and taking it down |
| `kfunc_manifest` | the agreement with the C helpers |
| `dtrace_adapter` | the interface for sessions that attach their own probes |

`app/` is the driver shell.  It makes the kernel calls through a trait; the
implementation for Linux is built with `CONFIG_BIFROST_GUEST`, where the
kernel's Rust support and the host's protocol definition are at hand.
