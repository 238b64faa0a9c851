//! The decisions of the worker thread.

use vstd::prelude::*;

use crate::bytes::{le_u32, read_u32_le_unaligned};
use crate::types::CMD_HDR;

verus! {

/// Operation of a program load.
pub const OP_LOAD_PROG: u32 = 2;

/// Operation of a DTrace session.
pub const OP_DTRACE_SESSION: u32 = 3;

/// Ticks of the worker between two snapshots of the aggregations.
pub const SNAPSHOT_TICKS: u32 = 10;

/// Whether a buffer of `len` bytes that came over the control queue holds a
/// command.
pub fn is_command(len: u32) -> (r: bool)
    ensures
        r == (len >= CMD_HDR),
{
    len as u64 >= CMD_HDR as u64
}

/// What the worker does with a command.
#[derive(Clone, Copy, PartialEq, Eq, Structural, Debug)]
pub enum Command {
    /// Too short to have a header: complete it with status 0.
    Short,
    /// Load a program.
    LoadProg,
    /// Start a DTrace session.
    Session,
    /// An operation that the driver does not know: a fault of the host.
    Unknown { op: u32 },
}

/// What the worker does with the command that the first `cmd_len` bytes of the
/// control buffer hold.
pub open spec fn command(buf: Seq<u8>, cmd_len: int) -> Command {
    let op = le_u32(buf, 0);
    if cmd_len < CMD_HDR {
        Command::Short
    } else if op == OP_DTRACE_SESSION {
        Command::Session
    } else if op == OP_LOAD_PROG {
        Command::LoadProg
    } else {
        Command::Unknown { op }
    }
}

/// Decide what to do with a command.
pub fn classify_command(buf: &[u8], cmd_len: usize) -> (r: Command)
    requires
        cmd_len <= buf@.len(),
    ensures
        r == command(buf@, cmd_len as int),
{
    if cmd_len < CMD_HDR {
        return Command::Short;
    }
    let op: u32 = read_u32_le_unaligned(buf, 0);
    if op == OP_DTRACE_SESSION {
        Command::Session
    } else if op == OP_LOAD_PROG {
        Command::LoadProg
    } else {
        Command::Unknown { op }
    }
}

/// The tick that follows `tick`; the counter wraps.
pub open spec fn tick_after(tick: u32) -> u32 {
    if tick == u32::MAX {
        0
    } else {
        (tick + 1) as u32
    }
}

/// Count a tick of the worker, and tell whether a snapshot is due: at every
/// tenth tick, while there are maps.
pub fn worker_tick(tick: u32, num_maps: usize) -> (r: (u32, bool))
    ensures
        r.0 == tick_after(tick),
        r.1 == (tick_after(tick) % SNAPSHOT_TICKS == 0 && num_maps > 0),
{
    let next: u32 = if tick == u32::MAX {
        0
    } else {
        tick + 1
    };
    (next, next % SNAPSHOT_TICKS == 0 && num_maps > 0)
}

/// The tick that follows `tick` after `k` ticks.
pub open spec fn nth_tick(tick: u32, k: nat) -> u32
    decreases k,
{
    if k == 0 {
        tick
    } else {
        tick_after(nth_tick(tick, (k - 1) as nat))
    }
}

proof fn lemma_nth_tick(tick: u32, k: nat)
    requires
        tick + k <= u32::MAX,
    ensures
        nth_tick(tick, k) == tick + k,
    decreases k,
{
    if k > 0 {
        lemma_nth_tick(tick, (k - 1) as nat);
    }
}

/// Among any ten ticks in a row, until the counter wraps, there is exactly one
/// at which a snapshot is due.
pub proof fn law_one_snapshot_in_ten_ticks(tick: u32)
    requires
        tick + SNAPSHOT_TICKS <= u32::MAX,
    ensures
        exists|k: nat|
            1 <= k <= SNAPSHOT_TICKS && #[trigger] nth_tick(tick, k) % SNAPSHOT_TICKS == 0,
        forall|j: nat, k: nat|
            1 <= j <= SNAPSHOT_TICKS && 1 <= k <= SNAPSHOT_TICKS && #[trigger] nth_tick(tick, j)
                % SNAPSHOT_TICKS == 0 && #[trigger] nth_tick(tick, k) % SNAPSHOT_TICKS == 0 ==> j
                == k,
{
    let k = (SNAPSHOT_TICKS - tick % SNAPSHOT_TICKS) as nat;
    lemma_nth_tick(tick, k);
    assert(nth_tick(tick, k) % SNAPSHOT_TICKS == 0);
    assert forall|j: nat, k: nat|
        1 <= j <= SNAPSHOT_TICKS && 1 <= k <= SNAPSHOT_TICKS && #[trigger] nth_tick(tick, j)
            % SNAPSHOT_TICKS == 0 && #[trigger] nth_tick(tick, k) % SNAPSHOT_TICKS == 0 implies j
        == k by {
        lemma_nth_tick(tick, j);
        lemma_nth_tick(tick, k);
    }
}

/// A command is known by its first word: 2 loads a program, 3 starts a session,
/// and anything else is unknown; what has no eight bytes has no command.
pub proof fn law_commands_by_their_first_word(buf: Seq<u8>, cmd_len: int)
    ensures
        command(buf, cmd_len) is Short <==> cmd_len < 8,
        command(buf, cmd_len) is LoadProg <==> cmd_len >= 8 && le_u32(buf, 0) == 2,
        command(buf, cmd_len) is Session <==> cmd_len >= 8 && le_u32(buf, 0) == 3,
        command(buf, cmd_len) is Unknown ==> command(buf, cmd_len) == (Command::Unknown {
            op: le_u32(buf, 0),
        }),
{
}

/// The tick counts up by one and starts again at zero after its last value.
pub proof fn law_ticks_count_around(tick: u32)
    ensures
        tick_after(tick) == (tick + 1) % 0x1_0000_0000,
{
}

/// Ten ticks further on, until the counter wraps, a snapshot is due again, and
/// at no tick between.
pub proof fn law_snapshots_come_every_ten_ticks(tick: u32, k: nat)
    requires
        tick % 10 == 0,
        tick + k <= u32::MAX,
    ensures
        nth_tick(tick, k) % SNAPSHOT_TICKS == 0 <==> k % 10 == 0,
{
    lemma_nth_tick(tick, k);
}

} // verus!
