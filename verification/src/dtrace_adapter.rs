//! The adapter between a DTrace session and the driver.
//!
//! The adapter knows which providers the driver serves.  It does not attach
//! probes yet: whatever asks for that is rejected with the reason.

use vstd::prelude::*;

use crate::bytes::str_eq;

verus! {

/// Why a request is rejected.
#[derive(Debug, Clone, Copy, PartialEq, Eq, Structural)]
pub enum RejectReason {
    ZeroMatch,
    NoProvider,
    NotImplemented,
    DestructiveDisabled,
    AggKindUnsupported,
    ResourceExhausted,
    LoweringFailed,
}

impl RejectReason {
    /// The number that stands for the reason on the wire.
    pub open spec fn number(self) -> u16 {
        match self {
            RejectReason::ZeroMatch => 1,
            RejectReason::NoProvider => 2,
            RejectReason::NotImplemented => 3,
            RejectReason::DestructiveDisabled => 4,
            RejectReason::AggKindUnsupported => 5,
            RejectReason::ResourceExhausted => 6,
            RejectReason::LoweringFailed => 7,
        }
    }

    /// Encode the reason.
    pub fn code(&self) -> (r: u16)
        ensures
            r == self.number(),
    {
        match self {
            RejectReason::ZeroMatch => 1,
            RejectReason::NoProvider => 2,
            RejectReason::NotImplemented => 3,
            RejectReason::DestructiveDisabled => 4,
            RejectReason::AggKindUnsupported => 5,
            RejectReason::ResourceExhausted => 6,
            RejectReason::LoweringFailed => 7,
        }
    }
}

/// The probe that is asked for.
pub struct ProbeTarget<'a> {
    pub provider: &'a str,
    pub module: &'a str,
    pub function: &'a str,
    pub name: &'a str,
}

/// What became of one enabling.
#[derive(Debug, Clone, Copy, PartialEq, Eq, Structural)]
pub enum EcbStatus {
    Accepted { attached_id: u64 },
    Rejected(RejectReason),
    ZeroMatch,
}

#[derive(Debug, Clone, Copy, PartialEq, Eq, Structural)]
pub enum SessionEvent {
    Begin,
    End,
}

/// The aggregating actions.
#[derive(Debug, Clone, Copy, PartialEq, Eq, Structural)]
pub enum AggKind {
    Count,
    Min,
    Max,
    Avg,
    Sum,
    StdDev,
    Quantize,
    LQuantize,
    LLQuantize,
}

impl AggKind {
    /// The number that stands for the action on the wire.
    pub open spec fn number(self) -> u32 {
        match self {
            AggKind::Count => 0x0101,
            AggKind::Min => 0x0102,
            AggKind::Max => 0x0103,
            AggKind::Avg => 0x0104,
            AggKind::Sum => 0x0105,
            AggKind::StdDev => 0x0106,
            AggKind::Quantize => 0x0107,
            AggKind::LQuantize => 0x0108,
            AggKind::LLQuantize => 0x0109,
        }
    }

    /// Encode the action.
    pub fn code(&self) -> (r: u32)
        ensures
            r == self.number(),
    {
        match self {
            AggKind::Count => 0x0101,
            AggKind::Min => 0x0102,
            AggKind::Max => 0x0103,
            AggKind::Avg => 0x0104,
            AggKind::Sum => 0x0105,
            AggKind::StdDev => 0x0106,
            AggKind::Quantize => 0x0107,
            AggKind::LQuantize => 0x0108,
            AggKind::LLQuantize => 0x0109,
        }
    }
}

/// The wire numbers tell the reasons, and the aggregating actions, apart.
pub proof fn law_wire_numbers_are_distinct(r: RejectReason, s: RejectReason, j: AggKind, k: AggKind)
    ensures
        r.number() == s.number() ==> r == s,
        j.number() == k.number() ==> j == k,
{
}

/// The providers that the driver serves.
pub open spec fn supported(provider: Seq<char>) -> bool {
    ||| provider == "fbt"@
    ||| provider == "tracepoint"@
    ||| provider == "uprobe"@
    ||| provider == "usdt"@
    ||| provider == "profile"@
    ||| provider == "bifrost"@
}

/// The adapter, with the id that the next attached probe gets.
pub struct LinuxAdapter {
    pub next_attached: u64,
}

impl LinuxAdapter {
    /// An adapter that has attached nothing.
    pub fn new() -> (r: Self)
        ensures
            r.next_attached == 0,
    {
        LinuxAdapter { next_attached: 0 }
    }

    /// Tell whether the driver serves a provider.
    pub fn provider_supports(&self, provider: &str) -> (r: bool)
        ensures
            r == supported(provider@),
    {
        str_eq(provider, "fbt") || str_eq(provider, "tracepoint") || str_eq(provider, "uprobe")
            || str_eq(provider, "usdt") || str_eq(provider, "profile") || str_eq(
            provider,
            "bifrost",
        )
    }

    /// Attach a probe.  A provider that the driver does not serve is told apart
    /// from one that it does.
    pub fn attach_probe(&mut self, target: ProbeTarget<'_>) -> (r: Result<u64, RejectReason>)
        ensures
            r == Err::<u64, RejectReason>(
                if supported(target.provider@) {
                    RejectReason::NotImplemented
                } else {
                    RejectReason::NoProvider
                },
            ),
            *final(self) == *old(self),
    {
        if !self.provider_supports(target.provider) {
            return Err(RejectReason::NoProvider);
        }
        Err(RejectReason::NotImplemented)
    }

    /// Bind a predicate to an attached probe.
    pub fn bind_predicate(&mut self, _attached_id: u64, _difo_bytes: &[u8]) -> (r:
        Result<(), RejectReason>)
        ensures
            r == Err::<(), RejectReason>(RejectReason::NotImplemented),
            *final(self) == *old(self),
    {
        Err(RejectReason::NotImplemented)
    }

    /// Add an action to an attached probe.
    pub fn record_action(&mut self, _attached_id: u64, _kind: u32, _difo_bytes: &[u8]) -> (r:
        Result<(), RejectReason>)
        ensures
            r == Err::<(), RejectReason>(RejectReason::NotImplemented),
            *final(self) == *old(self),
    {
        Err(RejectReason::NotImplemented)
    }

    /// Declare an aggregation.
    pub fn declare_aggregation(&mut self, _var_id: u32, _kind: AggKind, _bucket_count: u32) -> (r:
        Result<(), RejectReason>)
        ensures
            r == Err::<(), RejectReason>(RejectReason::NotImplemented),
            *final(self) == *old(self),
    {
        Err(RejectReason::NotImplemented)
    }

    /// Detach a probe.  No probe is ever attached, so there is nothing to do.
    pub fn detach_probe(&mut self, _attached_id: u64)
        ensures
            *final(self) == *old(self),
    {
    }

    /// Take notice that the session begins or ends.
    pub fn on_session_event(&mut self, _event: SessionEvent)
        ensures
            *final(self) == *old(self),
    {
    }
}

/// The providers are these six and no others.
pub proof fn law_which_providers_are_served(p: Seq<char>)
    ensures
        supported(p) <==> {
            ||| p == seq!['f', 'b', 't']
            ||| p == seq!['t', 'r', 'a', 'c', 'e', 'p', 'o', 'i', 'n', 't']
            ||| p == seq!['u', 'p', 'r', 'o', 'b', 'e']
            ||| p == seq!['u', 's', 'd', 't']
            ||| p == seq!['p', 'r', 'o', 'f', 'i', 'l', 'e']
            ||| p == seq!['b', 'i', 'f', 'r', 'o', 's', 't']
        },
{
    reveal_strlit("fbt");
    reveal_strlit("tracepoint");
    reveal_strlit("uprobe");
    reveal_strlit("usdt");
    reveal_strlit("profile");
    reveal_strlit("bifrost");
    assert("fbt"@ =~= seq!['f', 'b', 't']);
    assert("tracepoint"@ =~= seq!['t', 'r', 'a', 'c', 'e', 'p', 'o', 'i', 'n', 't']);
    assert("uprobe"@ =~= seq!['u', 'p', 'r', 'o', 'b', 'e']);
    assert("usdt"@ =~= seq!['u', 's', 'd', 't']);
    assert("profile"@ =~= seq!['p', 'r', 'o', 'f', 'i', 'l', 'e']);
    assert("bifrost"@ =~= seq!['b', 'i', 'f', 'r', 'o', 's', 't']);
}

} // verus!
