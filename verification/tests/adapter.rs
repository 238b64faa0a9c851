use bifrost::dtrace_adapter::{AggKind, LinuxAdapter, ProbeTarget, RejectReason, SessionEvent};

fn target(provider: &'static str) -> ProbeTarget<'static> {
    ProbeTarget { provider, module: "vmlinux", function: "schedule", name: "entry" }
}

#[test]
fn supported_providers() {
    let a = LinuxAdapter::new();
    for p in ["fbt", "tracepoint", "uprobe", "usdt", "profile", "bifrost"] {
        assert!(a.provider_supports(p));
    }
    for p in ["", "fb", "fbt ", "FBT", "syscall", "kprobe", "profil\u{e9}"] {
        assert!(!a.provider_supports(p));
    }
}

#[test]
fn attach_is_rejected_with_the_reason() {
    let mut a = LinuxAdapter::new();
    assert_eq!(a.attach_probe(target("fbt")), Err(RejectReason::NotImplemented));
    assert_eq!(a.attach_probe(target("syscall")), Err(RejectReason::NoProvider));
    assert_eq!(a.next_attached, 0);
}

#[test]
fn the_other_requests_are_rejected() {
    let mut a = LinuxAdapter::new();
    assert_eq!(a.bind_predicate(1, &[1, 2]), Err(RejectReason::NotImplemented));
    assert_eq!(a.record_action(1, 2, &[]), Err(RejectReason::NotImplemented));
    assert_eq!(
        a.declare_aggregation(1, AggKind::Count, 0),
        Err(RejectReason::NotImplemented)
    );
    assert_eq!(
        a.declare_aggregation(7, AggKind::LLQuantize, 64),
        Err(RejectReason::NotImplemented)
    );
    a.detach_probe(1);
    a.on_session_event(SessionEvent::Begin);
    a.on_session_event(SessionEvent::End);
    assert_eq!(a.next_attached, 0);
}

#[test]
fn wire_numbers() {
    let reasons = [
        RejectReason::ZeroMatch,
        RejectReason::NoProvider,
        RejectReason::NotImplemented,
        RejectReason::DestructiveDisabled,
        RejectReason::AggKindUnsupported,
        RejectReason::ResourceExhausted,
        RejectReason::LoweringFailed,
    ];
    for (i, r) in reasons.iter().enumerate() {
        assert_eq!(r.code() as usize, i + 1);
    }
    let kinds = [
        AggKind::Count,
        AggKind::Min,
        AggKind::Max,
        AggKind::Avg,
        AggKind::Sum,
        AggKind::StdDev,
        AggKind::Quantize,
        AggKind::LQuantize,
        AggKind::LLQuantize,
    ];
    for (i, k) in kinds.iter().enumerate() {
        assert_eq!(k.code() as usize, 0x0101 + i);
    }
}
