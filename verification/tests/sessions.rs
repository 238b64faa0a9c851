use bifrost::session::{
    count_record, dtrace_session_extract_profile_period_ns, parse_tick_period_ns, plan_session,
    principal_record, quantize_record, session_status, SessionFault, SessionPlan, SessionTimer,
    DIAGNOSTIC_PROBE_ID, TICK_PROBE_ID,
};

#[test]
fn tick_periods() {
    let want: [(&[u8], Option<u64>); 21] = [
        (b"100ms", Some(100_000_000)),
        (b"5us", Some(5_000)),
        (b"7ns", Some(7)),
        (b"2sec", Some(2_000_000_000)),
        (b"3s", None),
        (b"1000hz", Some(1_000_000)),
        (b"97", None),
        (b"97hz", Some(10_309_278)),
        (b"2000000000hz", Some(0)),
        (b"0ms", None),
        (b"", None),
        (b"ms", None),
        (b"5m", None),
        (b"5 ms", None),
        (b"5MS", None),
        (b"-5ms", None),
        (b"18446744073709551615ns", Some(u64::MAX)),
        (b"18446744073709551616ns", None),
        (b"99999999999999999999999ns", None),
        (b"18446744073709552ms", None),
        (b"000000000000000000000000001ms", Some(1_000_000)),
    ];
    for (s, p) in want {
        assert_eq!(parse_tick_period_ns(s), p, "{:?}", s);
    }
}

struct Dof {
    secnum: u32,
    secsize: u32,
    secoff: u64,
    rows: Vec<(u32, u32, u64, u64)>,
    tail: Vec<u8>,
}

impl Dof {
    fn new(rows: Vec<(u32, u32, u64, u64)>, tail: Vec<u8>) -> Dof {
        Dof { secnum: rows.len() as u32, secsize: 32, secoff: 64, rows, tail }
    }

    fn bytes(&self) -> Vec<u8> {
        let mut b = vec![0x7f, b'D', b'O', b'F'];
        b.extend([0; 12]);
        b.extend(0u32.to_le_bytes());
        b.extend(64u32.to_le_bytes());
        b.extend(self.secsize.to_le_bytes());
        b.extend(self.secnum.to_le_bytes());
        b.extend(self.secoff.to_le_bytes());
        b.extend([0; 24]);
        for (kind, entsize, off, size) in &self.rows {
            b.extend(kind.to_le_bytes());
            b.extend([0; 8]);
            b.extend(entsize.to_le_bytes());
            b.extend(off.to_le_bytes());
            b.extend(size.to_le_bytes());
        }
        b.extend(&self.tail);
        b
    }

    fn period(&self) -> Option<u64> {
        dtrace_session_extract_profile_period_ns(&self.bytes())
    }
}

fn probe(name_off: u32) -> Vec<u8> {
    let mut r = vec![0; 16];
    r.extend(name_off.to_le_bytes());
    r
}

// two sections: the table of strings, then the probe descriptions
fn two_sections(strings: &[u8], probes: &[u32]) -> Dof {
    let s = 64 + 64;
    let p = s + strings.len() as u64;
    let mut tail = strings.to_vec();
    for n in probes {
        tail.extend(probe(*n));
    }
    Dof::new(
        vec![(8, 0, s, strings.len() as u64), (4, 20, p, 20 * probes.len() as u64)],
        tail,
    )
}

#[test]
fn the_period_of_a_dof_object() {
    assert_eq!(two_sections(b"\0tick-100ms\0", &[1]).period(), Some(100_000_000));
    // the first probe that is a tick
    assert_eq!(two_sections(b"BEGIN\0tick-5us\0tick-9us\0", &[0, 6, 15]).period(), Some(5_000));
    // a name that does not parse is passed over
    assert_eq!(two_sections(b"tick-3s\0tick-9us\0", &[0, 8]).period(), Some(9_000));
    assert_eq!(two_sections(b"tick-x\0tick-9us\0", &[0, 7]).period(), Some(9_000));
    // a name without terminator ends with its table
    assert_eq!(two_sections(b"tick-1sec", &[0]).period(), Some(1_000_000_000));
    assert_eq!(two_sections(b"tock-1sec\0", &[0]).period(), None);
    assert_eq!(two_sections(b"tick-1sec\0", &[10]).period(), None);
    assert_eq!(two_sections(b"tick-1sec\0", &[]).period(), None);
}

#[test]
fn malformed_dof_objects_have_no_period() {
    let good = two_sections(b"tick-1sec\0", &[0]);
    assert_eq!(good.period(), Some(1_000_000_000));
    let b = good.bytes();
    assert_eq!(dtrace_session_extract_profile_period_ns(&[]), None);
    assert_eq!(dtrace_session_extract_profile_period_ns(&b[..63]), None);
    let mut bad = b.clone();
    bad[0] = 0x7e;
    assert_eq!(dtrace_session_extract_profile_period_ns(&bad), None);
    let mut d = two_sections(b"tick-1sec\0", &[0]);
    d.secsize = 31;
    assert_eq!(d.period(), None);
    let mut d = two_sections(b"tick-1sec\0", &[0]);
    d.secnum = u32::MAX;
    assert_eq!(d.period(), None);
    let mut d = two_sections(b"tick-1sec\0", &[0]);
    d.secoff = u64::MAX;
    assert_eq!(d.period(), None);
    // a section whose end is no offset spoils the object, wherever it stands
    let mut d = two_sections(b"tick-1sec\0", &[0]);
    d.rows[0].2 = u64::MAX;
    assert_eq!(d.period(), None);
    // one that lies outside is passed over
    let mut d = two_sections(b"tick-1sec\0", &[0]);
    d.rows[0].3 = 1000;
    assert_eq!(d.period(), None);
    // entries that are too short have no name
    let mut d = two_sections(b"tick-1sec\0", &[0]);
    d.rows[1].1 = 19;
    assert_eq!(d.period(), None);
}

#[test]
fn only_the_first_eight_string_tables_are_searched() {
    let at = |place: usize| {
        let n = 10;
        let base = 64 + 32 * (n as u64 + 1);
        let mut rows = vec![];
        for i in 0..n {
            rows.push(if i == place { (8, 0, base, 10) } else { (8, 0, base + 10, 2) });
        }
        rows.push((4, 20, base + 12, 20));
        let mut tail = b"tick-1sec\0x\0".to_vec();
        tail.extend(probe(0));
        Dof::new(rows, tail).period()
    };
    assert_eq!(at(0), Some(1_000_000_000));
    assert_eq!(at(7), Some(1_000_000_000));
    assert_eq!(at(8), None);
}

fn envelope(dof_off: u64, dof_len: u64, dof: &[u8]) -> Vec<u8> {
    let mut p = b"DTS1".to_vec();
    p.extend(1u16.to_le_bytes());
    p.resize(32, 0);
    p.extend(dof_off.to_le_bytes());
    p.extend(dof_len.to_le_bytes());
    p.resize(96, 0);
    p.extend(dof);
    p
}

#[test]
fn a_session_attaches_at_the_period_of_its_probe() {
    let dof = two_sections(b"tick-10ms\0", &[0]).bytes();
    // offsets count from the command header
    let p = envelope(8 + 96, dof.len() as u64, &dof);
    let plan = plan_session(&p);
    assert_eq!(plan, SessionPlan::Attach { period_ns: 10_000_000, fallback: false });
    assert_eq!(session_status(&plan), 0);
}

#[test]
fn a_session_without_tick_falls_back() {
    let want = SessionPlan::Attach { period_ns: 100_000_000, fallback: true };
    assert_eq!(plan_session(&envelope(104, 0, &[])), want);
    assert_eq!(plan_session(&envelope(0, 96, &[])), want);
    assert_eq!(plan_session(&envelope(3, 96, &[])), want);
    assert_eq!(session_status(&want), 0);
}

#[test]
fn bad_sessions_are_rejected() {
    let reject = |p: &[u8], fault: SessionFault| {
        let plan = plan_session(p);
        assert_eq!(plan, SessionPlan::Reject { fault });
        assert_eq!(session_status(&plan), -22);
    };
    let good = envelope(104, 0, &[]);
    reject(&good[..95], SessionFault::ShortEnvelope);
    reject(&[], SessionFault::ShortEnvelope);
    let mut p = good.clone();
    p[3] = b'2';
    reject(&p, SessionFault::BadMagic);
    let mut p = good.clone();
    p[4] = 2;
    reject(&p, SessionFault::WireMajor { found: 2 });
    let mut p = good.clone();
    p[5] = 1;
    reject(&p, SessionFault::WireMajor { found: 257 });
    reject(&envelope(104, 1, &[]), SessionFault::DofOutOfBounds);
    reject(&envelope(105, 0, &[]), SessionFault::DofOutOfBounds);
    reject(&envelope(8, u64::MAX, &[]), SessionFault::DofOutOfBounds);
}

#[test]
fn a_dof_end_past_all_offsets_is_told_apart() {
    assert_eq!(plan_session(&envelope(9, u64::MAX, &[])), SessionPlan::DofEndOverflows);
    assert_eq!(plan_session(&envelope(u64::MAX, 9, &[])), SessionPlan::DofEndOverflows);
}

#[test]
fn at_most_one_timer_is_live() {
    let mut t = SessionTimer::new();
    assert_eq!(t.release(), None);
    assert_eq!(t.created(0x5000), 0);
    assert_eq!(t.release(), Some(0x5000));
    assert_eq!(t.event, 0);
    assert_eq!(t.created((-19i64) as u64), -19);
    assert_eq!(t.event, 0);
    assert_eq!(t.created((-4095i64) as u64), -4095);
    assert_eq!(t.created((-4096i64) as u64), 0);
}

#[test]
fn principal_records() {
    let r = principal_record(TICK_PROBE_ID, 0x0102, 1);
    let mut want = vec![0, 0, 0, 0, 1, 0, 0, 0];
    want.extend(0x0102u64.to_le_bytes());
    want.extend([0; 8]);
    want.extend(1u64.to_le_bytes());
    assert_eq!(r, want);
    assert_eq!(principal_record(DIAGNOSTIC_PROBE_ID, 0, 0)[4], 99);
}

#[test]
fn count_records() {
    let r = count_record(3, 17);
    assert_eq!(r.len(), 60);
    assert_eq!(&r[..8], &[0, 0, 0, 0, 0xfd, 0xff, 0xff, 0xff]);
    assert_eq!(&r[8..16], &3u64.to_le_bytes());
    assert_eq!(&r[16..24], &1u64.to_le_bytes());
    assert_eq!(&r[24..28], &1u32.to_le_bytes());
    assert_eq!(&r[28..32], &200i32.to_le_bytes());
    assert_eq!(&r[32..40], &[1, 0, 0, 0, 8, 0, 0, 0]);
    assert_eq!(&r[40..48], b"all\0\0\0\0\0");
    assert_eq!(&r[48..52], &8u32.to_le_bytes());
    assert_eq!(&r[52..60], &17u64.to_le_bytes());
}

#[test]
fn quantize_records() {
    let r = quantize_record(3, 17);
    assert_eq!(r.len(), 1060);
    assert_eq!(&r[..32], &count_record(3, 17)[..32]);
    assert_eq!(&r[32..40], &[7, 0, 0, 0, 0, 0, 0, 0]);
    assert_eq!(&r[40..44], &1016u32.to_le_bytes());
    for i in 0..127 {
        let b = &r[44 + 8 * i..52 + 8 * i];
        assert_eq!(b, &(if i == 63 { 17u64 } else { 0 }).to_le_bytes());
    }
}
