//! Discriminants of the host-guest wire format.
//!
//! Values that the host's protocol definition assigns come in as tables; the
//! driver shell fills them in from that definition.

use vstd::prelude::*;

verus! {

/// Cap on concurrently attached probe slots.
pub const MAX_PROBE_SLOTS: usize = 256;

pub const AGG_KIND_SUM: u8 = 0;

pub const AGG_KIND_MIN: u8 = 1;

pub const AGG_KIND_MAX: u8 = 2;

pub const AGG_KIND_AVG: u8 = 3;

pub const AGG_SNAPSHOT_PROBE_ID: u32 = 0xFFFF_FFFD;

pub const AGG_SNAPSHOT_SCHEMA_V1: u64 = 1;

pub const AGG_SNAPSHOT_ROW_KIND_COUNT: u8 = 1;

pub const AGG_SNAPSHOT_ROW_KIND_QUANTIZE: u8 = 7;

pub const DTRACE_QUANTIZE_NBUCKETS: usize = 127;

/// Eight bytes for each quantize bucket.
pub const QUANTIZE_VALUE_SIZE: u32 = 1016;

/// The probe families that the driver knows.
#[derive(Clone, Copy, PartialEq, Eq, Structural, Debug)]
pub enum ProbeType {
    /// A slot that was never registered.
    Unregistered,
    Fentry,
    Fexit,
    Tracepoint,
    Uprobe,
    Uretprobe,
    UprobeBySym,
    UretprobeBySym,
    Usdt,
    ProfileTimer,
    /// A discriminant that names no family, the retired kprobe ones among them.
    Unknown,
}

/// The discriminant of each probe family.
#[derive(Clone, Copy, PartialEq, Eq, Structural, Debug)]
pub struct ProbeTypeCodes {
    pub none: u8,
    pub fentry: u8,
    pub fexit: u8,
    pub tracepoint: u8,
    pub uprobe: u8,
    pub uretprobe: u8,
    pub uprobe_by_sym: u8,
    pub uretprobe_by_sym: u8,
    pub usdt: u8,
    pub profile_timer: u8,
}

impl ProbeTypeCodes {
    /// The discriminant of family `t`, for a family that has one.
    pub open spec fn code(self, t: ProbeType) -> u8
        recommends
            t != ProbeType::Unknown,
    {
        match t {
            ProbeType::Unregistered => self.none,
            ProbeType::Fentry => self.fentry,
            ProbeType::Fexit => self.fexit,
            ProbeType::Tracepoint => self.tracepoint,
            ProbeType::Uprobe => self.uprobe,
            ProbeType::Uretprobe => self.uretprobe,
            ProbeType::UprobeBySym => self.uprobe_by_sym,
            ProbeType::UretprobeBySym => self.uretprobe_by_sym,
            ProbeType::Usdt => self.usdt,
            ProbeType::ProfileTimer => self.profile_timer,
            ProbeType::Unknown => arbitrary(),
        }
    }

    /// No two families share a discriminant.
    pub open spec fn distinct(self) -> bool {
        forall|s: ProbeType, t: ProbeType|
            s != ProbeType::Unknown && t != ProbeType::Unknown && #[trigger] self.code(s)
                == #[trigger] self.code(t) ==> s == t
    }

    /// The family that discriminant `b` names.
    pub open spec fn family(self, b: u8) -> ProbeType {
        if b == self.fentry {
            ProbeType::Fentry
        } else if b == self.fexit {
            ProbeType::Fexit
        } else if b == self.tracepoint {
            ProbeType::Tracepoint
        } else if b == self.uprobe {
            ProbeType::Uprobe
        } else if b == self.uretprobe {
            ProbeType::Uretprobe
        } else if b == self.uprobe_by_sym {
            ProbeType::UprobeBySym
        } else if b == self.uretprobe_by_sym {
            ProbeType::UretprobeBySym
        } else if b == self.usdt {
            ProbeType::Usdt
        } else if b == self.profile_timer {
            ProbeType::ProfileTimer
        } else if b == self.none {
            ProbeType::Unregistered
        } else {
            ProbeType::Unknown
        }
    }

    /// Classify a discriminant.
    pub fn probe_type(&self, b: u8) -> (t: ProbeType)
        ensures
            t == self.family(b),
    {
        if b == self.fentry {
            ProbeType::Fentry
        } else if b == self.fexit {
            ProbeType::Fexit
        } else if b == self.tracepoint {
            ProbeType::Tracepoint
        } else if b == self.uprobe {
            ProbeType::Uprobe
        } else if b == self.uretprobe {
            ProbeType::Uretprobe
        } else if b == self.uprobe_by_sym {
            ProbeType::UprobeBySym
        } else if b == self.uretprobe_by_sym {
            ProbeType::UretprobeBySym
        } else if b == self.usdt {
            ProbeType::Usdt
        } else if b == self.profile_timer {
            ProbeType::ProfileTimer
        } else if b == self.none {
            ProbeType::Unregistered
        } else {
            ProbeType::Unknown
        }
    }
}

/// With distinct discriminants, a family's discriminant names that family, and
/// a byte names a family only if it is that family's discriminant.
pub proof fn law_probe_type_codes(codes: ProbeTypeCodes, t: ProbeType, b: u8)
    requires
        codes.distinct(),
        t != ProbeType::Unknown,
    ensures
        codes.family(codes.code(t)) == t,
        codes.family(b) == t ==> b == codes.code(t),
{
    let c = codes.code(t);
    let s = codes.family(c);
    assert(s != ProbeType::Unknown);
    assert(codes.code(s) == c);
}

/// The aggregation and record discriminants that the host assigns.
#[derive(Clone, Copy, PartialEq, Eq, Structural, Debug)]
pub struct RecordCodes {
    /// Map flag of a standard-deviation aggregation.
    pub agg_kind_stddev: u8,
    /// Map flag of a quantize aggregation.
    pub agg_kind_quantize: u8,
    pub row_kind_unknown: u8,
    pub row_kind_min: u8,
    pub row_kind_max: u8,
    pub row_kind_avg: u8,
    pub row_kind_sum: u8,
    pub row_kind_stddev: u8,
    /// Probe id of a symbol-table record.
    pub sym_table_probe_magic: u32,
}

/// Each discriminant names its own family, and a byte that is none of them names
/// none.
pub proof fn law_families_by_their_discriminants(c: ProbeTypeCodes, b: u8)
    requires
        c.distinct(),
    ensures
        c.family(b) is Unregistered <==> b == c.none,
        c.family(b) is Fentry <==> b == c.fentry,
        c.family(b) is Fexit <==> b == c.fexit,
        c.family(b) is Tracepoint <==> b == c.tracepoint,
        c.family(b) is Uprobe <==> b == c.uprobe,
        c.family(b) is Uretprobe <==> b == c.uretprobe,
        c.family(b) is UprobeBySym <==> b == c.uprobe_by_sym,
        c.family(b) is UretprobeBySym <==> b == c.uretprobe_by_sym,
        c.family(b) is Usdt <==> b == c.usdt,
        c.family(b) is ProfileTimer <==> b == c.profile_timer,
{
    law_probe_type_codes(c, ProbeType::Unregistered, b);
    law_probe_type_codes(c, ProbeType::Fentry, b);
    law_probe_type_codes(c, ProbeType::Fexit, b);
    law_probe_type_codes(c, ProbeType::Tracepoint, b);
    law_probe_type_codes(c, ProbeType::Uprobe, b);
    law_probe_type_codes(c, ProbeType::Uretprobe, b);
    law_probe_type_codes(c, ProbeType::UprobeBySym, b);
    law_probe_type_codes(c, ProbeType::UretprobeBySym, b);
    law_probe_type_codes(c, ProbeType::Usdt, b);
    law_probe_type_codes(c, ProbeType::ProfileTimer, b);
}

} // verus!
