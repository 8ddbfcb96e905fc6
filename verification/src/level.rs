use vstd::prelude::*;

verus! {

/// Severity of a captured event, ordered from least to most severe.
#[derive(Clone, Copy, PartialEq, Eq, Structural, Debug)]
pub enum Severity {
    Trace,
    Debug,
    Info,
    Warn,
    Error,
}

/// The lower-case name of a severity, as it appears in the `level` label.
pub open spec fn spec_severity_name(level: Severity) -> Seq<char> {
    match level {
        Severity::Trace => "trace"@,
        Severity::Debug => "debug"@,
        Severity::Info => "info"@,
        Severity::Warn => "warn"@,
        Severity::Error => "error"@,
    }
}

impl Severity {
    /// Rank in the total severity order: `Trace` is lowest, `Error` highest.
    pub open spec fn spec_rank(self) -> int {
        match self {
            Severity::Trace => 0,
            Severity::Debug => 1,
            Severity::Info => 2,
            Severity::Warn => 3,
            Severity::Error => 4,
        }
    }

    pub fn rank(&self) -> (r: u8)
        ensures
            r as int == self.spec_rank(),
    {
        match self {
            Severity::Trace => 0,
            Severity::Debug => 1,
            Severity::Info => 2,
            Severity::Warn => 3,
            Severity::Error => 4,
        }
    }

    pub fn name(&self) -> (r: &'static str)
        ensures
            r@ == spec_severity_name(*self),
    {
        match self {
            Severity::Trace => "trace",
            Severity::Debug => "debug",
            Severity::Info => "info",
            Severity::Warn => "warn",
            Severity::Error => "error",
        }
    }
}

/// The severities from least to most severe; the batch encoder walks them
/// in this order, so the streams of a batch come out deterministically.
pub open spec fn severity_order() -> Seq<Severity> {
    seq![Severity::Trace, Severity::Debug, Severity::Info, Severity::Warn, Severity::Error]
}

/// All severities, in rank order.
pub fn all_severities() -> (r: Vec<Severity>)
    ensures
        r@ == severity_order(),
        r@.len() == 5,
        forall|i: int| 0 <= i < 5 ==> (#[trigger] r@[i]).spec_rank() == i,
{
    let mut v: Vec<Severity> = Vec::new();
    v.push(Severity::Trace);
    v.push(Severity::Debug);
    v.push(Severity::Info);
    v.push(Severity::Warn);
    v.push(Severity::Error);
    proof {
        assert(v@ =~= severity_order());
    }
    v
}

} // verus!
