//! Severity levels and how a threshold filters them.
use vstd::prelude::*;

verus! {

/// The severity of a record, from the gravest to the most verbose.
#[derive(Clone, Copy, Debug, PartialEq, Eq, Structural)]
pub enum Level {
    Error,
    Warn,
    Info,
    Debug,
    Trace,
}

impl Level {
    /// The place of a level in the order: 1 for `Error` up to 5 for `Trace`.
    pub open spec fn spec_ordinal(self) -> int {
        match self {
            Level::Error => 1,
            Level::Warn => 2,
            Level::Info => 3,
            Level::Debug => 4,
            Level::Trace => 5,
        }
    }

    /// The name that a record shows for a level.
    pub open spec fn spec_name(self) -> Seq<char> {
        match self {
            Level::Error => "ERROR"@,
            Level::Warn => "WARN"@,
            Level::Info => "INFO"@,
            Level::Debug => "DEBUG"@,
            Level::Trace => "TRACE"@,
        }
    }

    /// Whether a record of this level passes a sink whose threshold is
    /// `threshold`: it does unless it is more verbose.
    pub open spec fn spec_passes(self, threshold: Level) -> bool {
        self.spec_ordinal() <= threshold.spec_ordinal()
    }

    pub fn ordinal(self) -> (n: u8)
        ensures
            n == self.spec_ordinal(),
    {
        match self {
            Level::Error => 1,
            Level::Warn => 2,
            Level::Info => 3,
            Level::Debug => 4,
            Level::Trace => 5,
        }
    }

    pub fn as_str(self) -> (name: &'static str)
        ensures
            name@ == self.spec_name(),
    {
        match self {
            Level::Error => "ERROR",
            Level::Warn => "WARN",
            Level::Info => "INFO",
            Level::Debug => "DEBUG",
            Level::Trace => "TRACE",
        }
    }

    /// Whether a record of this level passes a sink whose threshold is
    /// `threshold`.
    pub fn passes(self, threshold: Level) -> (admitted: bool)
        ensures
            admitted == self.spec_passes(threshold),
    {
        self.ordinal() <= threshold.ordinal()
    }
}

/// The filter is monotone: what passes a threshold passes every more
/// verbose one, and a level passes the threshold that equals it.
pub proof fn lemma_threshold_monotone(level: Level, threshold: Level, wider: Level)
    requires
        level.spec_passes(threshold),
        threshold.spec_passes(wider),
    ensures
        level.spec_passes(wider),
        level.spec_passes(level),
{
}

} // verus!
