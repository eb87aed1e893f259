use vstd::prelude::*;

verus! {

/// How severe an event is, from the most verbose to the most serious.
#[derive(Clone, Copy, Debug, PartialEq, Eq, Structural)]
pub enum Severity {
    Trace,
    Debug,
    Info,
    Warn,
    Error,
}

impl Severity {
    /// Position of the level in the order Trace < Debug < Info < Warn < Error.
    pub open spec fn rank(self) -> nat {
        match self {
            Severity::Trace => 0,
            Severity::Debug => 1,
            Severity::Info => 2,
            Severity::Warn => 3,
            Severity::Error => 4,
        }
    }

    /// Executable form of `rank`.
    pub fn level(self) -> (r: u8)
        ensures
            r as nat == self.rank(),
    {
        match self {
            Severity::Trace => 0,
            Severity::Debug => 1,
            Severity::Info => 2,
            Severity::Warn => 3,
            Severity::Error => 4,
        }
    }

    /// True when `self` is at least as severe as `threshold`.
    pub fn is_at_least(self, threshold: Severity) -> (r: bool)
        ensures
            r == (self.rank() >= threshold.rank()),
    {
        self.level() >= threshold.level()
    }
}

} // verus!
