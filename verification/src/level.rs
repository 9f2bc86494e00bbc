//! Severity levels and their total order.

use std::cmp::Ordering;
use vstd::prelude::*;
use vstd::std_specs::cmp::PartialOrdSpecImpl;

verus! {

/// The severity of a log message, from least to most critical:
/// `Debug < Info < Warn < Error < Fatal`.
#[derive(Clone, Copy, Debug, PartialEq, Eq, Structural, Ord)]
pub enum Level {
    Debug,
    Info,
    Warn,
    Error,
    Fatal,
}

impl Level {
    /// Position of the level in the declaration order, starting at zero.
    pub open spec fn rank(self) -> nat {
        match self {
            Level::Debug => 0,
            Level::Info => 1,
            Level::Warn => 2,
            Level::Error => 3,
            Level::Fatal => 4,
        }
    }

    /// The canonical display name used by every formatter.
    pub open spec fn name(self) -> Seq<char> {
        match self {
            Level::Debug => "DEBUG"@,
            Level::Info => "INFO"@,
            Level::Warn => "WARN"@,
            Level::Error => "ERROR"@,
            Level::Fatal => "FATAL"@,
        }
    }

    /// Whether a logger whose threshold is `self` lets a message of severity
    /// `level` through.
    pub open spec fn admits(self, level: Level) -> bool {
        level.rank() >= self.rank()
    }

    /// Executable counterpart of [`Level::rank`].
    pub fn severity(self) -> (r: u8)
        ensures
            r == self.rank(),
    {
        match self {
            Level::Debug => 0,
            Level::Info => 1,
            Level::Warn => 2,
            Level::Error => 3,
            Level::Fatal => 4,
        }
    }

    /// The canonical upper-case name of the level.
    pub fn as_str(self) -> (s: &'static str)
        ensures
            s@ == self.name(),
    {
        match self {
            Level::Debug => "DEBUG",
            Level::Info => "INFO",
            Level::Warn => "WARN",
            Level::Error => "ERROR",
            Level::Fatal => "FATAL",
        }
    }

    /// The canonical name as an owned string.
    pub fn to_string(&self) -> (s: String)
        ensures
            s@ == self.name(),
    {
        String::from_str(self.as_str())
    }

    /// Threshold test: `true` exactly when `level` is at least as severe as
    /// the threshold `self`.
    pub fn lets_through(self, level: Level) -> (r: bool)
        ensures
            r == self.admits(level),
    {
        level.severity() >= self.severity()
    }
}

impl PartialOrd for Level {
    fn partial_cmp(&self, other: &Level) -> (r: Option<Ordering>) {
        let a: u8 = self.severity();
        let b: u8 = other.severity();
        if a < b {
            Some(Ordering::Less)
        } else if a == b {
            Some(Ordering::Equal)
        } else {
            Some(Ordering::Greater)
        }
    }
}

impl PartialOrdSpecImpl for Level {
    open spec fn obeys_partial_cmp_spec() -> bool {
        true
    }

    open spec fn partial_cmp_spec(&self, other: &Level) -> Option<Ordering> {
        if self.rank() < other.rank() {
            Some(Ordering::Less)
        } else if self.rank() == other.rank() {
            Some(Ordering::Equal)
        } else {
            Some(Ordering::Greater)
        }
    }
}

/// The rank identifies the level: no two variants share one.
pub proof fn lemma_rank_injective(a: Level, b: Level)
    ensures
        a.rank() == b.rank() <==> a == b,
{
}

/// The order on levels is total: of two levels, one admits the other.
pub proof fn lemma_order_total(a: Level, b: Level)
    ensures
        a.admits(b) || b.admits(a),
        a.admits(b) && b.admits(a) ==> a == b,
{
}

/// The order on levels is transitive.
pub proof fn lemma_order_transitive(a: Level, b: Level, c: Level)
    requires
        a.admits(b),
        b.admits(c),
    ensures
        a.admits(c),
{
}

/// A threshold suppresses every strictly lower level and admits itself.
pub proof fn lemma_threshold(lower: Level, threshold: Level)
    requires
        lower.rank() < threshold.rank(),
    ensures
        !threshold.admits(lower),
        threshold.admits(threshold),
{
}

/// Every name is written in upper-case letters only.
pub proof fn lemma_name_upper_case(level: Level)
    ensures
        level.name().len() > 0,
        forall|i: int| 0 <= i < level.name().len() ==> 'A' <= #[trigger] level.name()[i] <= 'Z',
{
    reveal_strlit("DEBUG");
    reveal_strlit("INFO");
    reveal_strlit("WARN");
    reveal_strlit("ERROR");
    reveal_strlit("FATAL");
}

/// The name identifies the level: no two levels share one.
pub proof fn lemma_name_injective(a: Level, b: Level)
    ensures
        a.name() == b.name() <==> a == b,
{
    reveal_strlit("DEBUG");
    reveal_strlit("INFO");
    reveal_strlit("WARN");
    reveal_strlit("ERROR");
    reveal_strlit("FATAL");
    if a != b {
        assert(a.name().len() != b.name().len() || a.name()[0] != b.name()[0]);
    }
}

} // verus!
