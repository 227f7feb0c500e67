//! Severity of a finding: a total order in which the most urgent level is the
//! smallest.

use std::cmp::Ordering;
use vstd::prelude::*;
use vstd::std_specs::cmp::PartialOrdSpecImpl;

verus! {

/// Urgency of a finding. `Critical` is the most severe and compares as the
/// smallest; `Low` is the least severe and compares as the largest.
#[derive(Debug, Clone, Copy, PartialEq, Eq, Structural, Hash, Ord)]
pub enum Severity {
    Critical,
    High,
    Medium,
    Low,
}

impl Severity {
    /// Rank of the level: 0 for `Critical`, 1 for `High`, 2 for `Medium`,
    /// 3 for `Low`.
    pub open spec fn spec_rank(&self) -> u8 {
        match self {
            Severity::Critical => 0u8,
            Severity::High => 1u8,
            Severity::Medium => 2u8,
            Severity::Low => 3u8,
        }
    }

    /// Whether a finding of this level passes a filter whose threshold is
    /// `threshold`: the level is at least as severe as the threshold.
    pub open spec fn spec_at_least(&self, threshold: Severity) -> bool {
        self.spec_rank() <= threshold.spec_rank()
    }

    #[verifier::when_used_as_spec(spec_rank)]
    pub fn rank(&self) -> (r: u8)
        ensures
            r == self.spec_rank(),
    {
        match self {
            Severity::Critical => 0,
            Severity::High => 1,
            Severity::Medium => 2,
            Severity::Low => 3,
        }
    }

    #[verifier::when_used_as_spec(spec_at_least)]
    pub fn at_least(&self, threshold: Severity) -> (r: bool)
        ensures
            r == self.spec_at_least(threshold),
    {
        self.rank() <= threshold.rank()
    }
}

impl PartialOrd for Severity {
    fn partial_cmp(&self, other: &Severity) -> (r: Option<Ordering>) {
        let a: u8 = self.rank();
        let b: u8 = other.rank();
        if a < b {
            Some(Ordering::Less)
        } else if a == b {
            Some(Ordering::Equal)
        } else {
            Some(Ordering::Greater)
        }
    }
}

impl PartialOrdSpecImpl for Severity {
    open spec fn obeys_partial_cmp_spec() -> bool {
        true
    }

    open spec fn partial_cmp_spec(&self, other: &Severity) -> Option<Ordering> {
        if self.spec_rank() < other.spec_rank() {
            Some(Ordering::Less)
        } else if self.spec_rank() == other.spec_rank() {
            Some(Ordering::Equal)
        } else {
            Some(Ordering::Greater)
        }
    }
}

/// The four levels are ranked without ties: two levels of equal rank are the
/// same level.
pub proof fn lemma_rank_injective(a: Severity, b: Severity)
    ensures
        a.spec_rank() == b.spec_rank() <==> a == b,
        0 <= a.spec_rank() <= 3,
{
}

} // verus!
