//! Filters over findings: by severity, by age and by duplicate count.

use crate::models::{CodeDebtItem, Finding};
use crate::scanner::CodeDebtScanner;
use crate::severity::Severity;
use vstd::prelude::*;

verus! {

/// A condition that a filter puts on findings.
#[derive(Debug, Clone, Copy)]
pub enum Criterion {
    /// At least as severe as the threshold.
    AtLeast(Severity),
    /// At most this many days old. A finding of unknown age passes: no
    /// finding is dropped for want of history.
    AtMostDaysOld(i64),
    /// Counted at least this many times by duplicate detection.
    AtLeastDuplicates(usize),
}

impl Criterion {
    /// Whether a finding meets the condition.
    pub open spec fn accepts(self, f: Finding) -> bool {
        match self {
            Criterion::AtLeast(threshold) => f.severity.spec_rank() <= threshold.spec_rank(),
            Criterion::AtMostDaysOld(max_days) => match f.age_days {
                Some(days) => days <= max_days,
                None => true,
            },
            Criterion::AtLeastDuplicates(min_count) => f.duplicate_count >= min_count,
        }
    }

    /// The condition as a predicate.
    pub open spec fn predicate(self) -> spec_fn(Finding) -> bool {
        |f: Finding| self.accepts(f)
    }

    /// Whether a finding meets the condition.
    pub fn admits(&self, item: &CodeDebtItem) -> (r: bool)
        ensures
            r == self.accepts(item@),
    {
        match self {
            Criterion::AtLeast(threshold) => item.severity.rank() <= threshold.rank(),
            Criterion::AtMostDaysOld(max_days) => match item.age_days {
                Some(days) => days <= *max_days,
                None => true,
            },
            Criterion::AtLeastDuplicates(min_count) => item.duplicate_count >= *min_count,
        }
    }
}

/// The findings that meet a condition, in their order.
pub open spec fn kept(s: Seq<Finding>, criterion: Criterion) -> Seq<Finding> {
    s.filter(criterion.predicate())
}

/// Every kept finding meets the condition and is one of the filtered
/// findings; a finding that meets the condition is kept.
pub proof fn lemma_kept_members(s: Seq<Finding>, criterion: Criterion)
    ensures
        kept(s, criterion).len() <= s.len(),
        forall|k: int|
            0 <= k < kept(s, criterion).len() ==> criterion.accepts(
                #[trigger] kept(s, criterion)[k],
            ) && s.contains(kept(s, criterion)[k]),
        forall|k: int|
            0 <= k < s.len() && criterion.accepts(#[trigger] s[k]) ==> kept(s, criterion).contains(
                s[k],
            ),
{
    let p = criterion.predicate();
    let out = kept(s, criterion);
    s.lemma_filter_len(p);
    assert forall|k: int| 0 <= k < out.len() implies criterion.accepts(#[trigger] out[k])
        && s.contains(out[k]) by {
        s.lemma_filter_pred(p, k);
        assert(out.contains(out[k]));
        s.lemma_filter_contains_rev(p, out[k]);
    }
    assert forall|k: int|
        0 <= k < s.len() && criterion.accepts(#[trigger] s[k]) implies out.contains(s[k]) by {
        s.lemma_filter_contains(p, k);
    }
}

/// Filtering is idempotent: filtering the result again by the same
/// condition changes nothing.
pub proof fn lemma_filter_idempotent(s: Seq<Finding>, criterion: Criterion)
    ensures
        kept(kept(s, criterion), criterion) == kept(s, criterion),
    decreases s.len(),
{
    let p = criterion.predicate();
    if s.len() == 0 {
        reveal(Seq::filter);
    } else {
        let init = s.drop_last();
        let x = s.last();
        assert(s =~= init.push(x));
        init.lemma_filter_push(x, p);
        lemma_filter_idempotent(init, criterion);
        if p(x) {
            init.filter(p).lemma_filter_push(x, p);
        }
    }
}

/// Filtering by a severity threshold twice yields what filtering once
/// yields.
pub proof fn lemma_severity_filter_idempotent(s: Seq<Finding>, threshold: Severity)
    ensures
        kept(kept(s, Criterion::AtLeast(threshold)), Criterion::AtLeast(threshold)) == kept(
            s,
            Criterion::AtLeast(threshold),
        ),
{
    lemma_filter_idempotent(s, Criterion::AtLeast(threshold));
}

/// Copies of the findings that meet a condition, in their order.
pub fn filter_findings(items: &[CodeDebtItem], criterion: Criterion) -> (result: Vec<CodeDebtItem>)
    ensures
        result.deep_view() == kept(items.deep_view(), criterion),
{
    let ghost input = items.deep_view();
    let ghost p = criterion.predicate();
    let mut result: Vec<CodeDebtItem> = Vec::new();
    let mut i: usize = 0;
    proof {
        reveal(Seq::filter);
        assert(input.take(0) =~= Seq::<Finding>::empty());
        assert(result.deep_view() =~= Seq::<Finding>::empty());
    }
    while i < items.len()
        invariant
            i <= items.len(),
            input == items.deep_view(),
            p == criterion.predicate(),
            result.deep_view() == input.take(i as int).filter(p),
        decreases items.len() - i,
    {
        let ghost before = result.deep_view();
        proof {
            assert(input.take(i + 1) =~= input.take(i as int).push(input[i as int]));
            input.take(i as int).lemma_filter_push(input[i as int], p);
        }
        if criterion.admits(&items[i]) {
            result.push(items[i].clone());
            assert(result.deep_view() =~= before.push(input[i as int]));
        }
        i += 1;
    }
    proof {
        assert(input.take(items.len() as int) =~= input);
    }
    result
}

impl CodeDebtScanner {
    /// The findings that are at least as severe as the threshold.
    pub fn filter_by_severity(&self, items: &[CodeDebtItem], min_severity: Severity) -> (result:
        Vec<CodeDebtItem>)
        ensures
            result.deep_view() == kept(items.deep_view(), Criterion::AtLeast(min_severity)),
    {
        filter_findings(items, Criterion::AtLeast(min_severity))
    }

    /// The findings that are at most `max_age_days` days old, and those
    /// whose age is unknown.
    pub fn filter_by_age(&self, items: &[CodeDebtItem], max_age_days: i64) -> (result: Vec<
        CodeDebtItem,
    >)
        ensures
            result.deep_view() == kept(items.deep_view(), Criterion::AtMostDaysOld(max_age_days)),
    {
        filter_findings(items, Criterion::AtMostDaysOld(max_age_days))
    }

    /// The findings whose duplicate count is at least `min_count`.
    pub fn find_duplicates(&self, items: &[CodeDebtItem], min_count: usize) -> (result: Vec<
        CodeDebtItem,
    >)
        ensures
            result.deep_view() == kept(items.deep_view(), Criterion::AtLeastDuplicates(min_count)),
    {
        filter_findings(items, Criterion::AtLeastDuplicates(min_count))
    }
}

} // verus!
