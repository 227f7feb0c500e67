//! Summaries of findings: counts by detector, by file type and by age
//! bucket.

use crate::models::{number_of, CodeDebtItem, Finding};
use crate::scanner::CodeDebtScanner;
use crate::severity::Severity;
use vstd::hash_map::StringHashMap;
use vstd::prelude::*;

verus! {

/// The predicate that holds of one label only.
pub open spec fn is_label(label: Seq<char>) -> spec_fn(Seq<char>) -> bool {
    |l: Seq<char>| l == label
}

/// How often a label occurs in a list of labels.
pub open spec fn tally(labels: Seq<Seq<char>>, label: Seq<char>) -> nat {
    labels.filter(is_label(label)).len()
}

/// Whether a mapping counts the labels of a list: it has an entry for
/// exactly the labels that occur, and the entry says how often.
pub open spec fn is_tally(counts: Map<Seq<char>, usize>, labels: Seq<Seq<char>>) -> bool {
    forall|label: Seq<char>|
        #![trigger counts.contains_key(label)]
        #![trigger tally(labels, label)]
        {
            &&& counts.contains_key(label) <==> tally(labels, label) > 0
            &&& counts.contains_key(label) ==> counts[label] == tally(labels, label)
        }
}

/// One more label raises its own tally by one and leaves the others.
pub proof fn lemma_tally_push(labels: Seq<Seq<char>>, added: Seq<char>, label: Seq<char>)
    ensures
        tally(labels.push(added), label) == tally(labels, label) + (if added == label {
            1nat
        } else {
            0nat
        }),
        tally(labels, label) <= labels.len(),
{
    labels.lemma_filter_push(added, is_label(label));
    labels.lemma_filter_len(is_label(label));
}

/// No label occurs in the empty list.
pub proof fn lemma_tally_empty(label: Seq<char>)
    ensures
        tally(Seq::<Seq<char>>::empty(), label) == 0,
{
    Seq::<Seq<char>>::empty().lemma_filter_len(is_label(label));
}

/// A label is counted at most as often as there are labels, and at least
/// once exactly where it occurs.
pub proof fn lemma_tally_occurs(labels: Seq<Seq<char>>, label: Seq<char>)
    ensures
        tally(labels, label) <= labels.len(),
        tally(labels, label) > 0 <==> labels.contains(label),
    decreases labels.len(),
{
    let p = is_label(label);
    labels.lemma_filter_len(p);
    if tally(labels, label) > 0 {
        let out = labels.filter(p);
        labels.lemma_filter_pred(p, 0);
        assert(out.contains(out[0]));
        labels.lemma_filter_contains_rev(p, out[0]);
    }
    if labels.contains(label) {
        let k = choose|k: int| 0 <= k < labels.len() && labels[k] == label;
        labels.lemma_filter_contains(p, k);
    }
}

/// Counts the labels of a list.
pub fn count_labels(labels: &Vec<String>) -> (counts: StringHashMap<usize>)
    ensures
        is_tally(counts@, labels.deep_view()),
{
    let ghost all = labels.deep_view();
    let mut counts: StringHashMap<usize> = StringHashMap::new();
    let mut i: usize = 0;
    proof {
        assert(all.take(0) =~= Seq::<Seq<char>>::empty());
        assert forall|label: Seq<char>| tally(all.take(0), label) == 0 by {
            lemma_tally_empty(label);
        }
    }
    while i < labels.len()
        invariant
            i <= labels.len(),
            all == labels.deep_view(),
            is_tally(counts@, all.take(i as int)),
        decreases labels.len() - i,
    {
        let label = &labels[i];
        let ghost seen = all.take(i as int);
        let ghost old_counts = counts@;
        let n: usize = match counts.get(label.as_str()) {
            Some(c) => *c,
            None => 0,
        };
        proof {
            assert(all[i as int] == label@);
            assert(all.take(i + 1) =~= seen.push(label@));
            lemma_tally_push(seen, label@, label@);
            assert(old_counts.contains_key(label@) || tally(seen, label@) == 0);
            assert(n == tally(seen, label@));
        }
        counts.insert(label.clone(), n + 1);
        proof {
            assert forall|l: Seq<char>|
                #![trigger counts@.contains_key(l)]
                #![trigger tally(seen.push(label@), l)]
                {
                    &&& counts@.contains_key(l) <==> tally(seen.push(label@), l) > 0
                    &&& counts@.contains_key(l) ==> counts@[l] == tally(seen.push(label@), l)
                } by {
                lemma_tally_push(seen, label@, l);
                assert(old_counts.contains_key(l) <==> tally(seen, l) > 0);
            }
        }
        i += 1;
    }
    proof {
        assert(all.take(labels.len() as int) =~= all);
    }
    counts
}

/// The detector names of the findings.
pub open spec fn pattern_labels(s: Seq<Finding>) -> Seq<Seq<char>> {
    Seq::new(s.len(), |i: int| s[i].pattern_type)
}

/// The file type under which a finding is counted: its file extension, or
/// `unknown` where it has none.
pub open spec fn file_type_of(f: Finding) -> Seq<char> {
    match f.file_extension {
        Some(ext) => ext,
        None => "unknown"@,
    }
}

/// The file types of the findings.
pub open spec fn file_type_labels(s: Seq<Finding>) -> Seq<Seq<char>> {
    Seq::new(s.len(), |i: int| file_type_of(s[i]))
}

/// The bucket under which an age in days is counted. An age below zero,
/// that of a line committed in the future, counts with the oldest.
pub open spec fn age_bucket(age: Option<int>) -> Seq<char> {
    match age {
        None => "Unknown age"@,
        Some(days) => if 0 <= days <= 7 {
            "This week"@
        } else if 8 <= days <= 30 {
            "This month"@
        } else if 31 <= days <= 90 {
            "Last 3 months"@
        } else if 91 <= days <= 365 {
            "This year"@
        } else {
            "Over a year"@
        },
    }
}

/// The age buckets of the findings.
pub open spec fn age_labels(s: Seq<Finding>) -> Seq<Seq<char>> {
    Seq::new(s.len(), |i: int| age_bucket(s[i].age_days))
}

/// The name of the bucket under which an age in days is counted.
pub fn age_bucket_name(age: Option<i64>) -> (name: &'static str)
    ensures
        name@ == age_bucket(number_of(age)),
{
    match age {
        None => "Unknown age",
        Some(days) => {
            if 0 <= days && days <= 7 {
                "This week"
            } else if 8 <= days && days <= 30 {
                "This month"
            } else if 31 <= days && days <= 90 {
                "Last 3 months"
            } else if 91 <= days && days <= 365 {
                "This year"
            } else {
                "Over a year"
            }
        },
    }
}

/// The number of findings of each severity.
#[derive(Debug, Clone, Copy, PartialEq, Eq, Structural)]
pub struct SeverityCounts {
    pub critical: usize,
    pub high: usize,
    pub medium: usize,
    pub low: usize,
}

/// The predicate that holds of the findings of one severity.
pub open spec fn has_severity(severity: Severity) -> spec_fn(Finding) -> bool {
    |f: Finding| f.severity == severity
}

/// The number of findings of one severity.
pub open spec fn severity_count(s: Seq<Finding>, severity: Severity) -> nat {
    s.filter(has_severity(severity)).len()
}

/// Counts the findings of each severity.
pub fn count_by_severity(items: &[CodeDebtItem]) -> (counts: SeverityCounts)
    ensures
        counts.critical == severity_count(items.deep_view(), Severity::Critical),
        counts.high == severity_count(items.deep_view(), Severity::High),
        counts.medium == severity_count(items.deep_view(), Severity::Medium),
        counts.low == severity_count(items.deep_view(), Severity::Low),
        counts.critical + counts.high + counts.medium + counts.low == items.len(),
{
    let ghost all = items.deep_view();
    let mut counts = SeverityCounts { critical: 0, high: 0, medium: 0, low: 0 };
    let mut i: usize = 0;
    proof {
        assert(all.take(0) =~= Seq::<Finding>::empty());
        Seq::<Finding>::empty().lemma_filter_len(has_severity(Severity::Critical));
        Seq::<Finding>::empty().lemma_filter_len(has_severity(Severity::High));
        Seq::<Finding>::empty().lemma_filter_len(has_severity(Severity::Medium));
        Seq::<Finding>::empty().lemma_filter_len(has_severity(Severity::Low));
    }
    while i < items.len()
        invariant
            i <= items.len(),
            all == items.deep_view(),
            counts.critical == severity_count(all.take(i as int), Severity::Critical),
            counts.high == severity_count(all.take(i as int), Severity::High),
            counts.medium == severity_count(all.take(i as int), Severity::Medium),
            counts.low == severity_count(all.take(i as int), Severity::Low),
            counts.critical + counts.high + counts.medium + counts.low == i,
        decreases items.len() - i,
    {
        proof {
            let seen = all.take(i as int);
            let f = all[i as int];
            assert(all.take(i + 1) =~= seen.push(f));
            seen.lemma_filter_push(f, has_severity(Severity::Critical));
            seen.lemma_filter_push(f, has_severity(Severity::High));
            seen.lemma_filter_push(f, has_severity(Severity::Medium));
            seen.lemma_filter_push(f, has_severity(Severity::Low));
            assert(f.severity == items@[i as int].severity);
        }
        match items[i].severity {
            Severity::Critical => {
                counts.critical += 1;
            },
            Severity::High => {
                counts.high += 1;
            },
            Severity::Medium => {
                counts.medium += 1;
            },
            Severity::Low => {
                counts.low += 1;
            },
        }
        i += 1;
    }
    proof {
        assert(all.take(items.len() as int) =~= all);
    }
    counts
}

/// The detector names of the findings.
pub fn pattern_names(items: &[CodeDebtItem]) -> (labels: Vec<String>)
    ensures
        labels.deep_view() == pattern_labels(items.deep_view()),
{
    let mut labels: Vec<String> = Vec::new();
    let mut i: usize = 0;
    while i < items.len()
        invariant
            i <= items.len(),
            labels.len() == i,
            forall|k: int| 0 <= k < i ==> (#[trigger] labels@[k])@ == items@[k]@.pattern_type,
        decreases items.len() - i,
    {
        labels.push(items[i].pattern_type.clone());
        i += 1;
    }
    assert(labels.deep_view() =~= pattern_labels(items.deep_view()));
    labels
}

/// The file types of the findings.
pub fn file_types(items: &[CodeDebtItem]) -> (labels: Vec<String>)
    ensures
        labels.deep_view() == file_type_labels(items.deep_view()),
{
    let mut labels: Vec<String> = Vec::new();
    let mut i: usize = 0;
    while i < items.len()
        invariant
            i <= items.len(),
            labels.len() == i,
            forall|k: int| 0 <= k < i ==> (#[trigger] labels@[k])@ == file_type_of(items@[k]@),
        decreases items.len() - i,
    {
        let label: String = match &items[i].file_extension {
            Some(ext) => ext.clone(),
            None => "unknown".to_owned(),
        };
        labels.push(label);
        i += 1;
    }
    assert(labels.deep_view() =~= file_type_labels(items.deep_view()));
    labels
}

/// The age buckets of the findings.
pub fn age_buckets(items: &[CodeDebtItem]) -> (labels: Vec<String>)
    ensures
        labels.deep_view() == age_labels(items.deep_view()),
{
    let mut labels: Vec<String> = Vec::new();
    let mut i: usize = 0;
    while i < items.len()
        invariant
            i <= items.len(),
            labels.len() == i,
            forall|k: int|
                0 <= k < i ==> (#[trigger] labels@[k])@ == age_bucket(items@[k]@.age_days),
        decreases items.len() - i,
    {
        labels.push(age_bucket_name(items[i].age_days).to_owned());
        i += 1;
    }
    assert(labels.deep_view() =~= age_labels(items.deep_view()));
    labels
}

/// The labels of a list, each once, in the order of first occurrence.
pub open spec fn first_occurrences(labels: Seq<Seq<char>>) -> Seq<Seq<char>>
    decreases labels.len(),
{
    if labels.len() == 0 {
        Seq::empty()
    } else {
        let earlier = first_occurrences(labels.drop_last());
        if earlier.contains(labels.last()) {
            earlier
        } else {
            earlier.push(labels.last())
        }
    }
}

/// The list of first occurrences holds exactly the labels that occur, none
/// of them twice.
pub proof fn lemma_first_occurrences(labels: Seq<Seq<char>>)
    ensures
        first_occurrences(labels).no_duplicates(),
        forall|label: Seq<char>|
            first_occurrences(labels).contains(label) <==> #[trigger] labels.contains(label),
        first_occurrences(labels).len() <= labels.len(),
    decreases labels.len(),
{
    if labels.len() > 0 {
        let init = labels.drop_last();
        let last = labels.last();
        let earlier = first_occurrences(init);
        let all = first_occurrences(labels);
        lemma_first_occurrences(init);
        assert forall|label: Seq<char>| all.contains(label) <==> #[trigger] labels.contains(
            label,
        ) by {
            if all.contains(label) {
                let k = choose|k: int| 0 <= k < all.len() && all[k] == label;
                if k < earlier.len() {
                    assert(earlier[k] == label);
                    assert(earlier.contains(label));
                    assert(init.contains(label));
                    let m = choose|m: int| 0 <= m < init.len() && init[m] == label;
                    assert(labels[m] == label);
                } else {
                    assert(labels[labels.len() - 1] == label);
                }
            }
            if labels.contains(label) {
                let m = choose|m: int| 0 <= m < labels.len() && labels[m] == label;
                if m < init.len() {
                    assert(init[m] == label);
                    assert(init.contains(label));
                    assert(earlier.contains(label));
                    let k = choose|k: int| 0 <= k < earlier.len() && earlier[k] == label;
                    assert(all[k] == label);
                } else if earlier.contains(last) {
                    let k = choose|k: int| 0 <= k < earlier.len() && earlier[k] == last;
                    assert(all[k] == label);
                } else {
                    assert(all[all.len() - 1] == label);
                }
            }
        }
    }
}

/// The entries of a summary: each label that occurs, once, in the order of
/// first occurrence, with the number of its occurrences.
pub fn tally_entries(labels: &Vec<String>) -> (entries: Vec<(String, usize)>)
    ensures
        entries.len() == first_occurrences(labels.deep_view()).len(),
        forall|k: int|
            0 <= k < entries.len() ==> (#[trigger] entries@[k]).0@ == first_occurrences(
                labels.deep_view(),
            )[k] && entries@[k].1 == tally(labels.deep_view(), entries@[k].0@),
{
    let ghost all = labels.deep_view();
    let counts = count_labels(labels);
    let mut seen: StringHashMap<bool> = StringHashMap::new();
    let mut entries: Vec<(String, usize)> = Vec::new();
    let mut i: usize = 0;
    proof {
        assert(all.take(0) =~= Seq::<Seq<char>>::empty());
    }
    while i < labels.len()
        invariant
            i <= labels.len(),
            all == labels.deep_view(),
            is_tally(counts@, all),
            entries.len() == first_occurrences(all.take(i as int)).len(),
            forall|k: int|
                0 <= k < entries.len() ==> (#[trigger] entries@[k]).0@ == first_occurrences(
                    all.take(i as int),
                )[k] && entries@[k].1 == tally(all, entries@[k].0@),
            forall|label: Seq<char>|
                #[trigger] seen@.contains_key(label) <==> first_occurrences(
                    all.take(i as int),
                ).contains(label),
        decreases labels.len() - i,
    {
        let label = &labels[i];
        let ghost earlier = first_occurrences(all.take(i as int));
        proof {
            assert(all[i as int] == label@);
            assert(all.take(i + 1).drop_last() =~= all.take(i as int));
            assert(all.take(i + 1).last() == label@);
            assert(all.contains(label@));
            lemma_tally_occurs(all, label@);
        }
        if !seen.contains_key(label.as_str()) {
            let count: usize = match counts.get(label.as_str()) {
                Some(c) => *c,
                None => 0,
            };
            seen.insert(label.clone(), true);
            entries.push((label.clone(), count));
            proof {
                let now = first_occurrences(all.take(i + 1));
                assert(now == earlier.push(label@));
                assert forall|l: Seq<char>| #[trigger] seen@.contains_key(l) <==> now.contains(
                    l,
                ) by {
                    if now.contains(l) {
                        let k = choose|k: int| 0 <= k < now.len() && now[k] == l;
                        if k < earlier.len() {
                            assert(earlier[k] == l);
                            assert(earlier.contains(l));
                        }
                    }
                    if earlier.contains(l) {
                        let k = choose|k: int| 0 <= k < earlier.len() && earlier[k] == l;
                        assert(now[k] == l);
                    }
                    assert(now[now.len() - 1] == label@);
                }
            }
        }
        i += 1;
    }
    proof {
        assert(all.take(labels.len() as int) =~= all);
    }
    entries
}

impl CodeDebtScanner {
    /// The number of findings of each detector.
    pub fn get_summary(&self, items: &[CodeDebtItem]) -> (summary: StringHashMap<usize>)
        ensures
            is_tally(summary@, pattern_labels(items.deep_view())),
    {
        count_labels(&pattern_names(items))
    }

    /// The number of findings of each file type, those without a file
    /// extension counted as `unknown`.
    pub fn get_file_type_summary(&self, items: &[CodeDebtItem]) -> (summary: StringHashMap<usize>)
        ensures
            is_tally(summary@, file_type_labels(items.deep_view())),
    {
        count_labels(&file_types(items))
    }

    /// The number of findings in each age bucket: 0 to 7 days `This week`,
    /// 8 to 30 `This month`, 31 to 90 `Last 3 months`, 91 to 365
    /// `This year`, beyond that `Over a year`, and `Unknown age` for a
    /// finding without an age.
    pub fn get_age_distribution(&self, items: &[CodeDebtItem]) -> (distribution: StringHashMap<
        usize,
    >)
        ensures
            is_tally(distribution@, age_labels(items.deep_view())),
    {
        count_labels(&age_buckets(items))
    }
}

} // verus!
