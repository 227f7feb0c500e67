//! History enrichment: author, revision and age of the line behind a
//! finding, from the answers of a history lookup.

use crate::models::{copy_text, text_of, CodeDebtItem, Finding};
use chrono::DateTime;
use vstd::prelude::*;

verus! {

/// The first second of the year -262143, the earliest that `chrono` holds,
/// in seconds since the Unix epoch.
pub const EARLIEST_TIMESTAMP: i64 = -8_334_601_228_800;

/// The last second of the year 262142, the latest that `chrono` holds, in
/// seconds since the Unix epoch.
pub const LATEST_TIMESTAMP: i64 = 8_210_266_876_799;

/// Whether `chrono` can represent the instant that lies the given number of
/// seconds after the Unix epoch: the instant falls in a year from -262143
/// to 262142.
pub open spec fn is_representable_time(secs: i64) -> bool {
    EARLIEST_TIMESTAMP <= secs <= LATEST_TIMESTAMP
}

/// `chrono::DateTime::from_timestamp` with zero nanoseconds, reduced to
/// whether it yields an instant. It does so exactly for the seconds whose
/// day lies in a year that `chrono` holds, from the first day of the year
/// -262143 to the last day of the year 262142.
#[verifier::external_body]
fn timestamp_is_representable(secs: i64) -> (ok: bool)
    ensures
        ok == is_representable_time(secs),
{
    DateTime::from_timestamp(secs, 0).is_some()
}

/// The whole days that lie between two instants given in seconds, counted
/// from `from` to `to`: the difference divided by the length of a day and
/// rounded toward zero. It is negative where `to` is the earlier instant.
pub open spec fn whole_days(from: int, to: int) -> int {
    if to >= from {
        (to - from) / 86_400
    } else {
        -((from - to) / 86_400)
    }
}

/// The whole days between two instants.
pub fn days_between(from: i64, to: i64) -> (days: i64)
    ensures
        days == whole_days(from as int, to as int),
{
    let span: i128 = to as i128 - from as i128;
    if span >= 0 {
        (span / 86_400) as i64
    } else {
        let back: i128 = (0 - span) / 86_400;
        (0 - back) as i64
    }
}

/// What the history of a line tells: who changed it last, in which
/// revision, and when, in seconds since the Unix epoch.
#[derive(Debug)]
pub struct BlameInfo {
    pub author: Option<String>,
    pub commit_hash: String,
    pub commit_time: i64,
}

/// Mathematical model of a [`BlameInfo`].
pub struct Blame {
    pub author: Option<Seq<char>>,
    pub commit_hash: Seq<char>,
    pub commit_time: i64,
}

impl View for BlameInfo {
    type V = Blame;

    open spec fn view(&self) -> Blame {
        Blame {
            author: text_of(self.author),
            commit_hash: self.commit_hash@,
            commit_time: self.commit_time,
        }
    }
}

impl DeepView for BlameInfo {
    type V = Blame;

    open spec fn deep_view(&self) -> Blame {
        self@
    }
}

impl Clone for BlameInfo {
    fn clone(&self) -> (r: BlameInfo)
        ensures
            r == *self,
    {
        BlameInfo {
            author: copy_text(&self.author),
            commit_hash: self.commit_hash.clone(),
            commit_time: self.commit_time,
        }
    }
}

/// How many lookups of an enrichment pass succeeded and how many failed.
#[derive(Debug, Clone, Copy, PartialEq, Eq, Structural)]
pub struct BlameStats {
    pub successes: usize,
    pub errors: usize,
}

/// Whether a lookup's answer enriches a finding: there is an answer, and
/// its commit time is an instant that can be represented.
pub open spec fn is_usable(lookup: Option<Blame>) -> bool {
    lookup matches Some(blame) && is_representable_time(blame.commit_time)
}

/// A finding after a lookup at the instant `now`. A usable answer sets
/// author, revision, commit time and age in whole days; any other leaves the
/// finding as it is.
pub open spec fn enriched(f: Finding, lookup: Option<Blame>, now: i64) -> Finding {
    match lookup {
        Some(blame) => if is_representable_time(blame.commit_time) {
            Finding {
                author: blame.author,
                commit_hash: Some(blame.commit_hash),
                created_at: Some(blame.commit_time as int),
                age_days: Some(whole_days(blame.commit_time as int, now as int)),
                ..f
            }
        } else {
            f
        },
        None => f,
    }
}

/// The answer for the finding at position `k`. A finding beyond the end of
/// the answers has none.
pub open spec fn lookup_at(lookups: Seq<Option<Blame>>, k: int) -> Option<Blame> {
    if 0 <= k < lookups.len() {
        lookups[k]
    } else {
        None
    }
}

/// The findings after enrichment at the instant `now`, each by the answer
/// at its position.
pub open spec fn with_history(s: Seq<Finding>, lookups: Seq<Option<Blame>>, now: i64) -> Seq<
    Finding,
> {
    Seq::new(s.len(), |k: int| enriched(s[k], lookup_at(lookups, k), now))
}

/// The number of usable answers among those for the first `n` findings.
pub open spec fn usable_count(lookups: Seq<Option<Blame>>, n: nat) -> nat
    decreases n,
{
    if n == 0 {
        0
    } else {
        usable_count(lookups, (n - 1) as nat) + (if is_usable(lookup_at(lookups, n - 1)) {
            1nat
        } else {
            0nat
        })
    }
}

/// The models of a list of answers.
pub open spec fn answers_of(lookups: Seq<Option<BlameInfo>>) -> Seq<Option<Blame>> {
    Seq::new(
        lookups.len(),
        |k: int|
            match lookups[k] {
                Some(info) => Some(info@),
                None => None,
            },
    )
}

/// Enrichment keeps every finding and touches nothing but the history
/// fields.
pub proof fn lemma_history_keeps_findings(
    s: Seq<Finding>,
    lookups: Seq<Option<Blame>>,
    now: i64,
    k: int,
)
    requires
        0 <= k < s.len(),
    ensures
        with_history(s, lookups, now).len() == s.len(),
        ({
            let f = s[k];
            let g = with_history(s, lookups, now)[k];
            &&& g.file_path == f.file_path
            &&& g.line_number == f.line_number
            &&& g.column == f.column
            &&& g.line_content == f.line_content
            &&& g.pattern_type == f.pattern_type
            &&& g.severity == f.severity
            &&& g.file_extension == f.file_extension
            &&& g.duplicate_count == f.duplicate_count
            &&& !is_usable(lookup_at(lookups, k)) ==> g == f
        }),
{
}

/// Applies the results of history lookups to findings.
pub struct GitAnalyzer;

impl GitAnalyzer {
    /// Applies the answer of one lookup to a finding and says whether the
    /// finding was enriched.
    pub fn apply_lookup(item: &mut CodeDebtItem, lookup: Option<&BlameInfo>, now: i64) -> (ok: bool)
        ensures
            final(item)@ == enriched(
                old(item)@,
                match lookup {
                    Some(info) => Some(info@),
                    None => None,
                },
                now,
            ),
            ok == is_usable(
                match lookup {
                    Some(info) => Some(info@),
                    None => None,
                },
            ),
    {
        match lookup {
            Some(info) => {
                if timestamp_is_representable(info.commit_time) {
                    item.author = copy_text(&info.author);
                    item.commit_hash = Some(info.commit_hash.clone());
                    item.created_at = Some(info.commit_time);
                    item.age_days = Some(days_between(info.commit_time, now));
                    true
                } else {
                    false
                }
            },
            None => false,
        }
    }

    /// Enriches each finding by the answer at its position in `history`,
    /// taking `now` as the current instant in seconds since the Unix epoch,
    /// and counts the outcomes. A finding without an answer counts as an
    /// error and stays as it is, and so does one whose answer holds a commit
    /// time that cannot be represented. Without a history, as when there is
    /// no repository, nothing is looked up and nothing is counted.
    pub fn add_git_information(
        history: Option<&Vec<Option<BlameInfo>>>,
        now: i64,
        items: &mut Vec<CodeDebtItem>,
    ) -> (stats: BlameStats)
        ensures
            match history {
                Some(lookups) => {
                    &&& final(items).deep_view() == with_history(
                        old(items).deep_view(),
                        answers_of(lookups@),
                        now,
                    )
                    &&& stats.successes == usable_count(
                        answers_of(lookups@),
                        old(items).len() as nat,
                    )
                    &&& stats.successes + stats.errors == old(items).len()
                },
                None => {
                    &&& final(items).deep_view() == old(items).deep_view()
                    &&& stats == (BlameStats { successes: 0, errors: 0 })
                },
            },
    {
        let lookups = match history {
            Some(lookups) => lookups,
            None => {
                return BlameStats { successes: 0, errors: 0 };
            },
        };
        let n: usize = items.len();
        let ghost input = items.deep_view();
        let ghost answers = answers_of(lookups@);
        let mut successes: usize = 0;
        let mut errors: usize = 0;
        let mut i: usize = 0;
        while i < n
            invariant
                i <= n == items.len(),
                input.len() == n,
                answers == answers_of(lookups@),
                successes == usable_count(answers, i as nat),
                successes + errors == i,
                forall|k: int|
                    0 <= k < i ==> (#[trigger] items@[k])@ == enriched(
                        input[k],
                        lookup_at(answers, k),
                        now,
                    ),
                forall|k: int| i <= k < n ==> (#[trigger] items@[k])@ == input[k],
            decreases n - i,
        {
            let ok = if i < lookups.len() {
                match &lookups[i] {
                    Some(info) => GitAnalyzer::apply_lookup(&mut items[i], Some(info), now),
                    None => false,
                }
            } else {
                false
            };
            if ok {
                successes += 1;
            } else {
                errors += 1;
            }
            i += 1;
        }
        proof {
            assert(items.deep_view() =~= with_history(input, answers, now));
        }
        BlameStats { successes, errors }
    }
}

} // verus!
