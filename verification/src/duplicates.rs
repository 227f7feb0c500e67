//! Duplicate detection: how many findings of a result set share a
//! detector and a line.

use crate::models::{CodeDebtItem, Finding};
use crate::scanner::CodeDebtScanner;
use crate::text::{chars_of, trim, trimmed};
use vstd::hash_map::StringHashMap;
use vstd::prelude::*;

verus! {

/// What duplicate detection compares: the detector's name and the line
/// without surrounding white space.
pub open spec fn duplicate_key(f: Finding) -> (Seq<char>, Seq<char>) {
    (f.pattern_type, trimmed(f.line_content))
}

/// The predicate that holds of the findings with a given key.
pub open spec fn has_key(key: (Seq<char>, Seq<char>)) -> spec_fn(Finding) -> bool {
    |f: Finding| duplicate_key(f) == key
}

/// The number of findings with a given key.
pub open spec fn occurrences(s: Seq<Finding>, key: (Seq<char>, Seq<char>)) -> nat {
    s.filter(has_key(key)).len()
}

/// The findings, each with the number of findings of the sequence that share
/// its key, itself included, as its duplicate count.
pub open spec fn with_duplicate_counts(s: Seq<Finding>) -> Seq<Finding> {
    Seq::new(
        s.len(),
        |i: int| Finding { duplicate_count: occurrences(s, duplicate_key(s[i])), ..s[i] },
    )
}

/// One more finding raises the count of its own key by one and leaves the
/// others.
pub proof fn lemma_occurrences_push(s: Seq<Finding>, f: Finding, key: (Seq<char>, Seq<char>))
    ensures
        occurrences(s.push(f), key) == occurrences(s, key) + (if duplicate_key(f) == key {
            1nat
        } else {
            0nat
        }),
        occurrences(s, key) <= s.len(),
{
    s.lemma_filter_push(f, has_key(key));
    s.lemma_filter_len(has_key(key));
}

/// A key is counted in two sequences alike if they agree, position by
/// position, on which findings have the key.
pub proof fn lemma_occurrences_by_position(
    a: Seq<Finding>,
    b: Seq<Finding>,
    key: (Seq<char>, Seq<char>),
)
    requires
        a.len() == b.len(),
        forall|k: int| 0 <= k < a.len() ==> duplicate_key(a[k]) == duplicate_key(b[k]),
    ensures
        occurrences(a, key) == occurrences(b, key),
    decreases a.len(),
{
    if a.len() == 0 {
        assert(a =~= b);
    } else {
        lemma_occurrences_by_position(a.drop_last(), b.drop_last(), key);
        assert(a =~= a.drop_last().push(a.last()));
        assert(b =~= b.drop_last().push(b.last()));
        lemma_occurrences_push(a.drop_last(), a.last(), key);
        lemma_occurrences_push(b.drop_last(), b.last(), key);
    }
}

/// After duplicate detection, findings that share a detector and a trimmed
/// line have equal duplicate counts, and the count is the number of such
/// findings in the result, which is at least 1.
pub proof fn lemma_duplicate_counts(s: Seq<Finding>, i: int, j: int)
    requires
        0 <= i < s.len(),
        0 <= j < s.len(),
    ensures
        ({
            let r = with_duplicate_counts(s);
            &&& r.len() == s.len()
            &&& duplicate_key(r[i]) == duplicate_key(s[i])
            &&& r[i].duplicate_count == occurrences(r, duplicate_key(r[i]))
            &&& r[i].duplicate_count >= 1
            &&& duplicate_key(r[i]) == duplicate_key(r[j]) ==> r[i].duplicate_count
                == r[j].duplicate_count
        }),
{
    let r = with_duplicate_counts(s);
    let key = duplicate_key(s[i]);
    lemma_occurrences_by_position(r, s, key);
    s.lemma_filter_contains(has_key(key), i);
}

/// Duplicate detection keeps every finding and touches nothing but the
/// duplicate count.
pub proof fn lemma_duplicate_counts_keep_findings(s: Seq<Finding>, k: int)
    requires
        0 <= k < s.len(),
    ensures
        with_duplicate_counts(s).len() == s.len(),
        with_duplicate_counts(s)[k] == (Finding {
            duplicate_count: with_duplicate_counts(s)[k].duplicate_count,
            ..s[k]
        }),
{
}

/// What the counting pass has counted for a key: the entry for the line in
/// the group of the detector's name, or zero where there is none.
pub open spec fn counted(
    names: Map<Seq<char>, usize>,
    groups: Seq<StringHashMap<usize>>,
    key: (Seq<char>, Seq<char>),
) -> nat {
    if names.contains_key(key.0) && 0 <= names[key.0] < groups.len()
        && groups[names[key.0] as int]@.contains_key(key.1) {
        groups[names[key.0] as int]@[key.1] as nat
    } else {
        0
    }
}

/// Whether the counting pass holds the counts of the findings seen so far.
pub open spec fn counts_hold(
    names: Map<Seq<char>, usize>,
    groups: Seq<StringHashMap<usize>>,
    seen: Seq<Finding>,
) -> bool {
    &&& forall|name: Seq<char>| #[trigger]
        names.contains_key(name) ==> names[name] < groups.len()
    &&& forall|a: Seq<char>, b: Seq<char>|
        #![trigger names.contains_key(a), names.contains_key(b)]
        names.contains_key(a) && names.contains_key(b) && names[a] == names[b] ==> a == b
    &&& forall|key: (Seq<char>, Seq<char>)| #[trigger]
        counted(names, groups, key) == occurrences(seen, key)
}

impl CodeDebtScanner {
    /// Writes onto each finding the number of findings of the set that share
    /// its detector and its trimmed line, itself included. No finding is
    /// added or removed, and no other field changes.
    pub fn detect_duplicate_patterns(&self, items: &mut Vec<CodeDebtItem>)
        ensures
            final(items).deep_view() == with_duplicate_counts(old(items).deep_view()),
    {
        let n: usize = items.len();
        let ghost input = items.deep_view();
        let mut lines: Vec<String> = Vec::new();
        let mut names: StringHashMap<usize> = StringHashMap::new();
        let mut groups: Vec<StringHashMap<usize>> = Vec::new();
        let mut i: usize = 0;
        proof {
            assert(input.take(0) =~= Seq::<Finding>::empty());
            assert forall|key: (Seq<char>, Seq<char>)| #[trigger]
                counted(names@, groups@, key) == occurrences(input.take(0), key) by {
                Seq::<Finding>::empty().lemma_filter_len(has_key(key));
            }
        }
        while i < n
            invariant
                i <= n == items.len(),
                input == items.deep_view(),
                lines.len() == i,
                forall|k: int|
                    0 <= k < i ==> (#[trigger] lines@[k])@ == trimmed(input[k].line_content),
                counts_hold(names@, groups@, input.take(i as int)),
            decreases n - i,
        {
            let line = trim(&chars_of(items[i].line_content.as_str()));
            let name = &items[i].pattern_type;
            let ghost seen = input.take(i as int);
            let ghost key = (name@, line@);
            let ghost old_names = names@;
            let ghost old_groups = groups@;
            proof {
                assert(input[i as int] == items@[i as int]@);
                assert(key == duplicate_key(input[i as int]));
                assert(input.take(i + 1) =~= seen.push(input[i as int]));
            }
            let g: usize = match names.get(name.as_str()) {
                Some(g) => *g,
                None => {
                    let g: usize = groups.len();
                    names.insert(name.clone(), g);
                    groups.push(StringHashMap::new());
                    g
                },
            };
            proof {
                assert forall|k: (Seq<char>, Seq<char>)| #[trigger]
                    counted(names@, groups@, k) == occurrences(seen, k) by {
                    assert(counted(old_names, old_groups, k) == occurrences(seen, k));
                    if old_names.contains_key(k.0) {
                        assert(old_names[k.0] < old_groups.len());
                    }
                }
                assert forall|a: Seq<char>, b: Seq<char>|
                    #![trigger names@.contains_key(a), names@.contains_key(b)]
                    names@.contains_key(a) && names@.contains_key(b) && names@[a]
                        == names@[b] implies a == b by {
                    if old_names.contains_key(a) {
                        assert(old_names[a] < old_groups.len());
                    }
                    if old_names.contains_key(b) {
                        assert(old_names[b] < old_groups.len());
                    }
                    if old_names.contains_key(a) && old_names.contains_key(b) {
                        assert(old_names[a] == old_names[b]);
                    }
                }
                assert forall|name: Seq<char>| #[trigger]
                    names@.contains_key(name) implies names@[name] < groups.len() by {
                    if old_names.contains_key(name) {
                        assert(old_names[name] < old_groups.len());
                    }
                }
                assert(counts_hold(names@, groups@, seen));
                assert(names@.contains_key(key.0) && names@[key.0] == g);
            }
            let ghost mid_groups = groups@;
            let c: usize = match groups[g].get(line.as_str()) {
                Some(c) => *c,
                None => 0,
            };
            proof {
                assert(c == counted(names@, mid_groups, key));
                lemma_occurrences_push(seen, input[i as int], key);
            }
            groups[g].insert(line.clone(), c + 1);
            proof {
                assert forall|k: (Seq<char>, Seq<char>)| #[trigger]
                    counted(names@, groups@, k) == occurrences(seen.push(input[i as int]), k) by {
                    lemma_occurrences_push(seen, input[i as int], k);
                    assert(counted(names@, mid_groups, k) == occurrences(seen, k));
                    if names@.contains_key(k.0) {
                        assert(names@[k.0] < mid_groups.len());
                        if k.0 != key.0 {
                            assert(names@.contains_key(key.0));
                            assert(names@[k.0] != g);
                        }
                    }
                }
            }
            lines.push(line);
            i += 1;
        }
        proof {
            assert(input.take(n as int) =~= input);
        }
        let mut j: usize = 0;
        while j < n
            invariant
                j <= n == items.len(),
                lines.len() == n,
                input.len() == n,
                forall|k: int|
                    0 <= k < n ==> (#[trigger] lines@[k])@ == trimmed(input[k].line_content),
                counts_hold(names@, groups@, input),
                forall|k: int|
                    0 <= k < j ==> (#[trigger] items@[k])@ == (Finding {
                        duplicate_count: occurrences(input, duplicate_key(input[k])),
                        ..input[k]
                    }),
                forall|k: int| j <= k < n ==> (#[trigger] items@[k])@ == input[k],
            decreases n - j,
        {
            let ghost key = duplicate_key(input[j as int]);
            proof {
                assert(items@[j as int]@ == input[j as int]);
                assert(counted(names@, groups@, key) == occurrences(input, key));
                lemma_occurrences_push(input, input[j as int], key);
            }
            let count: usize = match names.get(items[j].pattern_type.as_str()) {
                Some(g) => {
                    if *g < groups.len() {
                        match groups[*g].get(lines[j].as_str()) {
                            Some(c) => *c,
                            None => 0,
                        }
                    } else {
                        0
                    }
                },
                None => 0,
            };
            assert(count == occurrences(input, key));
            items[j].duplicate_count = count;
            j += 1;
        }
        proof {
            assert(items.deep_view() =~= with_duplicate_counts(input));
        }
    }
}

} // verus!
