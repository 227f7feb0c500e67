//! Orders on findings and a stable merge sort by them.

use crate::models::{CodeDebtItem, Finding};
use crate::text::{
    chars_of, compare_text, lemma_text_le_total, lemma_text_le_transitive, text_le, TextOrder,
};
use vstd::prelude::*;
use vstd::seq_lib::{to_multiset_build, to_multiset_contains, to_multiset_remove};
use vstd::set_lib::{lemma_int_range, lemma_len_subset, lemma_subset_equality, set_int_range};

verus! {

/// The orders in which findings are presented.
#[derive(Debug, Clone, Copy, PartialEq, Eq, Structural)]
pub enum FindingOrder {
    /// Most severe first, then by file path, then by line number: the order
    /// of a scan's result.
    Canonical,
    /// Most severe first, then by file path.
    SeverityThenPath,
    /// Least severe first, then by file path.
    LeastSevereFirst,
    /// By file path, then by line number.
    File,
    /// Oldest first, a finding of unknown age counting as zero days old,
    /// then most severe first.
    Age,
}

/// What an order reads of a finding.
pub struct OrderKey {
    pub rank: int,
    pub path: Seq<char>,
    pub line: nat,
    pub age: int,
}

/// The key of a finding.
pub open spec fn order_key(f: Finding) -> OrderKey {
    OrderKey {
        rank: f.severity.spec_rank() as int,
        path: f.file_path,
        line: f.line_number,
        age: match f.age_days {
            Some(days) => days,
            None => 0,
        },
    }
}

/// Whether, in the given order, a finding with key `a` may stand before one
/// with key `b`: `a` sorts before `b`, or the order does not tell them
/// apart.
pub open spec fn key_precedes(order: FindingOrder, a: OrderKey, b: OrderKey) -> bool {
    match order {
        FindingOrder::Canonical => a.rank < b.rank || (a.rank == b.rank && (if a.path == b.path {
            a.line <= b.line
        } else {
            text_le(a.path, b.path)
        })),
        FindingOrder::SeverityThenPath => a.rank < b.rank || (a.rank == b.rank && text_le(
            a.path,
            b.path,
        )),
        FindingOrder::LeastSevereFirst => a.rank > b.rank || (a.rank == b.rank && text_le(
            a.path,
            b.path,
        )),
        FindingOrder::File => if a.path == b.path {
            a.line <= b.line
        } else {
            text_le(a.path, b.path)
        },
        FindingOrder::Age => a.age > b.age || (a.age == b.age && a.rank <= b.rank),
    }
}

/// Whether, in the given order, finding `a` may stand before finding `b`.
pub open spec fn precedes(order: FindingOrder, a: Finding, b: Finding) -> bool {
    key_precedes(order, order_key(a), order_key(b))
}

/// Whether each finding of the sequence may stand before every later one.
pub open spec fn is_ordered(order: FindingOrder, s: Seq<Finding>) -> bool {
    forall|a: int, b: int|
        0 <= a < b < s.len() ==> precedes(order, #[trigger] s[a], #[trigger] s[b])
}

/// Whether `p` rearranges `input` into `output` as a stable sort does:
/// `output[k]` is `input[p[k]]`, findings stand in the given order, and
/// findings that the order does not tell apart stand as they stood in
/// `input`. No position is used twice, so `output` holds the findings of
/// `input`, each once.
pub open spec fn is_stable_arrangement(
    order: FindingOrder,
    input: Seq<Finding>,
    output: Seq<Finding>,
    p: Seq<int>,
) -> bool {
    &&& p.len() == input.len()
    &&& output.len() == input.len()
    &&& forall|k: int|
        0 <= k < p.len() ==> 0 <= #[trigger] p[k] < input.len() && output[k] == input[p[k]]
    &&& forall|a: int, b: int|
        0 <= a < b < p.len() ==> precedes(order, input[#[trigger] p[a]], input[#[trigger] p[b]])
            && (precedes(order, input[p[b]], input[p[a]]) ==> p[a] < p[b])
}

/// Whether `output` is `input` sorted stably in the given order.
pub open spec fn is_stable_sort(
    order: FindingOrder,
    input: Seq<Finding>,
    output: Seq<Finding>,
) -> bool {
    exists|p: Seq<int>| is_stable_arrangement(order, input, output, p)
}

/// Whether `p` rearranges `input` into `output`: `output[k]` is
/// `input[p[k]]`, and no position of `input` is used twice.
pub open spec fn is_arrangement(input: Seq<Finding>, output: Seq<Finding>, p: Seq<int>) -> bool {
    &&& p.len() == input.len()
    &&& output.len() == input.len()
    &&& forall|k: int|
        0 <= k < p.len() ==> 0 <= #[trigger] p[k] < input.len() && output[k] == input[p[k]]
    &&& forall|a: int, b: int| 0 <= a < b < p.len() ==> #[trigger] p[a] != #[trigger] p[b]
}

/// Whether `output` holds the findings of `input`, each once, in some order.
pub open spec fn is_rearrangement(input: Seq<Finding>, output: Seq<Finding>) -> bool {
    exists|p: Seq<int>| is_arrangement(input, output, p)
}

/// Every order compares any two keys.
pub proof fn lemma_key_precedes_total(order: FindingOrder, a: OrderKey, b: OrderKey)
    ensures
        key_precedes(order, a, b) || key_precedes(order, b, a),
{
    lemma_text_le_total(a.path, b.path);
}

/// Every order is transitive.
pub proof fn lemma_key_precedes_transitive(
    order: FindingOrder,
    a: OrderKey,
    b: OrderKey,
    c: OrderKey,
)
    requires
        key_precedes(order, a, b),
        key_precedes(order, b, c),
    ensures
        key_precedes(order, a, c),
{
    lemma_text_le_total(a.path, b.path);
    lemma_text_le_total(b.path, c.path);
    lemma_text_le_total(a.path, c.path);
    if text_le(a.path, b.path) && text_le(b.path, c.path) {
        lemma_text_le_transitive(a.path, b.path, c.path);
    }
    if text_le(c.path, a.path) && text_le(a.path, b.path) {
        lemma_text_le_transitive(c.path, a.path, b.path);
        lemma_text_le_total(c.path, b.path);
    }
    if text_le(b.path, c.path) && text_le(c.path, a.path) {
        lemma_text_le_transitive(b.path, c.path, a.path);
        lemma_text_le_total(b.path, a.path);
    }
}

/// In the canonical order, of any two findings the earlier one is strictly
/// more severe, or as severe and in a file whose path comes strictly first,
/// or as severe and in the same file on a line whose number is not greater.
pub proof fn lemma_canonical_order(s: Seq<Finding>, a: int, b: int)
    requires
        is_ordered(FindingOrder::Canonical, s),
        0 <= a < b < s.len(),
    ensures
        ({
            let x = s[a];
            let y = s[b];
            ||| x.severity.spec_rank() < y.severity.spec_rank()
            ||| x.severity == y.severity && x.file_path != y.file_path && text_le(
                x.file_path,
                y.file_path,
            )
            ||| x.severity == y.severity && x.file_path == y.file_path && x.line_number
                <= y.line_number
        }),
{
    assert(precedes(FindingOrder::Canonical, s[a], s[b]));
}

/// A stably sorted sequence is ordered and as long as its input, and each of
/// its findings is one of the input.
pub proof fn lemma_stable_sort_is_ordered(
    order: FindingOrder,
    input: Seq<Finding>,
    output: Seq<Finding>,
)
    requires
        is_stable_sort(order, input, output),
    ensures
        is_ordered(order, output),
        output.len() == input.len(),
        forall|k: int| 0 <= k < output.len() ==> input.contains(#[trigger] output[k]),
{
    let p = choose|p: Seq<int>| is_stable_arrangement(order, input, output, p);
    assert forall|a: int, b: int| 0 <= a < b < output.len() implies precedes(
        order,
        #[trigger] output[a],
        #[trigger] output[b],
    ) by {
        assert(precedes(order, input[p[a]], input[p[b]]));
    }
    assert forall|k: int| 0 <= k < output.len() implies input.contains(#[trigger] output[k]) by {
        assert(output[k] == input[p[k]]);
    }
}

/// A stable sort rearranges: it neither adds nor drops a finding.
pub proof fn lemma_stable_sort_rearranges(
    order: FindingOrder,
    input: Seq<Finding>,
    output: Seq<Finding>,
)
    requires
        is_stable_sort(order, input, output),
    ensures
        is_rearrangement(input, output),
{
    let p = choose|p: Seq<int>| is_stable_arrangement(order, input, output, p);
    assert forall|a: int, b: int| 0 <= a < b < p.len() implies #[trigger] p[a]
        != #[trigger] p[b] by {
        assert(precedes(order, input[p[a]], input[p[b]]));
    }
    assert(is_arrangement(input, output, p));
}

/// What an arrangement rearranges and what it yields hold the same findings
/// the same number of times.
proof fn lemma_arrangement_same_multiset(input: Seq<Finding>, output: Seq<Finding>, p: Seq<int>)
    requires
        is_arrangement(input, output, p),
    ensures
        input.to_multiset() == output.to_multiset(),
    decreases input.len(),
{
    broadcast use vstd::multiset::group_multiset_axioms;

    let n = input.len() as int;
    if n == 0 {
        assert(input =~= output);
    } else {
        let at = p[n - 1];
        let rest_in = input.remove(at);
        let rest_out = output.drop_last();
        let q = Seq::new(
            (n - 1) as nat,
            |k: int|
                if p[k] < at {
                    p[k]
                } else {
                    p[k] - 1
                },
        );
        input.remove_ensures(at);
        assert forall|k: int| 0 <= k < q.len() implies 0 <= #[trigger] q[k] < rest_in.len()
            && rest_out[k] == rest_in[q[k]] by {
            assert(p[k] != p[n - 1]);
            assert(0 <= p[k] < n);
            assert(output[k] == input[p[k]]);
        }
        assert forall|a: int, b: int| 0 <= a < b < q.len() implies #[trigger] q[a]
            != #[trigger] q[b] by {
            assert(p[a] != p[b]);
            assert(p[a] != p[n - 1]);
            assert(p[b] != p[n - 1]);
        }
        assert(is_arrangement(rest_in, rest_out, q));
        lemma_arrangement_same_multiset(rest_in, rest_out, q);
        to_multiset_remove(input, at);
        to_multiset_build(rest_out, output.last());
        assert(output =~= rest_out.push(output.last()));
        assert(output.last() == input[at]);
        assert(input.contains(input[at]));
        to_multiset_contains(input, input[at]);
        assert(input.to_multiset() =~= input.to_multiset().remove(input[at]).insert(input[at]));
    }
}

/// A rearrangement neither adds nor drops a finding: it holds each finding
/// as often as the sequence it rearranges.
pub proof fn lemma_rearrangement_same_multiset(input: Seq<Finding>, output: Seq<Finding>)
    requires
        is_rearrangement(input, output),
    ensures
        input.to_multiset() == output.to_multiset(),
{
    let p = choose|p: Seq<int>| is_arrangement(input, output, p);
    lemma_arrangement_same_multiset(input, output, p);
}

/// A rearrangement of a rearrangement is a rearrangement.
pub proof fn lemma_rearrangement_transitive(a: Seq<Finding>, b: Seq<Finding>, c: Seq<Finding>)
    requires
        is_rearrangement(a, b),
        is_rearrangement(b, c),
    ensures
        is_rearrangement(a, c),
{
    let p = choose|p: Seq<int>| is_arrangement(a, b, p);
    let q = choose|q: Seq<int>| is_arrangement(b, c, q);
    let r = Seq::new(c.len(), |k: int| p[q[k]]);
    assert forall|k: int| 0 <= k < r.len() implies 0 <= #[trigger] r[k] < a.len() && c[k]
        == a[r[k]] by {
        assert(0 <= q[k] < b.len());
        assert(c[k] == b[q[k]]);
        assert(b[q[k]] == a[p[q[k]]]);
    }
    assert forall|x: int, y: int| 0 <= x < y < r.len() implies #[trigger] r[x]
        != #[trigger] r[y] by {
        assert(q[x] != q[y]);
        assert(0 <= q[x] < b.len() && 0 <= q[y] < b.len());
        if q[x] < q[y] {
            assert(p[q[x]] != p[q[y]]);
        } else {
            assert(p[q[y]] != p[q[x]]);
        }
    }
    assert(is_arrangement(a, c, r));
}

/// A list of `n` different positions below `n` holds every position below
/// `n`.
pub proof fn lemma_positions_cover(p: Seq<int>, x: int)
    requires
        forall|k: int| 0 <= k < p.len() ==> 0 <= #[trigger] p[k] < p.len(),
        forall|a: int, b: int| 0 <= a < b < p.len() ==> #[trigger] p[a] != #[trigger] p[b],
        0 <= x < p.len(),
    ensures
        p.contains(x),
{
    let n = p.len() as int;
    let range = set_int_range(0, n);
    assert(p.no_duplicates()) by {
        assert forall|i: int, j: int| 0 <= i < p.len() && 0 <= j < p.len() && i != j implies p[i]
            != p[j] by {
            if i < j {
                assert(p[i] != p[j]);
            } else {
                assert(p[j] != p[i]);
            }
        }
    }
    p.unique_seq_to_set();
    lemma_int_range(0, n);
    assert(p.to_set().subset_of(range)) by {
        assert forall|a: int| p.to_set().contains(a) implies range.contains(a) by {
            let k = choose|k: int| 0 <= k < p.len() && p[k] == a;
            assert(0 <= p[k] < p.len());
        }
    }
    lemma_len_subset(p.to_set(), range);
    lemma_subset_equality(p.to_set(), range);
    assert(range.contains(x));
    assert(p.to_set().contains(x));
}

/// Two stable arrangements of the same findings in the same order agree on
/// their first `k` positions.
proof fn lemma_arrangements_agree(
    order: FindingOrder,
    input: Seq<Finding>,
    first: Seq<Finding>,
    second: Seq<Finding>,
    p: Seq<int>,
    q: Seq<int>,
    k: int,
)
    requires
        is_stable_arrangement(order, input, first, p),
        is_stable_arrangement(order, input, second, q),
        0 <= k <= input.len(),
    ensures
        forall|j: int| 0 <= j < k ==> p[j] == q[j],
    decreases k,
{
    if k > 0 {
        lemma_arrangements_agree(order, input, first, second, p, q, k - 1);
        let x = p[k - 1];
        let y = q[k - 1];
        if x != y {
            assert forall|a: int, b: int| 0 <= a < b < p.len() implies #[trigger] p[a]
                != #[trigger] p[b] by {
                assert(precedes(order, input[p[a]], input[p[b]]));
            }
            assert forall|a: int, b: int| 0 <= a < b < q.len() implies #[trigger] q[a]
                != #[trigger] q[b] by {
                assert(precedes(order, input[q[a]], input[q[b]]));
            }
            lemma_positions_cover(q, x);
            lemma_positions_cover(p, y);
            let m = choose|m: int| 0 <= m < q.len() && q[m] == x;
            let w = choose|w: int| 0 <= w < p.len() && p[w] == y;
            if m < k - 1 {
                assert(p[m] == q[m]);
                assert(p[m] != p[k - 1]);
            }
            if w < k - 1 {
                assert(p[w] == q[w]);
                assert(q[w] != q[k - 1]);
            }
            assert(precedes(order, input[q[k - 1]], input[q[m]]));
            assert(precedes(order, input[p[k - 1]], input[p[w]]));
        }
    }
}

/// A stable sort has one result: two sequences that are both the given
/// findings sorted stably in the given order are equal.
pub proof fn lemma_stable_sort_unique(
    order: FindingOrder,
    input: Seq<Finding>,
    first: Seq<Finding>,
    second: Seq<Finding>,
)
    requires
        is_stable_sort(order, input, first),
        is_stable_sort(order, input, second),
    ensures
        first == second,
{
    let p = choose|p: Seq<int>| is_stable_arrangement(order, input, first, p);
    let q = choose|q: Seq<int>| is_stable_arrangement(order, input, second, q);
    lemma_arrangements_agree(order, input, first, second, p, q, input.len() as int);
    assert(first =~= second) by {
        assert forall|k: int| 0 <= k < first.len() implies first[k] == second[k] by {
            assert(first[k] == input[p[k]]);
            assert(second[k] == input[q[k]]);
        }
    }
}

/// The key of a finding as the sort reads it, with the path held as
/// characters.
pub struct SortKey {
    pub rank: u8,
    pub path: Vec<char>,
    pub line: usize,
    pub age: i64,
}

impl View for SortKey {
    type V = OrderKey;

    open spec fn view(&self) -> OrderKey {
        OrderKey {
            rank: self.rank as int,
            path: self.path@,
            line: self.line as nat,
            age: self.age as int,
        }
    }
}

impl DeepView for SortKey {
    type V = OrderKey;

    open spec fn deep_view(&self) -> OrderKey {
        self@
    }
}

impl SortKey {
    /// The key of a finding.
    pub fn of(item: &CodeDebtItem) -> (key: SortKey)
        ensures
            key@ == order_key(item@),
    {
        SortKey {
            rank: item.severity.rank(),
            path: chars_of(item.file_path.as_str()),
            line: item.line_number,
            age: match item.age_days {
                Some(days) => days,
                None => 0,
            },
        }
    }

    /// Whether a finding with this key may stand before one with the other
    /// key.
    pub fn precedes(&self, order: FindingOrder, other: &SortKey) -> (r: bool)
        ensures
            r == key_precedes(order, self@, other@),
    {
        match order {
            FindingOrder::Canonical => {
                if self.rank != other.rank {
                    self.rank < other.rank
                } else {
                    match compare_text(&self.path, &other.path) {
                        TextOrder::Before => true,
                        TextOrder::Same => self.line <= other.line,
                        TextOrder::After => false,
                    }
                }
            },
            FindingOrder::SeverityThenPath => {
                if self.rank != other.rank {
                    self.rank < other.rank
                } else {
                    proof {
                        lemma_text_le_total(self.path@, other.path@);
                    }
                    match compare_text(&self.path, &other.path) {
                        TextOrder::Before => true,
                        TextOrder::Same => true,
                        TextOrder::After => false,
                    }
                }
            },
            FindingOrder::LeastSevereFirst => {
                if self.rank != other.rank {
                    self.rank > other.rank
                } else {
                    proof {
                        lemma_text_le_total(self.path@, other.path@);
                    }
                    match compare_text(&self.path, &other.path) {
                        TextOrder::Before => true,
                        TextOrder::Same => true,
                        TextOrder::After => false,
                    }
                }
            },
            FindingOrder::File => {
                match compare_text(&self.path, &other.path) {
                    TextOrder::Before => true,
                    TextOrder::Same => self.line <= other.line,
                    TextOrder::After => false,
                }
            },
            FindingOrder::Age => {
                if self.age != other.age {
                    self.age > other.age
                } else {
                    self.rank <= other.rank
                }
            },
        }
    }
}

/// Whether position `i` comes before position `j` when the keys are sorted
/// stably: its key precedes the other, and the position decides where the
/// order does not tell the keys apart.
pub open spec fn position_before(order: FindingOrder, keys: Seq<OrderKey>, i: int, j: int) -> bool {
    key_precedes(order, keys[i], keys[j]) && (key_precedes(order, keys[j], keys[i]) ==> i < j)
}

/// Whether `p` lists positions between `lo` and `hi`, each before the next
/// in the stable order of the keys.
pub open spec fn is_sorted_positions(
    order: FindingOrder,
    keys: Seq<OrderKey>,
    p: Seq<usize>,
    lo: int,
    hi: int,
) -> bool {
    &&& forall|k: int| 0 <= k < p.len() ==> lo <= #[trigger] p[k] < hi
    &&& forall|a: int, b: int|
        0 <= a < b < p.len() ==> position_before(
            order,
            keys,
            #[trigger] p[a] as int,
            #[trigger] p[b] as int,
        )
}

/// Merges two sorted runs of positions, the first drawn from below `mid` and
/// the second from `mid` on.
fn merge_runs(
    order: FindingOrder,
    keys: &Vec<SortKey>,
    left: &Vec<usize>,
    right: &Vec<usize>,
    lo: usize,
    mid: usize,
    hi: usize,
) -> (out: Vec<usize>)
    requires
        lo <= mid <= hi <= keys.len(),
        is_sorted_positions(order, keys.deep_view(), left@, lo as int, mid as int),
        is_sorted_positions(order, keys.deep_view(), right@, mid as int, hi as int),
        left.len() + right.len() <= usize::MAX,
    ensures
        out.len() == left.len() + right.len(),
        is_sorted_positions(order, keys.deep_view(), out@, lo as int, hi as int),
{
    let ghost ks = keys.deep_view();
    let mut out: Vec<usize> = Vec::new();
    let mut i: usize = 0;
    let mut j: usize = 0;
    while i < left.len() || j < right.len()
        invariant
            i <= left.len(),
            j <= right.len(),
            out.len() == i + j,
            lo <= mid <= hi <= keys.len(),
            ks == keys.deep_view(),
            left.len() + right.len() <= usize::MAX,
            is_sorted_positions(order, ks, left@, lo as int, mid as int),
            is_sorted_positions(order, ks, right@, mid as int, hi as int),
            is_sorted_positions(order, ks, out@, lo as int, hi as int),
            forall|a: int, x: int|
                0 <= a < out.len() && i <= x < left.len() ==> position_before(
                    order,
                    ks,
                    #[trigger] out@[a] as int,
                    #[trigger] left@[x] as int,
                ),
            forall|a: int, y: int|
                0 <= a < out.len() && j <= y < right.len() ==> position_before(
                    order,
                    ks,
                    #[trigger] out@[a] as int,
                    #[trigger] right@[y] as int,
                ),
        decreases left.len() - i + right.len() - j,
    {
        let take_left: bool = if i >= left.len() {
            false
        } else if j >= right.len() {
            true
        } else {
            keys[left[i]].precedes(order, &keys[right[j]])
        };
        if take_left {
            let x: usize = left[i];
            proof {
                assert forall|y: int| j <= y < right.len() implies position_before(
                    order,
                    ks,
                    x as int,
                    #[trigger] right@[y] as int,
                ) by {
                    let r0 = right@[j as int];
                    let ry = right@[y];
                    if y > j {
                        assert(position_before(order, ks, r0 as int, ry as int));
                        lemma_key_precedes_transitive(
                            order,
                            ks[x as int],
                            ks[r0 as int],
                            ks[ry as int],
                        );
                    }
                }
            }
            out.push(x);
            i += 1;
        } else {
            let y: usize = right[j];
            proof {
                assert forall|x: int| i <= x < left.len() implies position_before(
                    order,
                    ks,
                    y as int,
                    #[trigger] left@[x] as int,
                ) by {
                    let l0 = left@[i as int];
                    let lx = left@[x];
                    lemma_key_precedes_total(order, ks[l0 as int], ks[y as int]);
                    if x > i {
                        assert(position_before(order, ks, l0 as int, lx as int));
                        lemma_key_precedes_transitive(
                            order,
                            ks[y as int],
                            ks[l0 as int],
                            ks[lx as int],
                        );
                        if key_precedes(order, ks[lx as int], ks[y as int]) {
                            lemma_key_precedes_transitive(
                                order,
                                ks[l0 as int],
                                ks[lx as int],
                                ks[y as int],
                            );
                        }
                    }
                }
            }
            out.push(y);
            j += 1;
        }
    }
    out
}

/// The positions `lo..hi` in the stable order of their keys.
fn sort_range(order: FindingOrder, keys: &Vec<SortKey>, lo: usize, hi: usize) -> (p: Vec<usize>)
    requires
        lo <= hi <= keys.len(),
    ensures
        p.len() == hi - lo,
        is_sorted_positions(order, keys.deep_view(), p@, lo as int, hi as int),
    decreases hi - lo,
{
    if hi - lo == 0 {
        Vec::new()
    } else if hi - lo == 1 {
        let mut p: Vec<usize> = Vec::new();
        p.push(lo);
        p
    } else {
        let mid: usize = lo + (hi - lo) / 2;
        let left = sort_range(order, keys, lo, mid);
        let right = sort_range(order, keys, mid, hi);
        merge_runs(order, keys, &left, &right, lo, mid, hi)
    }
}

/// The findings sorted stably in the given order.
pub fn sort_findings(order: FindingOrder, items: &Vec<CodeDebtItem>) -> (sorted: Vec<CodeDebtItem>)
    ensures
        is_stable_sort(order, items.deep_view(), sorted.deep_view()),
        is_ordered(order, sorted.deep_view()),
        is_rearrangement(items.deep_view(), sorted.deep_view()),
        sorted.len() == items.len(),
{
    let n: usize = items.len();
    let ghost input = items.deep_view();
    let mut keys: Vec<SortKey> = Vec::new();
    let mut i: usize = 0;
    while i < n
        invariant
            i <= n == items.len(),
            keys.len() == i,
            input == items.deep_view(),
            forall|k: int| 0 <= k < i ==> (#[trigger] keys@[k])@ == order_key(input[k]),
        decreases n - i,
    {
        keys.push(SortKey::of(&items[i]));
        i += 1;
    }
    let positions = sort_range(order, &keys, 0, n);
    let ghost p = Seq::new(n as nat, |k: int| positions@[k] as int);
    let ghost ks = keys.deep_view();
    let mut sorted: Vec<CodeDebtItem> = Vec::new();
    let mut k: usize = 0;
    while k < n
        invariant
            k <= n == items.len(),
            positions.len() == n,
            sorted.len() == k,
            input == items.deep_view(),
            forall|m: int| 0 <= m < n ==> 0 <= #[trigger] positions@[m] < n,
            forall|m: int| 0 <= m < k ==> (#[trigger] sorted@[m])@ == input[positions@[m] as int],
        decreases n - k,
    {
        sorted.push(items[positions[k]].clone());
        k += 1;
    }
    proof {
        let output = sorted.deep_view();
        assert forall|a: int, b: int| 0 <= a < b < p.len() implies precedes(
            order,
            input[#[trigger] p[a]],
            input[#[trigger] p[b]],
        ) && (precedes(order, input[p[b]], input[p[a]]) ==> p[a] < p[b]) by {
            assert(position_before(order, ks, positions@[a] as int, positions@[b] as int));
            assert(ks[p[a]] == keys@[p[a]]@);
            assert(ks[p[b]] == keys@[p[b]]@);
        }
        assert forall|m: int| 0 <= m < p.len() implies 0 <= #[trigger] p[m] < input.len()
            && output[m] == input[p[m]] by {
            assert(output[m] == sorted@[m]@);
        }
        assert(is_stable_arrangement(order, input, output, p));
        lemma_stable_sort_is_ordered(order, input, output);
        lemma_stable_sort_rearranges(order, input, output);
    }
    sorted
}

} // verus!
