use vstd::prelude::*;
use vstd::relations::{sorted_by, total_ordering};
use vstd::seq_lib::lemma_sorted_unique;
use crate::providers::Ranobe;

verus! {

broadcast use
    vstd::seq_lib::group_to_multiset_ensures,
    vstd::seq_lib::to_multiset_insert,
    vstd::seq_lib::to_multiset_remove,
    vstd::seq_lib::to_multiset_len,
    vstd::multiset::group_multiset_axioms;

// ---------------------------------------------------------------------------
// The match predicate.
//
// The scoring engine declares a candidate a match exactly when the query's
// characters appear, in order, as a subsequence of the candidate's text. The
// comparison is "smart case": case-sensitive only when the query itself holds
// an ASCII uppercase letter. The predicates below mirror that scan.
// ---------------------------------------------------------------------------

pub open spec fn is_ascii_upper(c: char) -> bool {
    65 <= c as u32 <= 90
}

pub open spec fn is_ascii_lower(c: char) -> bool {
    97 <= c as u32 <= 122
}

/// Character equality up to ASCII case: equal outright, or the same letter
/// with one side uppercase and the other lowercase.
pub open spec fn ascii_eq_ignore_case(a: char, b: char) -> bool {
    ||| a == b
    ||| (is_ascii_upper(a) && is_ascii_lower(b) && a as u32 + 32 == b as u32)
    ||| (is_ascii_upper(b) && is_ascii_lower(a) && b as u32 + 32 == a as u32)
}

pub open spec fn spec_char_equal(a: char, b: char, case_sensitive: bool) -> bool {
    if case_sensitive {
        a == b
    } else {
        ascii_eq_ignore_case(a, b)
    }
}

pub open spec fn query_has_ascii_upper(q: Seq<char>) -> bool {
    exists|i: int| 0 <= i < q.len() && is_ascii_upper(#[trigger] q[i])
}

/// Greedy subsequence scan: each text character consumes the front query
/// character when they compare equal. The scan accepts exactly the texts of
/// which the query is a subsequence under the given character equality.
pub open spec fn subseq_scan(text: Seq<char>, query: Seq<char>, case_sensitive: bool) -> bool
    decreases text.len(),
{
    if query.len() == 0 {
        true
    } else if text.len() == 0 {
        false
    } else if spec_char_equal(text[0], query[0], case_sensitive) {
        subseq_scan(text.skip(1), query.skip(1), case_sensitive)
    } else {
        subseq_scan(text.skip(1), query, case_sensitive)
    }
}

/// Whether the engine matches `query` against `text`.
pub open spec fn fuzzy_matches(text: Seq<char>, query: Seq<char>) -> bool {
    subseq_scan(text, query, query_has_ascii_upper(query))
}

/// The score the engine gives a matching pair; opaque, but a function of the
/// two texts alone.
pub uninterp spec fn fuzzy_score_of(text: Seq<char>, query: Seq<char>) -> Option<i64>;

/// The character positions of `text` that the engine reports as matched.
pub uninterp spec fn fuzzy_positions_of(text: Seq<char>, query: Seq<char>) -> Seq<usize>;

/// Relies on fuzzy_matcher's `SkimMatcherV2::fuzzy_match`, on a matcher built
/// by `SkimMatcherV2::default()` (smart-case, no element limit): it returns a
/// score exactly when the query is a smart-case subsequence of the text, an
/// empty query always matches with score zero, and the score depends on the
/// two texts alone.
#[verifier::external_body]
pub(crate) fn fuzzy_score(text: &str, query: &str) -> (r: Option<i64>)
    ensures
        r == fuzzy_score_of(text@, query@),
        r is Some <==> fuzzy_matches(text@, query@),
        query@.len() == 0 ==> r == Some(0i64),
{
    fuzzy_matcher::FuzzyMatcher::fuzzy_match(
        &fuzzy_matcher::skim::SkimMatcherV2::default(),
        text,
        query,
    )
}

/// Relies on fuzzy_matcher's `SkimMatcherV2::fuzzy_indices`, on a matcher
/// built by `SkimMatcherV2::default()`: it reports positions exactly when the
/// query is a smart-case subsequence of the text, the positions depend on the
/// two texts alone, and an empty query reports no positions.
#[verifier::external_body]
pub(crate) fn fuzzy_positions(text: &str, query: &str) -> (r: Option<Vec<usize>>)
    ensures
        r is Some <==> fuzzy_matches(text@, query@),
        r is Some ==> r.unwrap()@ == fuzzy_positions_of(text@, query@),
        query@.len() == 0 ==> r is Some && r.unwrap()@.len() == 0,
{
    fuzzy_matcher::FuzzyMatcher::fuzzy_indices(
        &fuzzy_matcher::skim::SkimMatcherV2::default(),
        text,
        query,
    ).map(|(_score, positions)| positions)
}

// ---------------------------------------------------------------------------
// The filtered list.
// ---------------------------------------------------------------------------

/// One row of the filtered list: which candidate it is (its position in the
/// original collection) and how well it matched.
#[derive(Clone, Copy, Debug, PartialEq, Eq, Structural)]
pub struct MatchResult {
    /// Position of the candidate in the original collection.
    pub index: usize,
    /// The engine's score; higher is better.
    pub score: i64,
}

pub open spec fn labels_of(items: Seq<Ranobe>) -> Seq<Seq<char>> {
    items.map_values(|r: Ranobe| r.title@)
}

/// The rows the match pass produces, in original candidate order: one row per
/// candidate the engine matches, carrying its index and score.
pub open spec fn spec_match_seq(labels: Seq<Seq<char>>, query: Seq<char>) -> Seq<MatchResult>
    decreases labels.len(),
{
    if labels.len() == 0 {
        Seq::empty()
    } else {
        let rest = spec_match_seq(labels.drop_last(), query);
        if fuzzy_matches(labels.last(), query) {
            rest.push(
                MatchResult {
                    index: (labels.len() - 1) as usize,
                    score: fuzzy_score_of(labels.last(), query).unwrap(),
                },
            )
        } else {
            rest
        }
    }
}

/// Row order of the filtered list: higher scores first, and candidates of
/// equal score in their original order.
pub open spec fn rank_le(a: MatchResult, b: MatchResult) -> bool {
    a.score > b.score || (a.score == b.score && a.index <= b.index)
}

pub open spec fn rank_ordering() -> spec_fn(MatchResult, MatchResult) -> bool {
    |a: MatchResult, b: MatchResult| rank_le(a, b)
}

/// The row order is a total ordering, so a sorted arrangement of given rows
/// is unique.
pub proof fn lemma_rank_total()
    ensures
        total_ordering(rank_ordering()),
{
    let leq = rank_ordering();
    assert forall|a: MatchResult, b: MatchResult| #[trigger] leq(a, b) && #[trigger] leq(b, a)
        implies a == b by {
        assert(a.score == b.score);
        assert(a.index == b.index);
    }
}

/// What the widget shows for a query: the matching candidates, best score
/// first, original order among equal scores.
pub open spec fn spec_filtered(labels: Seq<Seq<char>>, query: Seq<char>) -> Seq<MatchResult> {
    spec_match_seq(labels, query).sort_by(rank_ordering())
}

/// Display order written out directly: every earlier row ranks no worse than
/// every later one.
pub open spec fn sorted_ranked(s: Seq<MatchResult>) -> bool {
    forall|a: int, b: int| 0 <= a < b < s.len() ==> rank_le(#[trigger] s[a], #[trigger] s[b])
}

pub proof fn lemma_sorted_ranked_is_sorted_by(s: Seq<MatchResult>)
    requires
        sorted_ranked(s),
    ensures
        sorted_by(s, rank_ordering()),
{
    assert forall|a: int, b: int| 0 <= a < b < s.len() implies #[trigger] (rank_ordering())(
        s[a],
        s[b],
    ) by {
        assert(rank_le(s[a], s[b]));
    }
}

pub proof fn lemma_sorted_by_is_sorted_ranked(s: Seq<MatchResult>)
    requires
        sorted_by(s, rank_ordering()),
    ensures
        sorted_ranked(s),
{
    assert forall|a: int, b: int| 0 <= a < b < s.len() implies rank_le(
        #[trigger] s[a],
        #[trigger] s[b],
    ) by {
        assert((rank_ordering())(s[a], s[b]));
    }
}

fn rank_le_exec(a: &MatchResult, b: &MatchResult) -> (r: bool)
    ensures
        r == rank_le(*a, *b),
{
    a.score > b.score || (a.score == b.score && a.index <= b.index)
}

/// The match pass: every candidate the engine matches, in original order.
fn match_candidates(items: &Vec<Ranobe>, query: &str) -> (r: Vec<MatchResult>)
    ensures
        r@ == spec_match_seq(labels_of(items@), query@),
        query@.len() == 0 ==> r@.len() == items@.len(),
        query@.len() == 0 ==> forall|k: int|
            0 <= k < r@.len() ==> (#[trigger] r@[k]).index as int == k && r@[k].score == 0i64,
{
    let ghost lbls = labels_of(items@);
    let mut r: Vec<MatchResult> = Vec::new();
    let mut i: usize = 0;
    while i < items.len()
        invariant
            i <= items@.len(),
            lbls == labels_of(items@),
            r@ == spec_match_seq(lbls.take(i as int), query@),
            query@.len() == 0 ==> r@.len() == i,
            query@.len() == 0 ==> forall|k: int|
                0 <= k < r@.len() ==> (#[trigger] r@[k]).index as int == k && r@[k].score == 0i64,
        decreases items@.len() - i,
    {
        let score = fuzzy_score(items[i].title.as_str(), query);
        proof {
            assert(lbls.take(i + 1).drop_last() =~= lbls.take(i as int));
            assert(lbls.take(i + 1).last() == items@[i as int].title@);
        }
        match score {
            Some(s) => {
                r.push(MatchResult { index: i, score: s });
            },
            None => {},
        }
        i = i + 1;
    }
    proof {
        assert(lbls.take(items@.len() as int) =~= lbls);
    }
    r
}

/// Scans a sorted prefix `v[..i]` for the first row that ranks after `x`.
fn insertion_point(v: &Vec<MatchResult>, x: &MatchResult, i: usize) -> (p: usize)
    requires
        i <= v@.len(),
    ensures
        p <= i,
        forall|a: int| 0 <= a < p ==> rank_le(#[trigger] v@[a], *x),
        p < i ==> !rank_le(v@[p as int], *x),
{
    let mut p: usize = 0;
    while p < i
        invariant
            p <= i <= v@.len(),
            forall|a: int| 0 <= a < p ==> rank_le(#[trigger] v@[a], *x),
        decreases i - p,
    {
        if !rank_le_exec(&v[p], x) {
            return p;
        }
        p = p + 1;
    }
    p
}

/// Sorts the rows into display order: descending score, ties in ascending
/// index order. The result is the unique sorted arrangement of the input.
fn sort_by_rank(v: &mut Vec<MatchResult>)
    ensures
        final(v)@ == old(v)@.sort_by(rank_ordering()),
{
    proof {
        lemma_rank_total();
    }
    let ghost orig = v@;
    if v.len() > 1 {
        let mut i: usize = 1;
        while i < v.len()
            invariant
                1 <= i <= orig.len(),
                v@.len() == orig.len(),
                v@.to_multiset() == orig.to_multiset(),
                sorted_ranked(v@.take(i as int)),
            decreases orig.len() - i,
        {
            let ghost before = v@;
            let x = v.remove(i);
            let ghost u = v@;
            proof {
                assert(u.take(i as int) =~= before.take(i as int));
                assert(sorted_ranked(u.take(i as int)));
                assert forall|a: int, b: int| 0 <= a < b < i implies rank_le(
                    #[trigger] u[a],
                    #[trigger] u[b],
                ) by {
                    assert(rank_le(u.take(i as int)[a], u.take(i as int)[b]));
                }
            }
            let p = insertion_point(&v, &x, i);
            v.insert(p, x);
            proof {
                let w = v@;
                // removing a row and putting it back keeps the contents
                assert(u.to_multiset() == before.to_multiset().remove(x));
                assert(before.to_multiset().contains(x));
                assert(w.to_multiset() =~= before.to_multiset());
                // the freshly placed row keeps the prefix sorted
                assert forall|a: int, b: int| 0 <= a < b <= i implies rank_le(
                    #[trigger] w[a],
                    #[trigger] w[b],
                ) by {
                    if p < i {
                        assert(!rank_le(u[p as int], x));
                        assert(rank_le(x, u[p as int]));
                    }
                    if b < p {
                        assert(w[a] == u[a] && w[b] == u[b]);
                        assert(rank_le(u[a], u[b]));
                    } else if b == p {
                        assert(w[a] == u[a] && w[b] == x);
                        assert(rank_le(u[a], x));
                    } else {
                        assert(w[b] == u[b - 1]);
                        if a < p {
                            assert(w[a] == u[a]);
                            assert(rank_le(u[a], u[b - 1]));
                        } else if a == p {
                            assert(w[a] == x);
                            assert(rank_le(x, u[p as int]));
                            if b - 1 > p {
                                assert(rank_le(u[p as int], u[b - 1]));
                            }
                        } else {
                            assert(w[a] == u[a - 1]);
                            assert(rank_le(u[a - 1], u[b - 1]));
                        }
                    }
                }
                assert forall|a: int, b: int| 0 <= a < b < i + 1 implies rank_le(
                    #[trigger] w.take(i + 1)[a],
                    #[trigger] w.take(i + 1)[b],
                ) by {
                    assert(w.take(i + 1)[a] == w[a]);
                    assert(w.take(i + 1)[b] == w[b]);
                    assert(rank_le(w[a], w[b]));
                }
                assert(sorted_ranked(w.take(i + 1)));
            }
            i = i + 1;
        }
        proof {
            assert(v@.take(v@.len() as int) =~= v@);
            assert(sorted_ranked(v@));
        }
    }
    proof {
        assert(sorted_ranked(v@));
        lemma_sorted_ranked_is_sorted_by(v@);
        orig.lemma_sort_by_ensures(rank_ordering());
        lemma_sorted_unique(v@, orig.sort_by(rank_ordering()), rank_ordering());
    }
}

/// Every row of the match pass points at a real candidate, one the engine
/// matches, and carries that candidate's score.
pub proof fn lemma_match_seq_rows(labels: Seq<Seq<char>>, query: Seq<char>)
    requires
        labels.len() <= usize::MAX,
    ensures
        forall|k: int| 0 <= k < spec_match_seq(labels, query).len() ==> (
        #[trigger] spec_match_seq(labels, query)[k]).index < labels.len(),
        forall|k: int| 0 <= k < spec_match_seq(labels, query).len() ==> fuzzy_matches(
            labels[(#[trigger] spec_match_seq(labels, query)[k]).index as int],
            query,
        ),
        forall|k: int| 0 <= k < spec_match_seq(labels, query).len() ==> (
        #[trigger] spec_match_seq(labels, query)[k]).score == fuzzy_score_of(
            labels[spec_match_seq(labels, query)[k].index as int],
            query,
        ).unwrap(),
    decreases labels.len(),
{
    if labels.len() > 0 {
        lemma_match_seq_rows(labels.drop_last(), query);
        let rest = spec_match_seq(labels.drop_last(), query);
        let whole = spec_match_seq(labels, query);
        assert forall|k: int| 0 <= k < whole.len() implies (#[trigger] whole[k]).index
            < labels.len() && fuzzy_matches(labels[whole[k].index as int], query) && whole[k].score
            == fuzzy_score_of(labels[whole[k].index as int], query).unwrap() by {
            if k < rest.len() {
                assert(whole[k] == rest[k]);
                assert(rest[k].index < labels.drop_last().len());
                assert(labels.drop_last()[rest[k].index as int] == labels[rest[k].index as int]);
            } else {
                assert(whole[k].index == labels.len() - 1);
                assert(labels.last() == labels[labels.len() - 1]);
            }
        }
    }
}

/// The match pass lists candidates in their original order: row indices
/// ascend strictly.
pub proof fn lemma_match_seq_ascending(labels: Seq<Seq<char>>, query: Seq<char>)
    requires
        labels.len() <= usize::MAX,
    ensures
        forall|a: int, b: int|
            0 <= a < b < spec_match_seq(labels, query).len() ==> (#[trigger] spec_match_seq(
                labels,
                query,
            )[a]).index < (#[trigger] spec_match_seq(labels, query)[b]).index,
    decreases labels.len(),
{
    if labels.len() > 0 {
        lemma_match_seq_rows(labels.drop_last(), query);
        lemma_match_seq_ascending(labels.drop_last(), query);
        let rest = spec_match_seq(labels.drop_last(), query);
        let whole = spec_match_seq(labels, query);
        assert forall|a: int, b: int| 0 <= a < b < whole.len() implies (#[trigger] whole[a]).index
            < (#[trigger] whole[b]).index by {
            assert(whole[a] == rest[a]);
            if b < rest.len() {
                assert(whole[b] == rest[b]);
            } else {
                assert(rest[a].index < labels.drop_last().len());
            }
        }
    }
}

/// Every candidate the engine matches appears in the match pass, with its
/// score.
pub proof fn lemma_match_seq_complete(labels: Seq<Seq<char>>, query: Seq<char>, i: int)
    requires
        labels.len() <= usize::MAX,
        0 <= i < labels.len(),
        fuzzy_matches(labels[i], query),
    ensures
        spec_match_seq(labels, query).contains(
            MatchResult { index: i as usize, score: fuzzy_score_of(labels[i], query).unwrap() },
        ),
    decreases labels.len(),
{
    let row = MatchResult { index: i as usize, score: fuzzy_score_of(labels[i], query).unwrap() };
    let whole = spec_match_seq(labels, query);
    if i == labels.len() - 1 {
        assert(whole[whole.len() - 1] == row);
    } else {
        lemma_match_seq_complete(labels.drop_last(), query, i);
        let rest = spec_match_seq(labels.drop_last(), query);
        let k = choose|k: int| 0 <= k < rest.len() && rest[k] == row;
        assert(whole[k] == row);
    }
}

/// The filtered list holds exactly the candidates the engine matches — every
/// row is a real match with its score, and every matching candidate has a
/// row — and it is exactly as long as the match pass.
pub proof fn lemma_filtered_exact(labels: Seq<Seq<char>>, query: Seq<char>)
    requires
        labels.len() <= usize::MAX,
    ensures
        spec_filtered(labels, query).len() == spec_match_seq(labels, query).len(),
        forall|k: int| 0 <= k < spec_filtered(labels, query).len() ==> (
        #[trigger] spec_filtered(labels, query)[k]).index < labels.len(),
        forall|k: int| 0 <= k < spec_filtered(labels, query).len() ==> fuzzy_matches(
            labels[(#[trigger] spec_filtered(labels, query)[k]).index as int],
            query,
        ),
        forall|k: int| 0 <= k < spec_filtered(labels, query).len() ==> (
        #[trigger] spec_filtered(labels, query)[k]).score == fuzzy_score_of(
            labels[spec_filtered(labels, query)[k].index as int],
            query,
        ).unwrap(),
        forall|i: int|
            0 <= i < labels.len() && fuzzy_matches(labels[i], query) ==> spec_filtered(
                labels,
                query,
            ).contains(
                MatchResult { index: i as usize, score: fuzzy_score_of(labels[i], query).unwrap() },
            ),
    decreases labels.len(),
{
    let unsorted = spec_match_seq(labels, query);
    let sorted = spec_filtered(labels, query);
    lemma_rank_total();
    unsorted.lemma_sort_by_ensures(rank_ordering());
    assert(sorted.to_multiset().len() == sorted.len());
    assert(unsorted.to_multiset().len() == unsorted.len());
    lemma_match_seq_rows(labels, query);
    assert forall|k: int| 0 <= k < sorted.len() implies (#[trigger] sorted[k]).index
        < labels.len() && fuzzy_matches(labels[sorted[k].index as int], query) && sorted[k].score
        == fuzzy_score_of(labels[sorted[k].index as int], query).unwrap() by {
        assert(sorted.contains(sorted[k]));
        assert(sorted.to_multiset().contains(sorted[k]));
        assert(unsorted.to_multiset().contains(sorted[k]));
        assert(unsorted.contains(sorted[k]));
        let j = choose|j: int| 0 <= j < unsorted.len() && unsorted[j] == sorted[k];
        assert(unsorted[j].index < labels.len());
    }
    assert forall|i: int|
        0 <= i < labels.len() && fuzzy_matches(labels[i], query) implies sorted.contains(
        MatchResult { index: i as usize, score: fuzzy_score_of(labels[i], query).unwrap() },
    ) by {
        lemma_match_seq_complete(labels, query, i);
        let row = MatchResult {
            index: i as usize,
            score: fuzzy_score_of(labels[i], query).unwrap(),
        };
        assert(unsorted.to_multiset().contains(row));
        assert(sorted.to_multiset().contains(row));
    }
}

/// The filtered list is ordered by strictly descending quality: scores never
/// rise, and rows of equal score keep their original relative order.
pub proof fn lemma_filtered_order(labels: Seq<Seq<char>>, query: Seq<char>)
    requires
        labels.len() <= usize::MAX,
    ensures
        forall|a: int, b: int|
            0 <= a < b < spec_filtered(labels, query).len() ==> (#[trigger] spec_filtered(
                labels,
                query,
            )[a]).score >= (#[trigger] spec_filtered(labels, query)[b]).score,
        forall|a: int, b: int|
            0 <= a < b < spec_filtered(labels, query).len() && (#[trigger] spec_filtered(
                labels,
                query,
            )[a]).score == (#[trigger] spec_filtered(labels, query)[b]).score ==> spec_filtered(
                labels,
                query,
            )[a].index < spec_filtered(labels, query)[b].index,
{
    let unsorted = spec_match_seq(labels, query);
    let sorted = spec_filtered(labels, query);
    lemma_rank_total();
    unsorted.lemma_sort_by_ensures(rank_ordering());
    lemma_sorted_by_is_sorted_ranked(sorted);
    // rows are pairwise distinct: their indices ascend in the match pass
    lemma_match_seq_ascending(labels, query);
    assert(unsorted.no_duplicates());
    unsorted.lemma_multiset_has_no_duplicates();
    sorted.lemma_multiset_has_no_duplicates_conv();
    assert forall|a: int, b: int|
        0 <= a < b < sorted.len() && (#[trigger] sorted[a]).score == (
    #[trigger] sorted[b]).score implies sorted[a].index < sorted[b].index by {
        assert(rank_le(sorted[a], sorted[b]));
        assert(sorted[a] != sorted[b]);
    }
}

/// Builds the filtered list for a query: exactly the candidates the engine
/// matches, ordered by descending score with original order among ties. With
/// an empty query every candidate matches with the same score, so the list is
/// the whole collection in original order.
pub fn filtered_list(items: &Vec<Ranobe>, query: &str) -> (r: Vec<MatchResult>)
    ensures
        r@ == spec_filtered(labels_of(items@), query@),
        query@.len() == 0 ==> r@.len() == items@.len(),
        query@.len() == 0 ==> forall|k: int|
            0 <= k < r@.len() ==> (#[trigger] r@[k]).index as int == k && r@[k].score == 0i64,
{
    let mut rows = match_candidates(items, query);
    let ghost unsorted = rows@;
    sort_by_rank(&mut rows);
    proof {
        if query@.len() == 0 {
            lemma_rank_total();
            assert(sorted_ranked(unsorted));
            lemma_sorted_ranked_is_sorted_by(unsorted);
            unsorted.lemma_sort_by_ensures(rank_ordering());
            lemma_sorted_unique(unsorted, unsorted.sort_by(rank_ordering()), rank_ordering());
        }
    }
    rows
}

} // verus!
