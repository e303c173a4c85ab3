//! Ranking: orders matches by their similarity to the idea and keeps the top N.
//!
//! The similarities themselves come from embeddings computed outside the
//! library; here they are integers in ten-thousandths.

use vstd::prelude::*;

use crate::model::Match;
use crate::sources::{dedup, dedup_by_url};

verus! {

/// Default number of matches to keep after ranking.
pub const DEFAULT_LIMIT: usize = 50;

/// The number of leading matches of `s` whose similarity is at least `v`.
pub open spec fn first_below(s: Seq<Match>, v: int) -> nat
    decreases s.len(),
{
    if s.len() == 0 || s[0].similarity < v {
        0
    } else {
        1 + first_below(s.drop_first(), v)
    }
}

/// `sorted` with `m` inserted after every leading match that is at least as
/// similar, so that equally similar matches keep their order.
pub open spec fn insert_by_similarity(sorted: Seq<Match>, m: Match) -> Seq<Match> {
    sorted.insert(first_below(sorted, m.similarity as int) as int, m)
}

/// `s` ordered by decreasing similarity; equally similar matches keep their
/// order (a stable sort).
pub open spec fn sort_by_similarity(s: Seq<Match>) -> Seq<Match>
    decreases s.len(),
{
    if s.len() == 0 {
        seq![]
    } else {
        insert_by_similarity(sort_by_similarity(s.drop_last()), s.last())
    }
}

/// The first `limit` matches of `s`, or all of them when there are fewer.
pub open spec fn keep_top(s: Seq<Match>, limit: int) -> Seq<Match> {
    if s.len() <= limit {
        s
    } else {
        s.take(limit)
    }
}

/// What ranking keeps: the matches deduplicated by URL, ordered by decreasing
/// similarity, cut to the first `limit`.
pub open spec fn ranked(matches: Seq<Match>, limit: int) -> Seq<Match> {
    keep_top(sort_by_similarity(dedup_by_url(matches)), limit)
}

/// `s` is ordered by decreasing similarity.
pub open spec fn is_ranked(s: Seq<Match>) -> bool {
    forall|i: int, j: int| 0 <= i < j < s.len() ==> #[trigger] s[i].similarity >= #[trigger] s[j].similarity
}

/// A position that ends a run of matches at least as similar as `v` (and is
/// followed by a less similar match or the end) is the insertion point.
proof fn lemma_first_below(s: Seq<Match>, v: int, i: int)
    requires
        0 <= i <= s.len(),
        forall|k: int| 0 <= k < i ==> s[k].similarity >= v,
        i == s.len() || s[i].similarity < v,
    ensures
        first_below(s, v) == i,
    decreases i,
{
    if i > 0 {
        let t = s.drop_first();
        assert forall|k: int| 0 <= k < i - 1 implies t[k].similarity >= v by {
            assert(t[k] == s[k + 1]);
        }
        if i - 1 < t.len() {
            assert(t[i - 1] == s[i]);
        }
        lemma_first_below(t, v, i - 1);
    }
}

/// The insertion point lies within the sequence, and everything before it is
/// at least as similar.
proof fn lemma_first_below_bounds(s: Seq<Match>, v: int)
    ensures
        first_below(s, v) <= s.len(),
        forall|k: int| 0 <= k < first_below(s, v) ==> s[k].similarity >= v,
        first_below(s, v) < s.len() ==> s[first_below(s, v) as int].similarity < v,
    decreases s.len(),
{
    if s.len() > 0 && s[0].similarity >= v {
        let t = s.drop_first();
        lemma_first_below_bounds(t, v);
        assert forall|k: int| 0 <= k < first_below(s, v) implies s[k].similarity >= v by {
            if k > 0 {
                assert(s[k] == t[k - 1]);
            }
        }
        if first_below(s, v) < s.len() {
            assert(s[first_below(s, v) as int] == t[first_below(t, v) as int]);
        }
    }
}

/// Inserting by similarity keeps a ranked sequence ranked and adds exactly the
/// one match.
pub proof fn lemma_insert_ranked(sorted: Seq<Match>, m: Match)
    requires
        is_ranked(sorted),
    ensures
        is_ranked(insert_by_similarity(sorted, m)),
        insert_by_similarity(sorted, m).to_multiset() == sorted.to_multiset().insert(m),
{
    let p = first_below(sorted, m.similarity as int) as int;
    lemma_first_below_bounds(sorted, m.similarity as int);
    let r = insert_by_similarity(sorted, m);
    sorted.insert_ensures(p, m);
    assert forall|i: int, j: int| 0 <= i < j < r.len() implies #[trigger] r[i].similarity
        >= #[trigger] r[j].similarity by {
        if j < p {
        } else if j == p {
            assert(r[i] == sorted[i]);
        } else if i < p {
            assert(r[j] == sorted[j - 1]);
            assert(r[i] == sorted[i]);
        } else if i == p {
            assert(r[j] == sorted[j - 1]);
            assert(sorted[p].similarity < m.similarity);
        } else {
            assert(r[j] == sorted[j - 1]);
            assert(r[i] == sorted[i - 1]);
        }
    }
    broadcast use vstd::seq_lib::group_to_multiset_ensures;
    assert(r.remove(p) =~= sorted);
    assert(r[p] == m);
    assert(r.to_multiset().remove(m) == sorted.to_multiset());
    assert(r.to_multiset().count(m) > 0) by {
        assert(r.contains(m));
    }
    assert(r.to_multiset() =~= sorted.to_multiset().insert(m));
}

/// Sorting by similarity gives a ranked sequence that holds the same matches.
pub proof fn lemma_sort_ranked(s: Seq<Match>)
    ensures
        is_ranked(sort_by_similarity(s)),
        sort_by_similarity(s).to_multiset() == s.to_multiset(),
    decreases s.len(),
{
    broadcast use vstd::seq_lib::group_to_multiset_ensures;

    if s.len() > 0 {
        lemma_sort_ranked(s.drop_last());
        lemma_insert_ranked(sort_by_similarity(s.drop_last()), s.last());
        assert(s.drop_last().push(s.last()) =~= s);
    } else {
        assert(sort_by_similarity(s).to_multiset() =~= s.to_multiset());
    }
}

/// `matches` ordered by decreasing similarity, stably.
fn sort_matches(matches: Vec<Match>) -> (r: Vec<Match>)
    ensures
        r@ == sort_by_similarity(matches@),
{
    let ghost input = matches@;
    let mut out: Vec<Match> = Vec::new();
    for m in it: matches.into_iter()
        invariant
            it.seq() == input,
            out@ == sort_by_similarity(input.take(it.index())),
    {
        proof {
            assert(input.take(it.index() + 1).drop_last() =~= input.take(it.index()));
        }
        let mut i: usize = 0;
        while i < out.len() && out[i].similarity >= m.similarity
            invariant
                i <= out.len(),
                forall|k: int| 0 <= k < i ==> out@[k].similarity >= m.similarity,
            decreases out.len() - i,
        {
            i += 1;
        }
        proof {
            lemma_first_below(out@, m.similarity as int, i as int);
        }
        out.insert(i, m);
    }
    assert(input.take(input.len() as int) =~= input);
    out
}

/// Ranks matches that already carry their similarity: removes duplicate URLs,
/// orders by decreasing similarity (equal ones keep their order), and keeps
/// the first `limit`.
pub fn rank_by_similarity(matches: Vec<Match>, limit: usize) -> (r: Vec<Match>)
    ensures
        r@ == ranked(matches@, limit as int),
{
    let unique = dedup(matches);
    let mut sorted = sort_matches(unique);
    if sorted.len() > limit {
        sorted.truncate(limit);
    }
    sorted
}

/// Ranking gives a sequence ordered by decreasing similarity, of at most
/// `limit` matches; before the cut, the order holds exactly the deduplicated
/// matches.
pub proof fn law_ranked_is_ordered(matches: Seq<Match>, limit: nat)
    ensures
        is_ranked(ranked(matches, limit as int)),
        ranked(matches, limit as int).len() <= limit,
        sort_by_similarity(dedup_by_url(matches)).to_multiset() == dedup_by_url(
            matches,
        ).to_multiset(),
{
    lemma_sort_ranked(dedup_by_url(matches));
}

} // verus!
