//! Fuzzy matching, treated as a black box: only the sign of a score and the
//! relative order of scores are load-bearing.  The hierarchical engine ranks
//! whole candidate lists with a trigram matcher; the flat engine scores each
//! candidate on its own and also receives the matched character positions.

use fuzzy_matcher::FuzzyMatcher;
use vstd::prelude::*;

verus! {

/// The trigram similarity of `candidate` against `query`, as the bit pattern
/// of the non-negative score that `rust_fuzzy_search::fuzzy_compare` computes:
/// zero exactly when the score is zero, and ordered as the scores are.
pub uninterp spec fn trigram_score(query: Seq<char>, candidate: Seq<char>) -> u32;

/// Relies on `rust_fuzzy_search::fuzzy_search`: every candidate is scored,
/// in source order, by `fuzzy_compare`, a pure function of the two strings
/// whose result lies in `[0.0, 1.0]` and is never NaN.  Scores are never
/// negative, so `f32::to_bits` maps them to `u32` monotonically and sends
/// exactly `0.0` to `0`: the sign and the order survive.
#[verifier::external_body]
fn trigram_scores(query: &str, candidates: &Vec<String>) -> (r: Vec<u32>)
    ensures
        r@.len() == candidates@.len(),
        forall|k: int| 0 <= k < r@.len() ==> #[trigger] r@[k] == trigram_score(query@, candidates@[k]@),
{
    let refs: Vec<&str> = candidates.iter().map(|s| s.as_str()).collect();
    rust_fuzzy_search::fuzzy_search(query, &refs)
        .into_iter()
        .map(|(_, score)| score.to_bits())
        .collect()
}

/// A candidate is kept by the trigram matcher when its score is strictly
/// positive.
pub open spec fn trigram_kept(query: Seq<char>, name: Seq<char>) -> bool {
    trigram_score(query, name) > 0
}

/// The sequence `0, 1, ..., n - 1`: the identity view of a source of `n`
/// entities.
pub open spec fn identity_seq(n: int) -> Seq<usize> {
    Seq::new(n as nat, |i: int| i as usize)
}

/// The identity view over `n` entities.
pub fn identity_indices(n: usize) -> (r: Vec<usize>)
    ensures
        r@ == identity_seq(n as int),
{
    let mut r: Vec<usize> = Vec::new();
    let mut i: usize = 0;
    while i < n
        invariant
            i <= n,
            r@ =~= identity_seq(i as int),
        decreases n - i,
    {
        r.push(i);
        proof {
            assert(r@ =~= identity_seq(i + 1));
        }
        i += 1;
    }
    r
}

/// `idxs` lists, best first, exactly the positions in `names` whose name
/// scores strictly positively against `query`: ordered by non-increasing
/// score, equal scores in source order (which also makes every position
/// appear at most once), and every kept position present.
pub open spec fn ranked_index_view(query: Seq<char>, names: Seq<Seq<char>>, idxs: Seq<usize>) -> bool {
    &&& forall|k: int| 0 <= k < idxs.len() ==> (#[trigger] idxs[k]) < names.len()
    &&& forall|k: int|
        0 <= k < idxs.len() ==> trigram_kept(query, names[(#[trigger] idxs[k]) as int])
    &&& forall|k1: int, k2: int|
        0 <= k1 < k2 < idxs.len() ==> trigram_score(query, names[idxs[k1] as int])
            >= trigram_score(query, names[idxs[k2] as int])
    &&& forall|k1: int, k2: int|
        0 <= k1 < k2 < idxs.len() && trigram_score(query, names[idxs[k1] as int])
            == trigram_score(query, names[idxs[k2] as int]) ==> idxs[k1] < idxs[k2]
    &&& forall|j: int|
        0 <= j < names.len() && trigram_kept(query, #[trigger] names[j]) ==> exists|k: int|
            0 <= k < idxs.len() && (#[trigger] idxs[k]) as int == j
}

/// Rank `names` against `query` with the trigram matcher: the positions of
/// the names with a strictly positive score, best first, equal scores in
/// source order.
pub fn rank_to_indices(query: &str, names: &Vec<String>) -> (r: Vec<usize>)
    ensures
        ranked_index_view(query@, names@.map_values(|s: String| s@), r@),
        r@.len() <= names@.len(),
{
    let ghost nv = names@.map_values(|s: String| s@);
    let scores = trigram_scores(query, names);
    let mut pairs: Vec<(usize, u32)> = Vec::new();
    let mut i: usize = 0;
    while i < scores.len()
        invariant
            i <= scores@.len(),
            scores@.len() == names@.len(),
            nv == names@.map_values(|s: String| s@),
            forall|k: int|
                0 <= k < scores@.len() ==> #[trigger] scores@[k] == trigram_score(query@, nv[k]),
            pairs@.len() <= i,
            forall|k: int| 0 <= k < pairs@.len() ==> (#[trigger] pairs@[k]).0 < i,
            forall|k: int|
                0 <= k < pairs@.len() ==> (#[trigger] pairs@[k]).1 == trigram_score(
                    query@,
                    nv[pairs@[k].0 as int],
                ),
            forall|k: int| 0 <= k < pairs@.len() ==> (#[trigger] pairs@[k]).1 > 0,
            forall|k1: int, k2: int|
                0 <= k1 < k2 < pairs@.len() ==> pairs@[k1].1 >= pairs@[k2].1,
            forall|k1: int, k2: int|
                0 <= k1 < k2 < pairs@.len() && pairs@[k1].1 == pairs@[k2].1 ==> pairs@[k1].0
                    < pairs@[k2].0,
            forall|j: int|
                0 <= j < i && trigram_kept(query@, #[trigger] nv[j]) ==> exists|k: int|
                    0 <= k < pairs@.len() && (#[trigger] pairs@[k]).0 == j,
        decreases scores@.len() - i,
    {
        let sc = scores[i];
        proof {
            assert(sc == trigram_score(query@, nv[i as int]));
        }
        if sc > 0 {
            let mut p: usize = 0;
            loop
                invariant_except_break
                    p <= pairs@.len(),
                    forall|m: int| 0 <= m < p ==> (#[trigger] pairs@[m]).1 >= sc,
                ensures
                    p <= pairs@.len(),
                    forall|m: int| 0 <= m < p ==> (#[trigger] pairs@[m]).1 >= sc,
                    p < pairs@.len() ==> pairs@[p as int].1 < sc,
                decreases pairs@.len() - p,
            {
                if p == pairs.len() {
                    break;
                }
                if pairs[p].1 < sc {
                    break;
                }
                p += 1;
            }
            let ghost old_pairs = pairs@;
            pairs.insert(p, (i, sc));
            proof {
                let new_pairs = pairs@;
                assert(new_pairs == old_pairs.insert(p as int, (i, sc)));
                assert forall|k: int| 0 <= k < new_pairs.len() implies #[trigger] new_pairs[k]
                    == if k < p as int {
                    old_pairs[k]
                } else if k == p as int {
                    (i, sc)
                } else {
                    old_pairs[k - 1]
                } by {}
                assert forall|j: int|
                    0 <= j < i + 1 && trigram_kept(query@, #[trigger] nv[j]) implies exists|k: int|
                    0 <= k < new_pairs.len() && (#[trigger] new_pairs[k]).0 == j by {
                    if j == i {
                        assert(new_pairs[p as int].0 == j);
                    } else {
                        let k0 = choose|k0: int|
                            0 <= k0 < old_pairs.len() && (#[trigger] old_pairs[k0]).0 == j;
                        if k0 < p {
                            assert(new_pairs[k0].0 == j);
                        } else {
                            assert(new_pairs[k0 + 1].0 == j);
                        }
                    }
                }
            }
        }
        i += 1;
    }
    let ghost ps = pairs@;
    let mut r: Vec<usize> = Vec::new();
    let mut k: usize = 0;
    while k < pairs.len()
        invariant
            k <= pairs@.len(),
            ps == pairs@,
            r@.len() == k,
            forall|m: int| 0 <= m < k ==> (#[trigger] r@[m]) == pairs@[m].0,
        decreases pairs@.len() - k,
    {
        r.push(pairs[k].0);
        k += 1;
    }
    proof {
        assert forall|k2: int|
            0 <= k2 < r@.len() implies trigram_kept(query@, nv[(#[trigger] r@[k2]) as int]) by {
            assert(r@[k2] == ps[k2].0);
        }
        assert forall|j: int|
            0 <= j < nv.len() && trigram_kept(query@, #[trigger] nv[j]) implies exists|k2: int|
            0 <= k2 < r@.len() && (#[trigger] r@[k2]) as int == j by {
            let w = choose|w: int| 0 <= w < ps.len() && (#[trigger] ps[w]).0 == j;
            assert(r@[w] as int == j);
        }
    }
    r
}

/// What `SkimMatcherV2::fuzzy_indices` (default configuration) returns for a
/// choice string and a pattern: `None` when the pattern does not match, else
/// the score and the matched character positions.  The result depends on the
/// two strings alone.
pub uninterp spec fn skim_match(choice: Seq<char>, pattern: Seq<char>) -> Option<(i64, Seq<usize>)>;

/// The skim matcher keeps a candidate when it matches with a strictly
/// positive score.
pub open spec fn skim_kept(choice: Seq<char>, pattern: Seq<char>) -> bool {
    match skim_match(choice, pattern) {
        Some(p) => p.0 > 0,
        None => false,
    }
}

/// The score the skim matcher gives a kept candidate.
pub open spec fn skim_score(choice: Seq<char>, pattern: Seq<char>) -> int {
    skim_match(choice, pattern)->Some_0.0 as int
}

/// The matched character positions the skim matcher reports for a candidate.
pub open spec fn skim_positions(choice: Seq<char>, pattern: Seq<char>) -> Seq<usize> {
    skim_match(choice, pattern)->Some_0.1
}

/// Relies on `fuzzy_matcher`'s `SkimMatcherV2::fuzzy_indices` with the default
/// configuration: the score and the matched positions are a pure function of
/// the two strings (the matcher's fields besides its configuration are
/// scratch buffers that do not influence the result).
#[verifier::external_body]
pub(crate) fn skim_indices(choice: &str, pattern: &str) -> (r: Option<(i64, Vec<usize>)>)
    ensures
        match r {
            Some(p) => skim_match(choice@, pattern@) == Some((p.0, p.1@)),
            None => skim_match(choice@, pattern@) is None,
        },
{
    fuzzy_matcher::skim::SkimMatcherV2::default().fuzzy_indices(choice, pattern)
}

} // verus!
