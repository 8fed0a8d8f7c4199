//! The ranking of contributors that a summary of the analysis shows.

use crate::models::RepositoryStats;
use vstd::prelude::*;

verus! {

/// The number of commits of the contributor listed at position `p`; a listed
/// name without a rollup counts as having none.
pub open spec fn commits_at(stats: RepositoryStats, p: int) -> nat {
    if stats.contributors@.contains_key(stats.contributor_names@[p]@) {
        stats.contributors@[stats.contributor_names@[p]@].commits as nat
    } else {
        0
    }
}

/// The contributor at position `p` is shown before the one at position `q`:
/// it has more commits, or as many and was seen first.
pub open spec fn ranks_before(stats: RepositoryStats, p: int, q: int) -> bool {
    commits_at(stats, p) > commits_at(stats, q) || (commits_at(stats, p) == commits_at(stats, q)
        && p < q)
}

/// The number of commits of the contributor listed at position `p`.
pub fn commit_count_at(stats: &RepositoryStats, p: usize) -> (count: usize)
    requires
        p < stats.contributor_names@.len(),
    ensures
        count == commits_at(*stats, p as int),
{
    match stats.contributors.get(stats.contributor_names[p].as_str()) {
        Some(rollup) => rollup.commits,
        None => 0,
    }
}

/// The positions, in the list of contributor names, of the `limit`
/// contributors with the most commits, the one with the most first. Of two
/// with equally many, the one seen first comes first.
pub fn top_contributors(stats: &RepositoryStats, limit: usize) -> (ranking: Vec<usize>)
    ensures
        ranking@.len() == if limit <= stats.contributor_names@.len() {
            limit as int
        } else {
            stats.contributor_names@.len() as int
        },
        forall|k: int| 0 <= k < ranking@.len() ==> ranking@[k] < stats.contributor_names@.len(),
        forall|j: int, k: int|
            0 <= j < k < ranking@.len() ==> ranks_before(
                *stats,
                ranking@[j] as int,
                ranking@[k] as int,
            ),
        forall|p: int, k: int|
            0 <= p < stats.contributor_names@.len() && !ranking@.contains(p as usize) && 0 <= k
                < ranking@.len() ==> #[trigger] ranks_before(*stats, ranking@[k] as int, p),
{
    let n = stats.contributor_names.len();
    let rounds = if limit <= n {
        limit
    } else {
        n
    };
    let mut ranking: Vec<usize> = Vec::new();
    let mut taken: Vec<bool> = Vec::new();
    let mut t: usize = 0;
    while t < n
        invariant
            t <= n,
            taken@.len() == t,
            forall|p: int| 0 <= p < t ==> !taken@[p],
        decreases n - t,
    {
        taken.push(false);
        t = t + 1;
    }
    while ranking.len() < rounds
        invariant
            n == stats.contributor_names@.len(),
            rounds <= n,
            ranking@.len() <= rounds,
            taken@.len() == n,
            forall|p: int| 0 <= p < n ==> (taken@[p] <==> ranking@.contains(p as usize)),
            forall|k: int| 0 <= k < ranking@.len() ==> ranking@[k] < n,
            forall|j: int, k: int|
                0 <= j < k < ranking@.len() ==> ranks_before(
                    *stats,
                    ranking@[j] as int,
                    ranking@[k] as int,
                ),
            forall|p: int, k: int|
                0 <= p < n && !ranking@.contains(p as usize) && 0 <= k < ranking@.len()
                    ==> #[trigger] ranks_before(*stats, ranking@[k] as int, p),
        decreases rounds - ranking@.len(),
    {
        // Fewer than n positions are taken, so one is free.
        let mut best: usize = 0;
        let mut best_count: usize = 0;
        let mut found = false;
        let mut q: usize = 0;
        while q < n
            invariant
                n == stats.contributor_names@.len(),
                taken@.len() == n,
                q <= n,
                found ==> best < q && !taken@[best as int] && best_count == commits_at(
                    *stats,
                    best as int,
                ),
                found ==> forall|p: int|
                    0 <= p < q && !taken@[p] && p != best ==> ranks_before(*stats, best as int, p),
                !found ==> forall|p: int| 0 <= p < q ==> taken@[p],
            decreases n - q,
        {
            if !taken[q] {
                let count = commit_count_at(stats, q);
                if !found || count > best_count {
                    best = q;
                    best_count = count;
                    found = true;
                }
            }
            q = q + 1;
        }
        proof {
            assert forall|j: int, k: int| 0 <= j < k < ranking@.len() implies ranking@[j]
                != ranking@[k] by {
                assert(ranks_before(*stats, ranking@[j] as int, ranking@[k] as int));
            }
            if !found {
                assert forall|v: usize| v < n implies #[trigger] ranking@.contains(v) by {
                    assert(taken@[v as int]);
                }
                lemma_all_taken(ranking@, n as nat);
            }
        }
        let ghost before = ranking@;
        let ghost taken_before = taken@;
        ranking.push(best);
        taken.set(best, true);
        proof {
            assert(ranking@[before.len() as int] == best);
            assert(!before.contains(best));
            assert forall|p: int| 0 <= p < n implies (taken@[p] <==> ranking@.contains(
                p as usize,
            )) by {
                if before.contains(p as usize) {
                    let k = choose|k: int| 0 <= k < before.len() && before[k] == p as usize;
                    assert(ranking@[k] == p as usize);
                }
                if ranking@.contains(p as usize) && p != best {
                    let k = choose|k: int| 0 <= k < ranking@.len() && ranking@[k] == p as usize;
                    assert(before[k] == p as usize);
                }
            }
            assert forall|p: int, k: int|
                0 <= p < n && !ranking@.contains(p as usize) && 0 <= k
                    < ranking@.len() implies #[trigger] ranks_before(
                *stats,
                ranking@[k] as int,
                p,
            ) by {
                assert(p != best);
                assert(!taken@[p]);
                assert(!taken_before[p]);
                assert(!before.contains(p as usize));
                if k < before.len() {
                    assert(ranking@[k] == before[k]);
                    assert(ranks_before(*stats, before[k] as int, p));
                } else {
                    assert(ranking@[k] == best);
                }
            }
            assert forall|j: int, k: int| 0 <= j < k < ranking@.len() implies ranks_before(
                *stats,
                ranking@[j] as int,
                ranking@[k] as int,
            ) by {
                assert(ranking@[j] == before[j]);
                if k == before.len() {
                    assert(ranks_before(*stats, before[j] as int, best as int));
                } else {
                    assert(ranking@[k] == before[k]);
                }
            }
        }
    }
    ranking
}

/// A list of distinct positions below `n` that holds every position below
/// `n` has at least `n` entries.
proof fn lemma_all_taken(ranking: Seq<usize>, n: nat)
    requires
        n <= usize::MAX,
        forall|j: int, k: int| 0 <= j < k < ranking.len() ==> ranking[j] != ranking[k],
        forall|v: usize| v < n ==> #[trigger] ranking.contains(v),
    ensures
        ranking.len() >= n,
    decreases n,
{
    if n > 0 {
        let last = (n - 1) as usize;
        assert(ranking.contains(last));
        let k = choose|k: int| 0 <= k < ranking.len() && ranking[k] == last;
        let rest = ranking.remove(k);
        assert forall|v: usize| v < n - 1 implies #[trigger] rest.contains(v) by {
            assert(ranking.contains(v));
            let m = choose|m: int| 0 <= m < ranking.len() && ranking[m] == v;
            assert(m != k);
            if m < k {
                assert(rest[m] == v);
            } else {
                assert(rest[m - 1] == v);
            }
        }
        assert forall|a: int, b: int| 0 <= a < b < rest.len() implies rest[a] != rest[b] by {
            let a0 = if a < k { a } else { a + 1 };
            let b0 = if b < k { b } else { b + 1 };
            assert(rest[a] == ranking[a0]);
            assert(rest[b] == ranking[b0]);
        }
        lemma_all_taken(rest, (n - 1) as nat);
    }
}

} // verus!
