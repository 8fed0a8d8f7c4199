//! What holds of every accumulator that the fold has built.

use crate::db::dates_can_be_written;
use crate::db::names_have_rollups;
use crate::models::authored_by;
use crate::models::earliest_date;
use crate::models::latest_date;
use crate::models::lemma_append;
use crate::models::lemma_listed_iff_authored;
use crate::models::lemma_share_is_bounded;
use crate::models::names_in_order;
use crate::models::summarizes;
use crate::models::texts;
use crate::models::total_lines_added;
use crate::models::total_lines_removed;
use crate::models::CommitInfo;
use crate::models::ContributorStats;
use crate::models::RepositoryStats;
use crate::time::Timestamp;
use vstd::prelude::*;

verus! {

/// The five figures that summarize a list of commits.
pub struct Summary {
    pub commits: nat,
    pub lines_added: nat,
    pub lines_removed: nat,
    pub first: Option<Timestamp>,
    pub last: Option<Timestamp>,
}

/// The summary of `commits`.
pub open spec fn summary(commits: Seq<CommitInfo>) -> Summary {
    Summary {
        commits: commits.len(),
        lines_added: total_lines_added(commits),
        lines_removed: total_lines_removed(commits),
        first: earliest_date(commits),
        last: latest_date(commits),
    }
}

/// The summary of no commits.
pub open spec fn nothing() -> Summary {
    Summary { commits: 0, lines_added: 0, lines_removed: 0, first: None, last: None }
}

/// The summary after one more commit.
pub open spec fn with_commit(so_far: Summary, commit: CommitInfo) -> Summary {
    Summary {
        commits: so_far.commits + 1,
        lines_added: so_far.lines_added + commit.lines_added as nat,
        lines_removed: so_far.lines_removed + commit.lines_removed as nat,
        first: Some(
            match so_far.first {
                None => commit.date,
                Some(t) => t.earlier_of(commit.date),
            },
        ),
        last: Some(
            match so_far.last {
                None => commit.date,
                Some(t) => t.later_of(commit.date),
            },
        ),
    }
}

/// The step that counts only the commits of one author.
pub open spec fn with_commit_of(name: Seq<char>) -> spec_fn(Summary, CommitInfo) -> Summary {
    |so_far: Summary, commit: CommitInfo|
        if commit.author@ == name {
            with_commit(so_far, commit)
        } else {
            so_far
        }
}

/// The step that counts every commit.
pub open spec fn with_any_commit() -> spec_fn(Summary, CommitInfo) -> Summary {
    |so_far: Summary, commit: CommitInfo| with_commit(so_far, commit)
}

/// The summary of a list is the left fold of `with_commit` over it.
pub proof fn lemma_summary_is_fold(commits: Seq<CommitInfo>)
    ensures
        summary(commits) == commits.fold_left(nothing(), with_any_commit()),
    decreases commits.len(),
{
    if commits.len() > 0 {
        lemma_summary_is_fold(commits.drop_last());
        lemma_append(commits.drop_last(), commits.last());
        assert(commits.drop_last().push(commits.last()) =~= commits);
    }
}

/// The summary of one author's commits is a left fold over the whole list.
pub proof fn lemma_share_is_fold(commits: Seq<CommitInfo>, name: Seq<char>)
    ensures
        summary(authored_by(commits, name)) == commits.fold_left(nothing(), with_commit_of(name)),
    decreases commits.len(),
{
    if commits.len() > 0 {
        lemma_share_is_fold(commits.drop_last(), name);
        if commits.last().author@ == name {
            lemma_append(authored_by(commits.drop_last(), name), commits.last());
        }
    }
}

/// Two lists that hold the same commits, in whatever order, have the same
/// summary, and so has each author's share of them.
pub proof fn lemma_summary_ignores_order(a: Seq<CommitInfo>, b: Seq<CommitInfo>)
    requires
        a.to_multiset() == b.to_multiset(),
    ensures
        summary(a) == summary(b),
        forall|name: Seq<char>| #[trigger]
            summary(authored_by(a, name)) == summary(authored_by(b, name)),
{
    lemma_summary_is_fold(a);
    lemma_summary_is_fold(b);
    vstd::seq_lib::lemma_fold_left_permutation(a, b, with_any_commit(), nothing());
    assert forall|name: Seq<char>| #[trigger]
        summary(authored_by(a, name)) == summary(authored_by(b, name)) by {
        lemma_share_is_fold(a, name);
        lemma_share_is_fold(b, name);
        vstd::seq_lib::lemma_fold_left_permutation(a, b, with_commit_of(name), nothing());
    }
}

/// The earliest date of a non-empty list is the date of one of its commits and
/// no commit is dated before it; the latest date likewise, with no commit
/// dated after it.
pub proof fn lemma_dates_are_extremes(commits: Seq<CommitInfo>)
    requires
        commits.len() > 0,
    ensures
        earliest_date(commits) is Some,
        latest_date(commits) is Some,
        exists|i: int| 0 <= i < commits.len() && #[trigger] commits[i].date == earliest_date(commits)->0,
        exists|i: int| 0 <= i < commits.len() && #[trigger] commits[i].date == latest_date(commits)->0,
        forall|i: int|
            0 <= i < commits.len() ==> earliest_date(commits)->0.at_or_before(
                #[trigger] commits[i].date,
            ),
        forall|i: int|
            0 <= i < commits.len() ==> (#[trigger] commits[i].date).at_or_before(
                latest_date(commits)->0,
            ),
        earliest_date(commits)->0.at_or_before(latest_date(commits)->0),
    decreases commits.len(),
{
    let rest = commits.drop_last();
    let n = commits.len() - 1;
    if rest.len() > 0 {
        lemma_dates_are_extremes(rest);
        let i = choose|i: int| 0 <= i < rest.len() && #[trigger] rest[i].date == earliest_date(rest)->0;
        let j = choose|j: int| 0 <= j < rest.len() && #[trigger] rest[j].date == latest_date(rest)->0;
        assert(commits[i] == rest[i]);
        assert(commits[j] == rest[j]);
        assert(commits[n].date == commits.last().date);
        assert forall|k: int| 0 <= k < commits.len() implies earliest_date(commits)->0.at_or_before(
            #[trigger] commits[k].date,
        ) && commits[k].date.at_or_before(latest_date(commits)->0) by {
            if k < n {
                assert(commits[k] == rest[k]);
            }
        }
    } else {
        assert(commits[0].date == commits.last().date);
    }
}

/// An accumulator that has folded no commit counts nothing and knows no
/// contributor and no date.
pub proof fn lemma_empty_history(stats: RepositoryStats)
    requires
        stats.wf(),
        stats.commits@.len() == 0,
    ensures
        stats.total_commits == 0,
        stats.total_lines_added == 0,
        stats.total_lines_removed == 0,
        stats.first_commit_date is None,
        stats.last_commit_date is None,
        stats.contributors@ == Map::<Seq<char>, ContributorStats>::empty(),
        stats.contributor_names@.len() == 0,
{
    assert(stats.contributors@ =~= Map::<Seq<char>, ContributorStats>::empty());
    assert(texts(stats.contributor_names@).len() == stats.contributor_names@.len());
}

/// The totals of an accumulator are the length of its commit list and the
/// sums of the line counts over it.
pub proof fn lemma_totals_match_commits(stats: RepositoryStats)
    requires
        stats.wf(),
    ensures
        stats.total_commits == stats.commits@.len(),
        stats.total_lines_added == total_lines_added(stats.commits@),
        stats.total_lines_removed == total_lines_removed(stats.commits@),
{
}

/// An author's share of a list holds exactly the commits that carry the name.
pub proof fn lemma_share_is_filter(commits: Seq<CommitInfo>, name: Seq<char>)
    ensures
        authored_by(commits, name) == commits.filter(|c: CommitInfo| c.author@ == name),
    decreases commits.len(),
{
    reveal(Seq::filter);
    if commits.len() > 0 {
        lemma_share_is_filter(commits.drop_last(), name);
    }
}

/// The rollup kept under a name counts the commits of the list whose author
/// is that name, sums their lines, and is never larger than the totals.
pub proof fn lemma_rollup_matches_commits(stats: RepositoryStats, name: Seq<char>)
    requires
        stats.wf(),
        stats.contributors@.contains_key(name),
    ensures
        stats.contributors@[name].commits == stats.commits@.filter(
            |c: CommitInfo| c.author@ == name,
        ).len(),
        stats.contributors@[name].commits >= 1,
        stats.contributors@[name].lines_added == total_lines_added(
            authored_by(stats.commits@, name),
        ),
        stats.contributors@[name].lines_removed == total_lines_removed(
            authored_by(stats.commits@, name),
        ),
        stats.contributors@[name].commits <= stats.total_commits,
        stats.contributors@[name].lines_added <= stats.total_lines_added,
        stats.contributors@[name].lines_removed <= stats.total_lines_removed,
{
    lemma_share_is_filter(stats.commits@, name);
    lemma_share_is_bounded(stats.commits@, name);
}

/// Once a commit has been folded the first date is no later than the last,
/// for the repository and for every contributor.
pub proof fn lemma_first_not_after_last(stats: RepositoryStats)
    requires
        stats.wf(),
        stats.commits@.len() > 0,
    ensures
        stats.first_commit_date is Some,
        stats.last_commit_date is Some,
        stats.first_commit_date->0.at_or_before(stats.last_commit_date->0),
        forall|name: Seq<char>| #[trigger]
            stats.contributors@.contains_key(name) ==> stats.contributors@[name].first_commit.at_or_before(
                stats.contributors@[name].last_commit,
            ),
{
    lemma_dates_are_extremes(stats.commits@);
    assert forall|name: Seq<char>| #[trigger]
        stats.contributors@.contains_key(name) implies stats.contributors@[name].first_commit.at_or_before(
        stats.contributors@[name].last_commit,
    ) by {
        lemma_dates_are_extremes(authored_by(stats.commits@, name));
    }
}

/// The first and last dates of an accumulator are the least and the greatest
/// date among its commits.
pub proof fn lemma_dates_are_min_and_max(stats: RepositoryStats, i: int)
    requires
        stats.wf(),
        0 <= i < stats.commits@.len(),
    ensures
        stats.first_commit_date is Some,
        stats.last_commit_date is Some,
        stats.first_commit_date->0.at_or_before(stats.commits@[i].date),
        stats.commits@[i].date.at_or_before(stats.last_commit_date->0),
{
    lemma_dates_are_extremes(stats.commits@);
}

/// Two accumulators that have folded the same commits, in whatever order,
/// agree on every total, on both dates and on every rollup.
pub proof fn lemma_order_does_not_matter(a: RepositoryStats, b: RepositoryStats)
    requires
        a.wf(),
        b.wf(),
        a.commits@.to_multiset() == b.commits@.to_multiset(),
    ensures
        a.total_commits == b.total_commits,
        a.total_lines_added == b.total_lines_added,
        a.total_lines_removed == b.total_lines_removed,
        a.first_commit_date == b.first_commit_date,
        a.last_commit_date == b.last_commit_date,
        a.contributors@ == b.contributors@,
{
    lemma_summary_ignores_order(a.commits@, b.commits@);
    assert(summary(a.commits@) == summary(b.commits@));
    assert forall|name: Seq<char>|
        a.contributors@.contains_key(name) == b.contributors@.contains_key(name) && (
        a.contributors@.contains_key(name) ==> a.contributors@[name] == b.contributors@[name]) by {
        let own_a = authored_by(a.commits@, name);
        let own_b = authored_by(b.commits@, name);
        assert(summary(own_a) == summary(own_b));
        assert(own_a.len() == summary(own_a).commits);
        assert(own_b.len() == summary(own_b).commits);
        assert(own_a.len() == own_b.len());
        assert(earliest_date(own_a) == summary(own_a).first);
        assert(latest_date(own_a) == summary(own_a).last);
        assert(total_lines_added(own_a) == summary(own_a).lines_added);
        assert(total_lines_removed(own_a) == summary(own_a).lines_removed);
        if a.contributors@.contains_key(name) {
            assert(b.contributors@.contains_key(name));
            let in_a = a.contributors@[name];
            let in_b = b.contributors@[name];
            assert(summarizes(in_a, own_a));
            assert(summarizes(in_b, own_b));
            assert(Some(in_a.first_commit) == Some(in_b.first_commit));
            assert(Some(in_a.last_commit) == Some(in_b.last_commit));
            assert(in_a == in_b);
        } else {
            assert(!b.contributors@.contains_key(name));
        }
    }
    assert(a.contributors@ =~= b.contributors@);
}

/// Folding the commits in reverse order changes no total, no date and no
/// rollup.
pub proof fn lemma_reverse_order_does_not_matter(a: RepositoryStats, b: RepositoryStats)
    requires
        a.wf(),
        b.wf(),
        b.commits@ == a.commits@.reverse(),
    ensures
        a.total_commits == b.total_commits,
        a.total_lines_added == b.total_lines_added,
        a.total_lines_removed == b.total_lines_removed,
        a.first_commit_date == b.first_commit_date,
        a.last_commit_date == b.last_commit_date,
        a.contributors@ == b.contributors@,
{
    a.commits@.lemma_reverse_to_multiset();
    lemma_order_does_not_matter(a, b);
}

/// Where every commit of a list has a date that can be written, so has every
/// commit of an author's share of it.
pub proof fn lemma_share_keeps_dates(commits: Seq<CommitInfo>, name: Seq<char>)
    requires
        forall|i: int| 0 <= i < commits.len() ==> (#[trigger] commits[i]).date.representable(),
    ensures
        forall|i: int|
            0 <= i < authored_by(commits, name).len() ==> (#[trigger] authored_by(
                commits,
                name,
            )[i]).date.representable(),
    decreases commits.len(),
{
    if commits.len() > 0 {
        let rest = commits.drop_last();
        assert forall|i: int| 0 <= i < rest.len() implies (#[trigger] rest[i]).date.representable() by {
            assert(rest[i] == commits[i]);
        }
        lemma_share_keeps_dates(rest, name);
        assert(commits.last() == commits[commits.len() - 1]);
        let own = authored_by(commits, name);
        let own_rest = authored_by(rest, name);
        assert forall|i: int| 0 <= i < own.len() implies (#[trigger] own[i]).date.representable() by {
            if i < own_rest.len() {
                assert(own[i] == own_rest[i]);
            }
        }
    }
}

/// An accumulator built by the fold from commits whose dates can be written
/// can be stored: every listed name has a rollup and every date of the
/// accumulator can be written.
pub proof fn lemma_built_stats_can_be_stored(stats: RepositoryStats)
    requires
        stats.wf(),
        forall|i: int|
            0 <= i < stats.commits@.len() ==> (#[trigger] stats.commits@[i]).date.representable(),
    ensures
        names_have_rollups(stats),
        dates_can_be_written(stats),
{
    let commits = stats.commits@;
    if commits.len() > 0 {
        lemma_dates_are_extremes(commits);
    }
    assert forall|i: int| 0 <= i < stats.contributor_names@.len() implies {
        &&& stats.contributors@.contains_key(#[trigger] stats.contributor_names@[i]@)
        &&& stats.contributors@[stats.contributor_names@[i]@].first_commit.representable()
        &&& stats.contributors@[stats.contributor_names@[i]@].last_commit.representable()
    } by {
        let name = stats.contributor_names@[i]@;
        assert(texts(stats.contributor_names@)[i] == name);
        assert(names_in_order(commits).contains(name));
        lemma_listed_iff_authored(commits, name);
        lemma_share_keeps_dates(commits, name);
        lemma_dates_are_extremes(authored_by(commits, name));
    }
}

/// No name occurs twice among the names of a commit list.
pub proof fn lemma_names_are_distinct(commits: Seq<CommitInfo>)
    ensures
        names_in_order(commits).no_duplicates(),
    decreases commits.len(),
{
    if commits.len() > 0 {
        lemma_names_are_distinct(commits.drop_last());
    }
}

/// The list of contributor names holds every key of the rollups, each once.
pub proof fn lemma_names_list_the_contributors(stats: RepositoryStats)
    requires
        stats.wf(),
    ensures
        texts(stats.contributor_names@).no_duplicates(),
        forall|name: Seq<char>|
            texts(stats.contributor_names@).contains(name) <==> #[trigger] stats.contributors@.contains_key(
                name,
            ),
{
    lemma_names_are_distinct(stats.commits@);
    assert forall|name: Seq<char>|
        texts(stats.contributor_names@).contains(name) <==> #[trigger] stats.contributors@.contains_key(
            name,
        ) by {
        lemma_listed_iff_authored(stats.commits@, name);
    }
}

} // verus!
