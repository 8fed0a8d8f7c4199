//! The commit record, the per-contributor rollup and the repository
//! accumulator, with the fold that keeps them consistent.

use crate::time::Timestamp;
use vstd::hash_map::StringHashMap;
use vstd::prelude::*;

verus! {

/// One commit as the aggregation sees it.
#[derive(Clone, Debug)]
pub struct CommitInfo {
    pub hash: String,
    pub author: String,
    pub email: String,
    pub date: Timestamp,
    pub message: String,
    pub lines_added: usize,
    pub lines_removed: usize,
    pub files_changed: usize,
}

/// Running totals for one author name.
#[derive(Clone, Copy, Debug, PartialEq, Eq, Structural)]
pub struct ContributorStats {
    pub commits: usize,
    pub lines_added: usize,
    pub lines_removed: usize,
    pub first_commit: Timestamp,
    pub last_commit: Timestamp,
}

/// The accumulator: totals over every folded commit, one rollup per author
/// name, and the commits themselves in the order they were folded.
///
/// `first_commit_date` and `last_commit_date` are `None` until a commit has
/// been folded. `contributor_names` lists the keys of `contributors` in the
/// order in which each name was first seen.
pub struct RepositoryStats {
    pub repo_path: String,
    pub total_commits: usize,
    pub total_lines_added: usize,
    pub total_lines_removed: usize,
    pub first_commit_date: Option<Timestamp>,
    pub last_commit_date: Option<Timestamp>,
    pub contributors: StringHashMap<ContributorStats>,
    pub contributor_names: Vec<String>,
    pub commits: Vec<CommitInfo>,
}

/// Sum of `lines_added` over `commits`.
pub open spec fn total_lines_added(commits: Seq<CommitInfo>) -> nat
    decreases commits.len(),
{
    if commits.len() == 0 {
        0
    } else {
        total_lines_added(commits.drop_last()) + commits.last().lines_added as nat
    }
}

/// Sum of `lines_removed` over `commits`.
pub open spec fn total_lines_removed(commits: Seq<CommitInfo>) -> nat
    decreases commits.len(),
{
    if commits.len() == 0 {
        0
    } else {
        total_lines_removed(commits.drop_last()) + commits.last().lines_removed as nat
    }
}

/// The earliest date among `commits`, or `None` when there is no commit.
pub open spec fn earliest_date(commits: Seq<CommitInfo>) -> Option<Timestamp>
    decreases commits.len(),
{
    if commits.len() == 0 {
        None
    } else {
        match earliest_date(commits.drop_last()) {
            None => Some(commits.last().date),
            Some(t) => Some(t.earlier_of(commits.last().date)),
        }
    }
}

/// The latest date among `commits`, or `None` when there is no commit.
pub open spec fn latest_date(commits: Seq<CommitInfo>) -> Option<Timestamp>
    decreases commits.len(),
{
    if commits.len() == 0 {
        None
    } else {
        match latest_date(commits.drop_last()) {
            None => Some(commits.last().date),
            Some(t) => Some(t.later_of(commits.last().date)),
        }
    }
}

/// The commits of `commits` whose author name is `name`, in order.
pub open spec fn authored_by(commits: Seq<CommitInfo>, name: Seq<char>) -> Seq<CommitInfo>
    decreases commits.len(),
{
    if commits.len() == 0 {
        Seq::empty()
    } else if commits.last().author@ == name {
        authored_by(commits.drop_last(), name).push(commits.last())
    } else {
        authored_by(commits.drop_last(), name)
    }
}

/// The author names of `commits`, each once, in order of first appearance.
pub open spec fn names_in_order(commits: Seq<CommitInfo>) -> Seq<Seq<char>>
    decreases commits.len(),
{
    if commits.len() == 0 {
        Seq::empty()
    } else {
        let earlier = names_in_order(commits.drop_last());
        if earlier.contains(commits.last().author@) {
            earlier
        } else {
            earlier.push(commits.last().author@)
        }
    }
}

/// The texts of a list of strings.
pub open spec fn texts(names: Seq<String>) -> Seq<Seq<char>> {
    Seq::new(names.len(), |i: int| names[i]@)
}

/// `rollup` is the summary of the non-empty commit list `own`.
pub open spec fn summarizes(rollup: ContributorStats, own: Seq<CommitInfo>) -> bool {
    &&& rollup.commits == own.len()
    &&& rollup.lines_added == total_lines_added(own)
    &&& rollup.lines_removed == total_lines_removed(own)
    &&& Some(rollup.first_commit) == earliest_date(own)
    &&& Some(rollup.last_commit) == latest_date(own)
}


/// How each summary of a commit list changes when one commit is appended.
pub proof fn lemma_append(commits: Seq<CommitInfo>, commit: CommitInfo)
    ensures
        total_lines_added(commits.push(commit)) == total_lines_added(commits)
            + commit.lines_added,
        total_lines_removed(commits.push(commit)) == total_lines_removed(commits)
            + commit.lines_removed,
        earliest_date(commits.push(commit)) == Some(
            match earliest_date(commits) {
                None => commit.date,
                Some(t) => t.earlier_of(commit.date),
            },
        ),
        latest_date(commits.push(commit)) == Some(
            match latest_date(commits) {
                None => commit.date,
                Some(t) => t.later_of(commit.date),
            },
        ),
        authored_by(commits.push(commit), commit.author@) == authored_by(
            commits,
            commit.author@,
        ).push(commit),
        forall|name: Seq<char>|
            name != commit.author@ ==> #[trigger] authored_by(commits.push(commit), name)
                == authored_by(commits, name),
        names_in_order(commits.push(commit)) == if names_in_order(commits).contains(
            commit.author@,
        ) {
            names_in_order(commits)
        } else {
            names_in_order(commits).push(commit.author@)
        },
{
    assert(commits.push(commit).drop_last() =~= commits);
}

/// One author's share of a commit list is no larger than the list.
pub proof fn lemma_share_is_bounded(commits: Seq<CommitInfo>, name: Seq<char>)
    ensures
        authored_by(commits, name).len() <= commits.len(),
        total_lines_added(authored_by(commits, name)) <= total_lines_added(commits),
        total_lines_removed(authored_by(commits, name)) <= total_lines_removed(commits),
    decreases commits.len(),
{
    if commits.len() > 0 {
        lemma_share_is_bounded(commits.drop_last(), name);
        if commits.last().author@ == name {
            lemma_append(authored_by(commits.drop_last(), name), commits.last());
        }
    }
}

/// A name is listed exactly when some commit carries it.
pub proof fn lemma_listed_iff_authored(commits: Seq<CommitInfo>, name: Seq<char>)
    ensures
        names_in_order(commits).contains(name) <==> authored_by(commits, name).len() > 0,
    decreases commits.len(),
{
    if commits.len() > 0 {
        let earlier = names_in_order(commits.drop_last());
        let last = commits.last().author@;
        lemma_listed_iff_authored(commits.drop_last(), name);
        if !earlier.contains(last) {
            assert(earlier.push(last)[earlier.len() as int] == last);
            assert forall|i: int| 0 <= i < earlier.len() implies earlier.push(last)[i]
                == earlier[i] by {}
        }
    }
}

impl RepositoryStats {
    /// Every derived field agrees with the list of folded commits.
    pub open spec fn wf(&self) -> bool {
        &&& self.total_commits == self.commits@.len()
        &&& self.total_lines_added == total_lines_added(self.commits@)
        &&& self.total_lines_removed == total_lines_removed(self.commits@)
        &&& self.first_commit_date == earliest_date(self.commits@)
        &&& self.last_commit_date == latest_date(self.commits@)
        &&& texts(self.contributor_names@) == names_in_order(self.commits@)
        &&& forall|name: Seq<char>| #[trigger]
            self.contributors@.contains_key(name) <==> authored_by(self.commits@, name).len() > 0
        &&& forall|name: Seq<char>| #[trigger]
            self.contributors@.contains_key(name) ==> summarizes(
                self.contributors@[name],
                authored_by(self.commits@, name),
            )
    }

    /// An empty accumulator for the repository at `repo_path`.
    pub fn new(repo_path: &str) -> (stats: RepositoryStats)
        ensures
            stats.wf(),
            stats.repo_path@ == repo_path@,
            stats.total_commits == 0,
            stats.total_lines_added == 0,
            stats.total_lines_removed == 0,
            stats.first_commit_date.is_none(),
            stats.last_commit_date.is_none(),
            stats.contributors@ == Map::<Seq<char>, ContributorStats>::empty(),
            stats.contributor_names@.len() == 0,
            stats.commits@.len() == 0,
    {
        let stats = RepositoryStats {
            repo_path: repo_path.to_owned(),
            total_commits: 0,
            total_lines_added: 0,
            total_lines_removed: 0,
            first_commit_date: None,
            last_commit_date: None,
            contributors: StringHashMap::new(),
            contributor_names: Vec::new(),
            commits: Vec::new(),
        };
        assert(texts(stats.contributor_names@) =~= names_in_order(stats.commits@));
        stats
    }

    /// Whether `commit` can be folded without a counter leaving `usize`: the
    /// precondition of `add_commit` beyond well-formedness.
    pub fn has_room_for(&self, commit: &CommitInfo) -> (room: bool)
        ensures
            room == (self.commits@.len() < usize::MAX && self.total_lines_added
                + commit.lines_added <= usize::MAX && self.total_lines_removed
                + commit.lines_removed <= usize::MAX),
    {
        self.commits.len() < usize::MAX && self.total_lines_added.checked_add(
            commit.lines_added,
        ).is_some() && self.total_lines_removed.checked_add(commit.lines_removed).is_some()
    }

    /// Folds one commit into the accumulator: the totals grow by its counts,
    /// the first and last dates widen to include its date, the rollup of its
    /// author is created or updated, and the commit joins the end of the list.
    ///
    /// The three preconditions after `wf` keep the counters inside `usize`.
    pub fn add_commit(&mut self, commit: CommitInfo)
        requires
            old(self).wf(),
            old(self).commits@.len() < usize::MAX,
            old(self).total_lines_added + commit.lines_added <= usize::MAX,
            old(self).total_lines_removed + commit.lines_removed <= usize::MAX,
        ensures
            final(self).wf(),
            final(self).commits@ == old(self).commits@.push(commit),
            final(self).repo_path == old(self).repo_path,
            final(self).total_commits == old(self).total_commits + 1,
            final(self).total_lines_added == old(self).total_lines_added + commit.lines_added,
            final(self).total_lines_removed == old(self).total_lines_removed
                + commit.lines_removed,
            final(self).first_commit_date == Some(
                match old(self).first_commit_date {
                    None => commit.date,
                    Some(t) => t.earlier_of(commit.date),
                },
            ),
            final(self).last_commit_date == Some(
                match old(self).last_commit_date {
                    None => commit.date,
                    Some(t) => t.later_of(commit.date),
                },
            ),
            final(self).contributors@.dom() == old(self).contributors@.dom().insert(
                commit.author@,
            ),
            forall|name: Seq<char>|
                name != commit.author@ && old(self).contributors@.contains_key(name)
                    ==> #[trigger] final(self).contributors@[name] == old(
                    self,
                ).contributors@[name],
            final(self).contributors@[commit.author@] == (if old(
                self,
            ).contributors@.contains_key(commit.author@) {
                let seen = old(self).contributors@[commit.author@];
                ContributorStats {
                    commits: (seen.commits + 1) as usize,
                    lines_added: (seen.lines_added + commit.lines_added) as usize,
                    lines_removed: (seen.lines_removed + commit.lines_removed) as usize,
                    first_commit: seen.first_commit.earlier_of(commit.date),
                    last_commit: seen.last_commit.later_of(commit.date),
                }
            } else {
                ContributorStats {
                    commits: 1,
                    lines_added: commit.lines_added,
                    lines_removed: commit.lines_removed,
                    first_commit: commit.date,
                    last_commit: commit.date,
                }
            }),
    {
        let ghost before = self.commits@;
        let ghost own = authored_by(before, commit.author@);
        proof {
            lemma_append(before, commit);
            lemma_append(own, commit);
            lemma_share_is_bounded(before, commit.author@);
            lemma_listed_iff_authored(before, commit.author@);
        }
        let date = commit.date;

        self.total_commits = self.total_commits + 1;
        self.total_lines_added = self.total_lines_added + commit.lines_added;
        self.total_lines_removed = self.total_lines_removed + commit.lines_removed;

        self.first_commit_date = match self.first_commit_date {
            None => Some(date),
            Some(first) => if date.is_before(&first) {
                Some(date)
            } else {
                Some(first)
            },
        };
        self.last_commit_date = match self.last_commit_date {
            None => Some(date),
            Some(last) => if date.is_after(&last) {
                Some(date)
            } else {
                Some(last)
            },
        };

        let seen: Option<ContributorStats> = match self.contributors.get(commit.author.as_str()) {
            Some(rollup) => Some(*rollup),
            None => None,
        };
        let rollup = match seen {
            Some(seen) => ContributorStats {
                commits: seen.commits + 1,
                lines_added: seen.lines_added + commit.lines_added,
                lines_removed: seen.lines_removed + commit.lines_removed,
                first_commit: if date.is_before(&seen.first_commit) {
                    date
                } else {
                    seen.first_commit
                },
                last_commit: if date.is_after(&seen.last_commit) {
                    date
                } else {
                    seen.last_commit
                },
            },
            None => {
                self.contributor_names.push(commit.author.clone());
                ContributorStats {
                    commits: 1,
                    lines_added: commit.lines_added,
                    lines_removed: commit.lines_removed,
                    first_commit: date,
                    last_commit: date,
                }
            },
        };
        self.contributors.insert(commit.author.clone(), rollup);
        self.commits.push(commit);

        proof {
            assert(texts(self.contributor_names@) =~= names_in_order(self.commits@));
            assert(self.contributors@.dom() =~= old(self).contributors@.dom().insert(
                commit.author@,
            ));
        }
    }
}

} // verus!
