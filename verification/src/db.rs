//! The rows that stand for an accumulator in a relational store, and the way
//! back from rows to an accumulator. Dates are stored as RFC 3339 text and
//! counts as 64-bit signed integers.

use crate::models::CommitInfo;
use crate::models::ContributorStats;
use crate::models::RepositoryStats;
use crate::models::texts;
use crate::time::parse_from_rfc3339;
use crate::time::rfc3339_instant;
use crate::time::rfc3339_text;
use crate::time::to_rfc3339;
use crate::time::utc_now;
use crate::time::Timestamp;
use vstd::hash_map::StringHashMap;
use vstd::prelude::*;

verus! {

/// Why rows could not be written or read.
#[derive(Clone, Copy, Debug, PartialEq, Eq, Structural)]
pub enum StoreError {
    /// A date of the accumulator is one that cannot be written as text.
    DateOutOfRange,
    /// A listed contributor name has no rollup.
    MissingRollup,
    /// A stored date of the repository or of a contributor is not RFC 3339.
    DateParse,
}

/// The row of the repository itself.
#[derive(Clone, Debug)]
pub struct RepositoryRow {
    pub path: String,
    pub total_commits: i64,
    pub total_lines_added: i64,
    pub total_lines_removed: i64,
    pub first_commit_date: Option<String>,
    pub last_commit_date: Option<String>,
}

/// The row of one contributor.
#[derive(Clone, Debug)]
pub struct ContributorRow {
    pub name: String,
    pub email: Option<String>,
    pub commits: i64,
    pub lines_added: i64,
    pub lines_removed: i64,
    pub first_commit_date: String,
    pub last_commit_date: String,
}

/// The row of one commit.
#[derive(Clone, Debug)]
pub struct CommitRow {
    pub hash: String,
    pub author: String,
    pub email: String,
    pub date: String,
    pub message: String,
    pub lines_added: i64,
    pub lines_removed: i64,
    pub files_changed: i64,
}

/// Everything that is stored for one analysis.
#[derive(Clone, Debug)]
pub struct StoredStats {
    pub repository: RepositoryRow,
    pub contributors: Vec<ContributorRow>,
    pub commits: Vec<CommitRow>,
}

/// The stored text of an instant.
pub open spec fn date_text(t: Timestamp) -> Seq<char> {
    rfc3339_text(t.secs, t.nanos)
}

/// The instant that a stored text stands for, if it is a date.
pub open spec fn text_date(text: Seq<char>) -> Option<Timestamp> {
    match rfc3339_instant(text) {
        Some(read) => Some(Timestamp { secs: read.0, nanos: read.1 }),
        None => None,
    }
}

/// The stored text of an optional instant.
pub open spec fn is_date_text(text: Option<String>, date: Option<Timestamp>) -> bool {
    match date {
        Some(t) => text matches Some(written) && written@ == date_text(t),
        None => text is None,
    }
}

/// The address of the first commit of `commits` whose author is `name`, or
/// the empty text when there is none.
pub open spec fn first_email(commits: Seq<CommitInfo>, name: Seq<char>) -> Seq<char>
    decreases commits.len(),
{
    if commits.len() == 0 {
        Seq::empty()
    } else if commits.first().author@ == name {
        commits.first().email@
    } else {
        first_email(commits.drop_first(), name)
    }
}

/// The address stored with a contributor: that of the first commit in the
/// list that carries the name.
pub fn contributor_email(commits: &Vec<CommitInfo>, name: &str) -> (email: String)
    ensures
        email@ == first_email(commits@, name@),
{
    let wanted = name.to_owned();
    let mut i: usize = 0;
    proof {
        assert(commits@.skip(0) =~= commits@);
    }
    while i < commits.len()
        invariant
            i <= commits@.len(),
            wanted@ == name@,
            first_email(commits@, name@) == first_email(commits@.skip(i as int), name@),
        decreases commits@.len() - i,
    {
        proof {
            assert(commits@.skip(i as int).first() == commits@[i as int]);
            assert(commits@.skip(i as int).drop_first() =~= commits@.skip(i + 1));
        }
        if commits[i].author == wanted {
            return commits[i].email.clone();
        }
        i = i + 1;
    }
    String::new()
}

/// `row` is the row of the commit `commit`.
pub open spec fn is_commit_row(row: CommitRow, commit: CommitInfo) -> bool {
    &&& row.hash@ == commit.hash@
    &&& row.author@ == commit.author@
    &&& row.email@ == commit.email@
    &&& row.date@ == date_text(commit.date)
    &&& row.message@ == commit.message@
    &&& row.lines_added == commit.lines_added as i64
    &&& row.lines_removed == commit.lines_removed as i64
    &&& row.files_changed == commit.files_changed as i64
}

/// `row` is the row of the contributor `name` with the rollup `rollup`, in a
/// repository with the commits `commits`.
pub open spec fn is_contributor_row(
    row: ContributorRow,
    name: Seq<char>,
    rollup: ContributorStats,
    commits: Seq<CommitInfo>,
) -> bool {
    &&& row.name@ == name
    &&& row.email matches Some(email) && email@ == first_email(commits, name)
    &&& row.commits == rollup.commits as i64
    &&& row.lines_added == rollup.lines_added as i64
    &&& row.lines_removed == rollup.lines_removed as i64
    &&& row.first_commit_date@ == date_text(rollup.first_commit)
    &&& row.last_commit_date@ == date_text(rollup.last_commit)
}

/// `row` is the row of the repository described by `stats`.
pub open spec fn is_repository_row(row: RepositoryRow, stats: RepositoryStats) -> bool {
    &&& row.path@ == stats.repo_path@
    &&& row.total_commits == stats.total_commits as i64
    &&& row.total_lines_added == stats.total_lines_added as i64
    &&& row.total_lines_removed == stats.total_lines_removed as i64
    &&& is_date_text(row.first_commit_date, stats.first_commit_date)
    &&& is_date_text(row.last_commit_date, stats.last_commit_date)
}

/// Every listed contributor name has a rollup.
pub open spec fn names_have_rollups(stats: RepositoryStats) -> bool {
    forall|i: int|
        0 <= i < stats.contributor_names@.len() ==> stats.contributors@.contains_key(
            #[trigger] stats.contributor_names@[i]@,
        )
}

/// Every date of the accumulator can be written as text.
pub open spec fn dates_can_be_written(stats: RepositoryStats) -> bool {
    &&& stats.first_commit_date matches Some(t) ==> t.representable()
    &&& stats.last_commit_date matches Some(t) ==> t.representable()
    &&& forall|i: int|
        0 <= i < stats.contributor_names@.len() && stats.contributors@.contains_key(
            #[trigger] stats.contributor_names@[i]@,
        ) ==> {
            &&& stats.contributors@[stats.contributor_names@[i]@].first_commit.representable()
            &&& stats.contributors@[stats.contributor_names@[i]@].last_commit.representable()
        }
    &&& forall|i: int|
        0 <= i < stats.commits@.len() ==> (#[trigger] stats.commits@[i]).date.representable()
}

/// The text of an optional date, or `Err` when the date cannot be written.
fn optional_date_text(date: Option<Timestamp>) -> (r: Result<Option<String>, StoreError>)
    ensures
        r is Ok <==> (date matches Some(t) ==> t.representable()),
        r matches Ok(text) ==> is_date_text(text, date),
        r matches Err(e) ==> e == StoreError::DateOutOfRange,
{
    match date {
        None => Ok(None),
        Some(t) => match to_rfc3339(t) {
            Some(text) => Ok(Some(text)),
            None => Err(StoreError::DateOutOfRange),
        },
    }
}

/// The row of the repository.
pub fn repository_row(stats: &RepositoryStats) -> (r: Result<RepositoryRow, StoreError>)
    ensures
        r is Ok <==> (stats.first_commit_date matches Some(t) ==> t.representable()) && (
        stats.last_commit_date matches Some(t) ==> t.representable()),
        r matches Ok(row) ==> is_repository_row(row, *stats),
        r matches Err(e) ==> e == StoreError::DateOutOfRange,
{
    let first = match optional_date_text(stats.first_commit_date) {
        Ok(text) => text,
        Err(e) => {
            return Err(e);
        },
    };
    let last = match optional_date_text(stats.last_commit_date) {
        Ok(text) => text,
        Err(e) => {
            return Err(e);
        },
    };
    Ok(
        RepositoryRow {
            path: stats.repo_path.clone(),
            total_commits: stats.total_commits as i64,
            total_lines_added: stats.total_lines_added as i64,
            total_lines_removed: stats.total_lines_removed as i64,
            first_commit_date: first,
            last_commit_date: last,
        },
    )
}

/// The row of one commit.
pub fn commit_row(commit: &CommitInfo) -> (r: Result<CommitRow, StoreError>)
    ensures
        r is Ok <==> commit.date.representable(),
        r matches Ok(row) ==> is_commit_row(row, *commit),
        r matches Err(e) ==> e == StoreError::DateOutOfRange,
{
    match to_rfc3339(commit.date) {
        Some(date) => Ok(
            CommitRow {
                hash: commit.hash.clone(),
                author: commit.author.clone(),
                email: commit.email.clone(),
                date,
                message: commit.message.clone(),
                lines_added: commit.lines_added as i64,
                lines_removed: commit.lines_removed as i64,
                files_changed: commit.files_changed as i64,
            },
        ),
        None => Err(StoreError::DateOutOfRange),
    }
}

/// The row of the contributor listed at position `i`.
pub fn contributor_row(stats: &RepositoryStats, i: usize) -> (r: Result<ContributorRow, StoreError>)
    requires
        i < stats.contributor_names@.len(),
    ensures
        r is Ok <==> {
            &&& stats.contributors@.contains_key(stats.contributor_names@[i as int]@)
            &&& stats.contributors@[stats.contributor_names@[i as int]@].first_commit.representable()
            &&& stats.contributors@[stats.contributor_names@[i as int]@].last_commit.representable()
        },
        r matches Ok(row) ==> is_contributor_row(
            row,
            stats.contributor_names@[i as int]@,
            stats.contributors@[stats.contributor_names@[i as int]@],
            stats.commits@,
        ),
        r matches Err(e) ==> e == (if stats.contributors@.contains_key(
            stats.contributor_names@[i as int]@,
        ) {
            StoreError::DateOutOfRange
        } else {
            StoreError::MissingRollup
        }),
{
    let name = &stats.contributor_names[i];
    let rollup: ContributorStats = match stats.contributors.get(name.as_str()) {
        Some(rollup) => *rollup,
        None => {
            return Err(StoreError::MissingRollup);
        },
    };
    let first = match to_rfc3339(rollup.first_commit) {
        Some(text) => text,
        None => {
            return Err(StoreError::DateOutOfRange);
        },
    };
    let last = match to_rfc3339(rollup.last_commit) {
        Some(text) => text,
        None => {
            return Err(StoreError::DateOutOfRange);
        },
    };
    Ok(
        ContributorRow {
            name: name.clone(),
            email: Some(contributor_email(&stats.commits, name.as_str())),
            commits: rollup.commits as i64,
            lines_added: rollup.lines_added as i64,
            lines_removed: rollup.lines_removed as i64,
            first_commit_date: first,
            last_commit_date: last,
        },
    )
}

/// The rows to store for an accumulator: one for the repository, one for
/// each listed contributor in the order of the list, one for each commit in
/// the order of the list.
///
/// Nothing is produced unless every row can be. A listed name without a
/// rollup gives `MissingRollup`; where every name has one, a date that cannot
/// be written gives `DateOutOfRange`.
pub fn save_stats(stats: &RepositoryStats) -> (r: Result<StoredStats, StoreError>)
    ensures
        r is Ok <==> names_have_rollups(*stats) && dates_can_be_written(*stats),
        r matches Ok(stored) ==> {
            &&& is_repository_row(stored.repository, *stats)
            &&& stored.contributors@.len() == stats.contributor_names@.len()
            &&& forall|i: int|
                0 <= i < stored.contributors@.len() ==> is_contributor_row(
                    #[trigger] stored.contributors@[i],
                    stats.contributor_names@[i]@,
                    stats.contributors@[stats.contributor_names@[i]@],
                    stats.commits@,
                )
            &&& stored.commits@.len() == stats.commits@.len()
            &&& forall|i: int|
                0 <= i < stored.commits@.len() ==> is_commit_row(
                    #[trigger] stored.commits@[i],
                    stats.commits@[i],
                )
        },
        r matches Err(e) ==> e == (if names_have_rollups(*stats) {
            StoreError::DateOutOfRange
        } else {
            StoreError::MissingRollup
        }),
{
    let mut n: usize = 0;
    while n < stats.contributor_names.len()
        invariant
            n <= stats.contributor_names@.len(),
            forall|k: int|
                0 <= k < n ==> stats.contributors@.contains_key(
                    #[trigger] stats.contributor_names@[k]@,
                ),
        decreases stats.contributor_names@.len() - n,
    {
        if !stats.contributors.contains_key(stats.contributor_names[n].as_str()) {
            return Err(StoreError::MissingRollup);
        }
        n = n + 1;
    }
    let repository = match repository_row(stats) {
        Ok(row) => row,
        Err(e) => {
            return Err(e);
        },
    };
    let mut contributors: Vec<ContributorRow> = Vec::new();
    let mut i: usize = 0;
    while i < stats.contributor_names.len()
        invariant
            i <= stats.contributor_names@.len(),
            contributors@.len() == i,
            names_have_rollups(*stats),
            forall|k: int|
                0 <= k < i ==> is_contributor_row(
                    #[trigger] contributors@[k],
                    stats.contributor_names@[k]@,
                    stats.contributors@[stats.contributor_names@[k]@],
                    stats.commits@,
                ),
            forall|k: int|
                0 <= k < i ==> {
                    &&& stats.contributors@[(#[trigger] stats.contributor_names@[k])@].first_commit.representable()
                    &&& stats.contributors@[stats.contributor_names@[k]@].last_commit.representable()
                },
        decreases stats.contributor_names@.len() - i,
    {
        match contributor_row(stats, i) {
            Ok(row) => {
                contributors.push(row);
            },
            Err(e) => {
                proof {
                    let name = stats.contributor_names@[i as int]@;
                    assert(stats.contributors@.contains_key(name));
                    assert(!(stats.contributors@[name].first_commit.representable()
                        && stats.contributors@[name].last_commit.representable()));
                }
                return Err(e);
            },
        }
        i = i + 1;
    }
    let mut commits: Vec<CommitRow> = Vec::new();
    let mut j: usize = 0;
    while j < stats.commits.len()
        invariant
            j <= stats.commits@.len(),
            commits@.len() == j,
            names_have_rollups(*stats),
            forall|k: int|
                0 <= k < j ==> is_commit_row(#[trigger] commits@[k], stats.commits@[k]),
            forall|k: int| 0 <= k < j ==> (#[trigger] stats.commits@[k]).date.representable(),
        decreases stats.commits@.len() - j,
    {
        match commit_row(&stats.commits[j]) {
            Ok(row) => {
                commits.push(row);
            },
            Err(e) => {
                proof {
                    assert(!stats.commits@[j as int].date.representable());
                }
                return Err(e);
            },
        }
        j = j + 1;
    }
    Ok(StoredStats { repository, contributors, commits })
}

/// The rollup that a contributor row stands for, where both its dates read.
pub open spec fn rollup_of_row(row: ContributorRow) -> ContributorStats {
    ContributorStats {
        commits: row.commits as usize,
        lines_added: row.lines_added as usize,
        lines_removed: row.lines_removed as usize,
        first_commit: text_date(row.first_commit_date@)->0,
        last_commit: text_date(row.last_commit_date@)->0,
    }
}

/// The rollups that a list of contributor rows stands for: where two rows
/// carry one name, the later row counts.
pub open spec fn rollups_of(rows: Seq<ContributorRow>) -> Map<Seq<char>, ContributorStats>
    decreases rows.len(),
{
    if rows.len() == 0 {
        Map::empty()
    } else {
        rollups_of(rows.drop_last()).insert(rows.last().name@, rollup_of_row(rows.last()))
    }
}

/// The names of a list of contributor rows, each once, in order of first
/// appearance.
pub open spec fn names_of(rows: Seq<ContributorRow>) -> Seq<Seq<char>>
    decreases rows.len(),
{
    if rows.len() == 0 {
        Seq::empty()
    } else {
        let earlier = names_of(rows.drop_last());
        if earlier.contains(rows.last().name@) {
            earlier
        } else {
            earlier.push(rows.last().name@)
        }
    }
}

/// Both dates of a contributor row read as RFC 3339.
pub open spec fn row_dates_read(row: ContributorRow) -> bool {
    text_date(row.first_commit_date@) is Some && text_date(row.last_commit_date@) is Some
}

/// A stored optional date reads: it is absent or it is RFC 3339.
pub open spec fn optional_date_reads(text: Option<String>) -> bool {
    text matches Some(written) ==> text_date(written@) is Some
}

/// The date that a stored optional text stands for.
pub open spec fn optional_text_date(text: Option<String>) -> Option<Timestamp> {
    match text {
        Some(written) => text_date(written@),
        None => None,
    }
}

/// `commit` is the commit that `row` stands for. A date that does not read
/// leaves the date of the commit open.
pub open spec fn is_stored_commit(commit: CommitInfo, row: CommitRow) -> bool {
    &&& commit.hash == row.hash
    &&& commit.author == row.author
    &&& commit.email == row.email
    &&& commit.message == row.message
    &&& (text_date(row.date@) matches Some(t) ==> commit.date == t)
    &&& commit.lines_added == row.lines_added as usize
    &&& commit.lines_removed == row.lines_removed as usize
    &&& commit.files_changed == row.files_changed as usize
}

/// The names of a list of rows are the keys of its rollups.
pub proof fn lemma_names_are_keys(rows: Seq<ContributorRow>, name: Seq<char>)
    ensures
        names_of(rows).contains(name) <==> rollups_of(rows).contains_key(name),
    decreases rows.len(),
{
    if rows.len() > 0 {
        let earlier = names_of(rows.drop_last());
        let last = rows.last().name@;
        lemma_names_are_keys(rows.drop_last(), name);
        if !earlier.contains(last) {
            assert(earlier.push(last)[earlier.len() as int] == last);
            assert forall|i: int| 0 <= i < earlier.len() implies earlier.push(last)[i]
                == earlier[i] by {}
        }
    }
}

/// The date of an optional stored text, or `Err` when the text is no date.
fn read_optional_date(text: &Option<String>) -> (r: Result<Option<Timestamp>, StoreError>)
    ensures
        r is Ok <==> optional_date_reads(*text),
        r matches Ok(date) ==> date == optional_text_date(*text),
        r matches Err(e) ==> e == StoreError::DateParse,
{
    match text {
        None => Ok(None),
        Some(written) => match parse_from_rfc3339(written.as_str()) {
            Ok(t) => Ok(Some(t)),
            Err(_) => Err(StoreError::DateParse),
        },
    }
}

/// The rollup of one contributor row, or `Err` when one of its dates is no
/// date.
pub fn read_contributor(row: &ContributorRow) -> (r: Result<ContributorStats, StoreError>)
    ensures
        r is Ok <==> row_dates_read(*row),
        r matches Ok(rollup) ==> rollup == rollup_of_row(*row),
        r matches Err(e) ==> e == StoreError::DateParse,
{
    let first_commit = match parse_from_rfc3339(row.first_commit_date.as_str()) {
        Ok(t) => t,
        Err(_) => {
            return Err(StoreError::DateParse);
        },
    };
    let last_commit = match parse_from_rfc3339(row.last_commit_date.as_str()) {
        Ok(t) => t,
        Err(_) => {
            return Err(StoreError::DateParse);
        },
    };
    Ok(
        ContributorStats {
            commits: row.commits as usize,
            lines_added: row.lines_added as usize,
            lines_removed: row.lines_removed as usize,
            first_commit,
            last_commit,
        },
    )
}

/// The commit of one commit row. A date that is no date is replaced by the
/// current wall-clock time.
pub fn read_commit(row: CommitRow) -> (commit: CommitInfo)
    ensures
        is_stored_commit(commit, row),
{
    let date = match parse_from_rfc3339(row.date.as_str()) {
        Ok(t) => t,
        Err(_) => utc_now(),
    };
    CommitInfo {
        hash: row.hash,
        author: row.author,
        email: row.email,
        date,
        message: row.message,
        lines_added: row.lines_added as usize,
        lines_removed: row.lines_removed as usize,
        files_changed: row.files_changed as usize,
    }
}

/// The accumulator that stored rows stand for. The fields are taken from the
/// rows as they are: the totals and the rollups are not recomputed from the
/// commits.
///
/// A date of the repository row or of a contributor row that is no date gives
/// `DateParse`.
pub fn get_repository_stats(stored: StoredStats) -> (r: Result<RepositoryStats, StoreError>)
    ensures
        r is Ok <==> {
            &&& optional_date_reads(stored.repository.first_commit_date)
            &&& optional_date_reads(stored.repository.last_commit_date)
            &&& forall|i: int|
                0 <= i < stored.contributors@.len() ==> row_dates_read(
                    #[trigger] stored.contributors@[i],
                )
        },
        r matches Err(e) ==> e == StoreError::DateParse,
        r matches Ok(stats) ==> {
            &&& stats.repo_path == stored.repository.path
            &&& stats.total_commits == stored.repository.total_commits as usize
            &&& stats.total_lines_added == stored.repository.total_lines_added as usize
            &&& stats.total_lines_removed == stored.repository.total_lines_removed as usize
            &&& stats.first_commit_date == optional_text_date(stored.repository.first_commit_date)
            &&& stats.last_commit_date == optional_text_date(stored.repository.last_commit_date)
            &&& stats.contributors@ == rollups_of(stored.contributors@)
            &&& texts(stats.contributor_names@) == names_of(stored.contributors@)
            &&& stats.commits@.len() == stored.commits@.len()
            &&& forall|i: int|
                0 <= i < stats.commits@.len() ==> is_stored_commit(
                    #[trigger] stats.commits@[i],
                    stored.commits@[i],
                )
        },
{
    let first_commit_date = match read_optional_date(&stored.repository.first_commit_date) {
        Ok(date) => date,
        Err(e) => {
            return Err(e);
        },
    };
    let last_commit_date = match read_optional_date(&stored.repository.last_commit_date) {
        Ok(date) => date,
        Err(e) => {
            return Err(e);
        },
    };
    let ghost rows = stored.contributors@;
    let mut contributors: StringHashMap<ContributorStats> = StringHashMap::new();
    let mut contributor_names: Vec<String> = Vec::new();
    proof {
        assert(texts(contributor_names@) =~= names_of(rows.take(0)));
    }
    for row in it: stored.contributors
        invariant
            it.seq() == rows,
            contributors@ == rollups_of(rows.take(it.index() as int)),
            texts(contributor_names@) == names_of(rows.take(it.index() as int)),
            forall|k: int| 0 <= k < it.index() ==> row_dates_read(#[trigger] rows[k]),
    {
        let ghost seen = rows.take(it.index() as int);
        proof {
            assert(rows.take(it.index() + 1).drop_last() =~= seen);
            lemma_names_are_keys(seen, row.name@);
        }
        let rollup = match read_contributor(&row) {
            Ok(rollup) => rollup,
            Err(e) => {
                return Err(e);
            },
        };
        if !contributors.contains_key(row.name.as_str()) {
            contributor_names.push(row.name.clone());
        }
        contributors.insert(row.name, rollup);
        proof {
            assert(texts(contributor_names@) =~= names_of(rows.take(it.index() + 1)));
        }
    }
    let ghost commit_rows = stored.commits@;
    let mut commits: Vec<CommitInfo> = Vec::new();
    for row in it: stored.commits
        invariant
            it.seq() == commit_rows,
            commits@.len() == it.index(),
            forall|k: int|
                0 <= k < it.index() ==> is_stored_commit(#[trigger] commits@[k], commit_rows[k]),
    {
        let commit = read_commit(row);
        commits.push(commit);
    }
    proof {
        assert(rows.take(rows.len() as int) =~= rows);
    }
    Ok(
        RepositoryStats {
            repo_path: stored.repository.path,
            total_commits: stored.repository.total_commits as usize,
            total_lines_added: stored.repository.total_lines_added as usize,
            total_lines_removed: stored.repository.total_lines_removed as usize,
            first_commit_date,
            last_commit_date,
            contributors,
            contributor_names,
            commits,
        },
    )
}

} // verus!
