//! From what is read out of a repository to commit records: the date filter,
//! the line counts of a diff, the record of one commit, and the fold of the
//! records into the accumulator.

use crate::error::AnalysisError;
use crate::models::total_lines_added;
use crate::models::total_lines_removed;
use crate::models::CommitInfo;
use crate::models::RepositoryStats;
use crate::time::naive_date_parse;
use crate::time::parsed_day;
use crate::time::utc_from_timestamp;
use crate::time::utc_now;
use crate::time::Timestamp;
use vstd::prelude::*;

verus! {

/// What is read from one commit object and from its diff against its first
/// parent (or against the empty tree, for a root commit).
#[derive(Clone, Debug)]
pub struct RawCommit {
    /// The commit identifier in its canonical string form.
    pub id: String,
    /// The author's display name, if the commit carries a readable one.
    pub author_name: Option<String>,
    /// The author's e-mail address, if readable.
    pub author_email: Option<String>,
    /// The raw commit message, if readable.
    pub message: Option<String>,
    /// The author time, in seconds since the Unix epoch.
    pub time: i64,
    /// The number of file-level deltas of the diff.
    pub deltas: usize,
    /// The origin marker of every line that the diff emits, in order.
    pub line_origins: Vec<char>,
}

/// An inclusive range of instants; an absent bound does not restrict.
#[derive(Clone, Copy, Debug, PartialEq, Eq, Structural)]
pub struct DateRange {
    pub start: Option<Timestamp>,
    pub end: Option<Timestamp>,
}

/// The text of the format that date filters are written in.
pub open spec fn date_format() -> Seq<char> {
    "%Y-%m-%d"@
}

/// Midnight UTC at the start of the day with the given number, where day 1 is
/// January 1 of the year 1 and day 719163 is January 1, 1970.
pub open spec fn midnight_of(day: i32) -> Timestamp {
    Timestamp { secs: ((day - 719_163) * 86_400) as i64, nanos: 0 }
}

/// The instant that a date filter stands for, if it is a date.
pub open spec fn parsed_date(text: Seq<char>) -> Option<Timestamp> {
    match parsed_day(text, date_format()) {
        Some(day) => Some(midnight_of(day)),
        None => None,
    }
}

/// `date` lies in the inclusive range from `start` to `end`.
pub open spec fn in_range(date: Timestamp, start: Option<Timestamp>, end: Option<Timestamp>) -> bool {
    &&& (start matches Some(s) ==> s.at_or_before(date))
    &&& (end matches Some(e) ==> date.at_or_before(e))
}

/// The instant of a commit time: the time itself where `chrono` can hold it.
pub open spec fn instant_of(time: i64) -> Timestamp {
    Timestamp { secs: time, nanos: 0 }
}

/// Midnight UTC of a day given by its number in the proleptic Gregorian
/// calendar.
pub fn midnight_utc(day: i32) -> (t: Timestamp)
    ensures
        t == midnight_of(day),
        t.secs == (day - 719_163) * 86_400,
        t.nanos == 0,
{
    let since_epoch: i64 = day as i64 - 719_163;
    Timestamp { secs: since_epoch * 86_400, nanos: 0 }
}

/// Parses a date written as `YYYY-MM-DD` into midnight UTC of that day.
pub fn parse_date(date_str: &str) -> (r: Result<Timestamp, AnalysisError>)
    ensures
        r == match parsed_date(date_str@) {
            Some(t) => Ok::<Timestamp, AnalysisError>(t),
            None => Err(AnalysisError::DateParse),
        },
{
    match naive_date_parse(date_str, "%Y-%m-%d") {
        Ok(day) => Ok(midnight_utc(day)),
        Err(_) => Err(AnalysisError::DateParse),
    }
}

/// Converts a commit time to an instant. A time that `chrono` cannot hold is
/// replaced by the current wall-clock time.
pub fn git_time_to_datetime(time: i64) -> (t: Timestamp)
    ensures
        instant_of(time).representable() ==> t == instant_of(time),
        t.representable(),
{
    match utc_from_timestamp(time, 0) {
        Some(t) => t,
        None => utc_now(),
    }
}

/// Parses the two optional date filters, the start first. Nothing else is
/// looked at, so a malformed filter is reported before any commit is.
pub fn parse_date_range(start_date_str: Option<&str>, end_date_str: Option<&str>) -> (r: Result<
    DateRange,
    AnalysisError,
>)
    ensures
        r is Err <==> (start_date_str matches Some(s) && parsed_date(s@).is_none()) || (
        end_date_str matches Some(e) && parsed_date(e@).is_none()),
        r matches Err(e) ==> e == AnalysisError::DateParse,
        r matches Ok(range) ==> {
            &&& range.start == match start_date_str {
                Some(s) => parsed_date(s@),
                None => None,
            }
            &&& range.end == match end_date_str {
                Some(e) => parsed_date(e@),
                None => None,
            }
        },
{
    let start = match start_date_str {
        Some(text) => match parse_date(text) {
            Ok(t) => Some(t),
            Err(e) => {
                return Err(e);
            },
        },
        None => None,
    };
    let end = match end_date_str {
        Some(text) => match parse_date(text) {
            Ok(t) => Some(t),
            Err(e) => {
                return Err(e);
            },
        },
        None => None,
    };
    Ok(DateRange { start, end })
}

/// Whether a commit dated `date` passes the filter: both bounds are inclusive.
pub fn date_in_range(date: &Timestamp, start: &Option<Timestamp>, end: &Option<Timestamp>) -> (r:
    bool)
    ensures
        r == in_range(*date, *start, *end),
{
    let after_start = match start {
        Some(s) => !date.is_before(s),
        None => true,
    };
    let before_end = match end {
        Some(e) => !date.is_after(e),
        None => true,
    };
    after_start && before_end
}

/// Chooses from a walk the commits whose date passes the filter. `times` holds
/// the author time of every commit of the walk, in walk order; the result
/// holds the positions of the chosen commits, in the same order.
///
/// A time that `chrono` cannot hold is judged by the wall clock, as
/// `git_time_to_datetime` dates it.
pub fn get_commits(times: &Vec<i64>, start: Option<Timestamp>, end: Option<Timestamp>) -> (chosen:
    Vec<usize>)
    ensures
        forall|k: int| 0 <= k < chosen@.len() ==> chosen@[k] < times@.len(),
        forall|j: int, k: int| 0 <= j < k < chosen@.len() ==> chosen@[j] < chosen@[k],
        forall|i: int|
            0 <= i < times@.len() && instant_of(times@[i]).representable() ==> (
            chosen@.contains(i as usize) <==> in_range(instant_of(#[trigger] times@[i]), start, end)),
{
    let mut chosen: Vec<usize> = Vec::new();
    let mut i: usize = 0;
    while i < times.len()
        invariant
            i <= times@.len(),
            forall|k: int| 0 <= k < chosen@.len() ==> chosen@[k] < i,
            forall|j: int, k: int| 0 <= j < k < chosen@.len() ==> chosen@[j] < chosen@[k],
            forall|m: int|
                0 <= m < i && instant_of(times@[m]).representable() ==> (chosen@.contains(
                    m as usize,
                ) <==> in_range(instant_of(#[trigger] times@[m]), start, end)),
        decreases times@.len() - i,
    {
        let date = git_time_to_datetime(times[i]);
        let ghost before = chosen@;
        if date_in_range(&date, &start, &end) {
            chosen.push(i);
            proof {
                assert(chosen@[before.len() as int] == i);
                assert forall|v: usize| #[trigger] before.contains(v) implies chosen@.contains(
                    v,
                ) by {
                    let k = choose|k: int| 0 <= k < before.len() && before[k] == v;
                    assert(chosen@[k] == v);
                }
            }
        }
        i = i + 1;
    }
    chosen
}

/// The parent that a commit is compared with: its first, when it has any.
/// Further parents of a merge are not looked at.
pub fn first_parent(parent_count: usize) -> (parent: Option<usize>)
    ensures
        parent == (if parent_count > 0 {
            Some(0usize)
        } else {
            None
        }),
{
    if parent_count > 0 {
        Some(0)
    } else {
        None
    }
}

/// The churn of one diff: lines added, lines removed, files changed.
///
/// `deltas` is the number of file-level deltas and `line_origins` holds the
/// origin marker of every emitted line. A line marked `'+'` is an addition, a
/// line marked `'-'` a deletion; every other marker is passed over.
pub fn get_commit_diff_stats(deltas: usize, line_origins: &Vec<char>) -> (stats: (
    usize,
    usize,
    usize,
))
    ensures
        stats.0 == line_origins@.to_multiset().count('+'),
        stats.1 == line_origins@.to_multiset().count('-'),
        stats.2 == deltas,
{
    broadcast use vstd::seq_lib::group_to_multiset_ensures;

    let mut lines_added: usize = 0;
    let mut lines_removed: usize = 0;
    let mut i: usize = 0;
    proof {
        assert(line_origins@.take(0).to_multiset().len() == 0);
    }
    while i < line_origins.len()
        invariant
            i <= line_origins@.len(),
            lines_added == line_origins@.take(i as int).to_multiset().count('+'),
            lines_removed == line_origins@.take(i as int).to_multiset().count('-'),
            lines_added + lines_removed <= i,
        decreases line_origins@.len() - i,
    {
        let origin = line_origins[i];
        proof {
            vstd::seq_lib::to_multiset_build(line_origins@.take(i as int), origin);
            assert(line_origins@.take(i + 1) =~= line_origins@.take(i as int).push(origin));
        }
        if origin == '+' {
            lines_added = lines_added + 1;
        } else if origin == '-' {
            lines_removed = lines_removed + 1;
        }
        i = i + 1;
    }
    proof {
        assert(line_origins@.take(line_origins@.len() as int) =~= line_origins@);
    }
    (lines_added, lines_removed, deltas)
}

/// The name recorded for an author or an address that cannot be read.
pub open spec fn unknown() -> Seq<char> {
    "Unknown"@
}

/// `info` is the record of the commit read as `raw`. Every field is fixed by
/// `raw` but the date of a commit whose time `chrono` cannot hold.
pub open spec fn is_record_of(info: CommitInfo, raw: RawCommit) -> bool {
    &&& info.hash == raw.id
    &&& info.author@ == match raw.author_name {
        Some(name) => name@,
        None => unknown(),
    }
    &&& info.email@ == match raw.author_email {
        Some(email) => email@,
        None => unknown(),
    }
    &&& info.message@ == match raw.message {
        Some(message) => message@,
        None => Seq::<char>::empty(),
    }
    &&& (instant_of(raw.time).representable() ==> info.date == instant_of(raw.time))
    &&& info.date.representable()
    &&& info.lines_added == raw.line_origins@.to_multiset().count('+')
    &&& info.lines_removed == raw.line_origins@.to_multiset().count('-')
    &&& info.files_changed == raw.deltas
}

/// Turns what was read from one commit into its record: an unreadable author
/// name or address becomes `"Unknown"`, an unreadable message becomes empty,
/// the time becomes an instant and the diff becomes its three counts.
pub fn process_commit(raw: RawCommit) -> (info: CommitInfo)
    ensures
        is_record_of(info, raw),
{
    let date = git_time_to_datetime(raw.time);
    let (lines_added, lines_removed, files_changed) = get_commit_diff_stats(
        raw.deltas,
        &raw.line_origins,
    );
    let author = match raw.author_name {
        Some(name) => name,
        None => "Unknown".to_owned(),
    };
    let email = match raw.author_email {
        Some(email) => email,
        None => "Unknown".to_owned(),
    };
    let message = match raw.message {
        Some(message) => message,
        None => String::new(),
    };
    CommitInfo {
        hash: raw.id,
        author,
        email,
        date,
        message,
        lines_added,
        lines_removed,
        files_changed,
    }
}

/// The totals of a prefix of a commit list do not exceed those of the list.
pub proof fn lemma_prefix_totals(commits: Seq<CommitInfo>, n: int)
    requires
        0 <= n <= commits.len(),
    ensures
        total_lines_added(commits.take(n)) <= total_lines_added(commits),
        total_lines_removed(commits.take(n)) <= total_lines_removed(commits),
    decreases commits.len() - n,
{
    if n < commits.len() {
        lemma_prefix_totals(commits, n + 1);
        assert(commits.take(n + 1).drop_last() =~= commits.take(n));
    } else {
        assert(commits.take(n) =~= commits);
    }
}

/// Whether the line totals of `records` fit the counters of an accumulator.
pub fn totals_fit(records: &Vec<CommitInfo>) -> (fit: bool)
    ensures
        fit == (total_lines_added(records@) <= usize::MAX && total_lines_removed(records@)
            <= usize::MAX),
{
    let mut added: usize = 0;
    let mut removed: usize = 0;
    let mut i: usize = 0;
    while i < records.len()
        invariant
            i <= records@.len(),
            added == total_lines_added(records@.take(i as int)),
            removed == total_lines_removed(records@.take(i as int)),
        decreases records@.len() - i,
    {
        proof {
            assert(records@.take(i + 1).drop_last() =~= records@.take(i as int));
            lemma_prefix_totals(records@, i + 1);
        }
        added = match added.checked_add(records[i].lines_added) {
            Some(sum) => sum,
            None => {
                return false;
            },
        };
        removed = match removed.checked_add(records[i].lines_removed) {
            Some(sum) => sum,
            None => {
                return false;
            },
        };
        i = i + 1;
    }
    proof {
        assert(records@.take(records@.len() as int) =~= records@);
    }
    true
}

/// Builds the statistics of the repository at `repo_path` from the records
/// of its commits, folding them in the order given.
///
/// The precondition keeps the line totals inside `usize`; `totals_fit` tests
/// it.
pub fn analyze_repository(repo_path: &str, records: Vec<CommitInfo>) -> (stats: RepositoryStats)
    requires
        total_lines_added(records@) <= usize::MAX,
        total_lines_removed(records@) <= usize::MAX,
    ensures
        stats.wf(),
        stats.repo_path@ == repo_path@,
        stats.commits@ == records@,
{
    let mut stats = RepositoryStats::new(repo_path);
    let ghost all = records@;
    proof {
        let count: usize = records.len();
        assert(all.len() == count);
    }
    for record in it: records
        invariant
            it.seq() == all,
            all.len() <= usize::MAX,
            stats.wf(),
            stats.repo_path@ == repo_path@,
            stats.commits@ == all.take(it.index() as int),
            total_lines_added(all) <= usize::MAX,
            total_lines_removed(all) <= usize::MAX,
    {
        proof {
            lemma_prefix_totals(all, it.index() + 1);
            assert(all.take(it.index() + 1).drop_last() =~= all.take(it.index() as int));
            assert(all.take(it.index() + 1) =~= all.take(it.index() as int).push(record));
        }
        stats.add_commit(record);
    }
    proof {
        assert(all.take(all.len() as int) =~= all);
    }
    stats
}

} // verus!
