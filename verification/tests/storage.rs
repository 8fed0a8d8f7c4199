use repo_activity::db::commit_row;
use repo_activity::db::contributor_email;
use repo_activity::db::contributor_row;
use repo_activity::db::get_repository_stats;
use repo_activity::db::read_commit;
use repo_activity::db::read_contributor;
use repo_activity::db::repository_row;
use repo_activity::db::save_stats;
use repo_activity::db::CommitRow;
use repo_activity::db::ContributorRow;
use repo_activity::db::RepositoryRow;
use repo_activity::db::StoreError;
use repo_activity::db::StoredStats;
use repo_activity::git::analyze_repository;
use repo_activity::models::CommitInfo;
use repo_activity::models::ContributorStats;
use repo_activity::models::RepositoryStats;
use repo_activity::time::Timestamp;
use repo_activity::time::MAX_SECS;

fn at(secs: i64) -> Timestamp {
    Timestamp { secs, nanos: 0 }
}

fn commit(hash: &str, author: &str, email: &str, secs: i64, added: usize, removed: usize) -> CommitInfo {
    CommitInfo {
        hash: hash.to_string(),
        author: author.to_string(),
        email: email.to_string(),
        date: at(secs),
        message: format!("commit {}", hash),
        lines_added: added,
        lines_removed: removed,
        files_changed: 2,
    }
}

fn sample() -> RepositoryStats {
    analyze_repository(
        "/srv/repo",
        vec![
            commit("c3", "Ada", "ada@new.example", 1_704_153_600, 4, 1),
            commit("b2", "Bob", "bob@example.com", 1_704_110_400, 5, 0),
            commit("a1", "Ada", "ada@old.example", 1_704_067_200, 6, 1),
        ],
    )
}

fn commit_row_with_date(date: &str) -> CommitRow {
    CommitRow {
        hash: "h".to_string(),
        author: "Ada".to_string(),
        email: "ada@example.com".to_string(),
        date: date.to_string(),
        message: "m".to_string(),
        lines_added: 3,
        lines_removed: 2,
        files_changed: 1,
    }
}

#[test]
fn address_of_a_contributor_is_that_of_the_first_commit_listed() {
    let stats = sample();
    assert_eq!(contributor_email(&stats.commits, "Ada"), "ada@new.example");
    assert_eq!(contributor_email(&stats.commits, "Bob"), "bob@example.com");
    assert_eq!(contributor_email(&stats.commits, "Eve"), "");
    assert_eq!(contributor_email(&Vec::new(), "Ada"), "");
}

#[test]
fn commit_row_writes_the_date_as_rfc3339() {
    let row = commit_row(&commit("a1", "Ada", "ada@example.com", 1_704_067_200, 6, 1)).unwrap();
    assert_eq!(row.hash, "a1");
    assert_eq!(row.author, "Ada");
    assert_eq!(row.email, "ada@example.com");
    assert_eq!(row.date, "2024-01-01T00:00:00+00:00");
    assert_eq!(row.message, "commit a1");
    assert_eq!((row.lines_added, row.lines_removed, row.files_changed), (6, 1, 2));
}

#[test]
fn commit_row_writes_fractions_of_a_second() {
    let mut c = commit("a1", "Ada", "ada@example.com", 0, 0, 0);
    c.date = Timestamp { secs: 0, nanos: 500_000_000 };
    assert_eq!(commit_row(&c).unwrap().date, "1970-01-01T00:00:00.500+00:00");
    c.date = Timestamp { secs: -1, nanos: 0 };
    assert_eq!(commit_row(&c).unwrap().date, "1969-12-31T23:59:59+00:00");
}

#[test]
fn date_that_cannot_be_written_is_an_error() {
    let mut c = commit("a1", "Ada", "ada@example.com", MAX_SECS + 1, 0, 0);
    assert_eq!(commit_row(&c).err(), Some(StoreError::DateOutOfRange));
    c.date = Timestamp { secs: 0, nanos: 2_000_000_000 };
    assert_eq!(commit_row(&c).err(), Some(StoreError::DateOutOfRange));
    c.date = Timestamp { secs: 0, nanos: 1_000_000_000 };
    assert_eq!(commit_row(&c).err(), Some(StoreError::DateOutOfRange));
    c.date = Timestamp { secs: 59, nanos: 1_000_000_000 };
    assert!(commit_row(&c).is_ok());
    c.date = Timestamp { secs: -1, nanos: 1_999_999_999 };
    assert!(commit_row(&c).is_ok());
    c.date = at(MAX_SECS);
    assert!(commit_row(&c).is_ok());
}

#[test]
fn repository_row_of_an_analysis() {
    let row = repository_row(&sample()).unwrap();
    assert_eq!(row.path, "/srv/repo");
    assert_eq!(row.total_commits, 3);
    assert_eq!(row.total_lines_added, 15);
    assert_eq!(row.total_lines_removed, 2);
    assert_eq!(row.first_commit_date.as_deref(), Some("2024-01-01T00:00:00+00:00"));
    assert_eq!(row.last_commit_date.as_deref(), Some("2024-01-02T00:00:00+00:00"));
}

#[test]
fn repository_row_of_an_empty_analysis_has_no_dates() {
    let row = repository_row(&RepositoryStats::new("repo")).unwrap();
    assert_eq!(row.path, "repo");
    assert_eq!((row.total_commits, row.total_lines_added, row.total_lines_removed), (0, 0, 0));
    assert_eq!(row.first_commit_date, None);
    assert_eq!(row.last_commit_date, None);
}

#[test]
fn contributor_row_of_an_analysis() {
    let stats = sample();
    let ada = contributor_row(&stats, 0).unwrap();
    assert_eq!(ada.name, "Ada");
    assert_eq!(ada.email.as_deref(), Some("ada@new.example"));
    assert_eq!((ada.commits, ada.lines_added, ada.lines_removed), (2, 10, 2));
    assert_eq!(ada.first_commit_date, "2024-01-01T00:00:00+00:00");
    assert_eq!(ada.last_commit_date, "2024-01-02T00:00:00+00:00");
    let bob = contributor_row(&stats, 1).unwrap();
    assert_eq!(bob.name, "Bob");
    assert_eq!(bob.email.as_deref(), Some("bob@example.com"));
    assert_eq!((bob.commits, bob.lines_added, bob.lines_removed), (1, 5, 0));
    assert_eq!(bob.first_commit_date, "2024-01-01T12:00:00+00:00");
    assert_eq!(bob.last_commit_date, "2024-01-01T12:00:00+00:00");
}

#[test]
fn saved_rows_follow_the_lists() {
    let stored = save_stats(&sample()).unwrap();
    assert_eq!(stored.repository.total_commits, 3);
    let names: Vec<&str> = stored.contributors.iter().map(|r| r.name.as_str()).collect();
    assert_eq!(names, vec!["Ada", "Bob"]);
    let hashes: Vec<&str> = stored.commits.iter().map(|r| r.hash.as_str()).collect();
    assert_eq!(hashes, vec!["c3", "b2", "a1"]);
    assert_eq!(stored.commits[1].date, "2024-01-01T12:00:00+00:00");
    assert_eq!(stored.commits[1].email, "bob@example.com");
}

#[test]
fn saving_an_empty_analysis_gives_one_row() {
    let stored = save_stats(&RepositoryStats::new("repo")).unwrap();
    assert_eq!(stored.repository.path, "repo");
    assert!(stored.contributors.is_empty());
    assert!(stored.commits.is_empty());
}

#[test]
fn saving_fails_on_a_listed_name_without_rollup() {
    let mut stats = sample();
    stats.contributor_names.push("Eve".to_string());
    assert_eq!(contributor_row(&stats, 2).err(), Some(StoreError::MissingRollup));
    assert_eq!(save_stats(&stats).err(), Some(StoreError::MissingRollup));
}

#[test]
fn saving_fails_on_a_date_that_cannot_be_written() {
    let mut stats = sample();
    stats.commits[2].date = at(MAX_SECS + 1);
    assert_eq!(save_stats(&stats).err(), Some(StoreError::DateOutOfRange));
    let mut stats = sample();
    stats.last_commit_date = Some(Timestamp { secs: 0, nanos: 3_000_000_000 });
    assert_eq!(repository_row(&stats).err(), Some(StoreError::DateOutOfRange));
    assert_eq!(save_stats(&stats).err(), Some(StoreError::DateOutOfRange));
}

#[test]
fn reads_a_stored_commit() {
    let c = read_commit(commit_row_with_date("2024-01-01T00:00:00+00:00"));
    assert_eq!(c.hash, "h");
    assert_eq!(c.author, "Ada");
    assert_eq!(c.email, "ada@example.com");
    assert_eq!(c.message, "m");
    assert_eq!(c.date, at(1_704_067_200));
    assert_eq!((c.lines_added, c.lines_removed, c.files_changed), (3, 2, 1));
}

#[test]
fn stored_date_is_read_as_an_instant_whatever_its_offset() {
    assert_eq!(read_commit(commit_row_with_date("2024-01-01T02:00:00+02:00")).date, at(1_704_067_200));
    assert_eq!(read_commit(commit_row_with_date("2023-12-31T19:00:00-05:00")).date, at(1_704_067_200));
    assert_eq!(read_commit(commit_row_with_date("2024-01-01T00:00:00Z")).date, at(1_704_067_200));
    assert_eq!(
        read_commit(commit_row_with_date("1970-01-01T00:00:01.25Z")).date,
        Timestamp { secs: 1, nanos: 250_000_000 }
    );
}

#[test]
fn stored_commit_with_a_bad_date_is_dated_now() {
    let before = chrono::Utc::now().timestamp();
    let c = read_commit(commit_row_with_date("2024/01/01"));
    let after = chrono::Utc::now().timestamp();
    assert!(before <= c.date.secs && c.date.secs <= after);
    assert_eq!(c.hash, "h");
}

#[test]
fn reads_a_stored_contributor() {
    let row = ContributorRow {
        name: "Ada".to_string(),
        email: None,
        commits: 2,
        lines_added: 10,
        lines_removed: 2,
        first_commit_date: "2024-01-01T00:00:00+00:00".to_string(),
        last_commit_date: "2024-01-02T00:00:00+00:00".to_string(),
    };
    assert_eq!(
        read_contributor(&row),
        Ok(ContributorStats {
            commits: 2,
            lines_added: 10,
            lines_removed: 2,
            first_commit: at(1_704_067_200),
            last_commit: at(1_704_153_600),
        })
    );
    let mut bad = row.clone();
    bad.first_commit_date = "soon".to_string();
    assert_eq!(read_contributor(&bad), Err(StoreError::DateParse));
    let mut bad = row;
    bad.last_commit_date = String::new();
    assert_eq!(read_contributor(&bad), Err(StoreError::DateParse));
}

#[test]
fn what_is_saved_reads_back() {
    let stats = sample();
    let back = get_repository_stats(save_stats(&stats).unwrap()).unwrap();
    assert_eq!(back.repo_path, stats.repo_path);
    assert_eq!(back.total_commits, stats.total_commits);
    assert_eq!(back.total_lines_added, stats.total_lines_added);
    assert_eq!(back.total_lines_removed, stats.total_lines_removed);
    assert_eq!(back.first_commit_date, stats.first_commit_date);
    assert_eq!(back.last_commit_date, stats.last_commit_date);
    assert_eq!(back.contributor_names, stats.contributor_names);
    assert_eq!(back.contributors.len(), 2);
    for name in ["Ada", "Bob"] {
        assert_eq!(back.contributors.get(name), stats.contributors.get(name));
    }
    assert_eq!(back.commits.len(), 3);
    for (b, s) in back.commits.iter().zip(stats.commits.iter()) {
        assert_eq!(b.hash, s.hash);
        assert_eq!(b.author, s.author);
        assert_eq!(b.email, s.email);
        assert_eq!(b.date, s.date);
        assert_eq!(b.message, s.message);
        assert_eq!(b.lines_added, s.lines_added);
        assert_eq!(b.lines_removed, s.lines_removed);
        assert_eq!(b.files_changed, s.files_changed);
    }
}

fn stored_with(first: Option<&str>, contributor_first: &str, commit_date: &str) -> StoredStats {
    StoredStats {
        repository: RepositoryRow {
            path: "repo".to_string(),
            total_commits: 9,
            total_lines_added: 8,
            total_lines_removed: 7,
            first_commit_date: first.map(|s| s.to_string()),
            last_commit_date: Some("2024-01-02T00:00:00+00:00".to_string()),
        },
        contributors: vec![
            ContributorRow {
                name: "Ada".to_string(),
                email: Some("ada@example.com".to_string()),
                commits: 1,
                lines_added: 1,
                lines_removed: 1,
                first_commit_date: contributor_first.to_string(),
                last_commit_date: "2024-01-02T00:00:00+00:00".to_string(),
            },
            ContributorRow {
                name: "Bob".to_string(),
                email: None,
                commits: 2,
                lines_added: 2,
                lines_removed: 2,
                first_commit_date: "2024-01-01T00:00:00+00:00".to_string(),
                last_commit_date: "2024-01-01T00:00:00+00:00".to_string(),
            },
            ContributorRow {
                name: "Ada".to_string(),
                email: None,
                commits: 5,
                lines_added: 6,
                lines_removed: 7,
                first_commit_date: "2024-01-01T00:00:00+00:00".to_string(),
                last_commit_date: "2024-01-01T00:00:00+00:00".to_string(),
            },
        ],
        commits: vec![commit_row_with_date(commit_date)],
    }
}

#[test]
fn rows_are_taken_as_they_are() {
    let stats = get_repository_stats(stored_with(None, "2024-01-01T00:00:00+00:00", "2024-01-01T00:00:00Z")).unwrap();
    assert_eq!(stats.repo_path, "repo");
    assert_eq!((stats.total_commits, stats.total_lines_added, stats.total_lines_removed), (9, 8, 7));
    assert_eq!(stats.first_commit_date, None);
    assert_eq!(stats.last_commit_date, Some(at(1_704_153_600)));
    assert_eq!(stats.contributor_names, vec!["Ada".to_string(), "Bob".to_string()]);
    assert_eq!(stats.contributors.len(), 2);
    assert_eq!(stats.contributors.get("Ada").unwrap().commits, 5);
    assert_eq!(stats.contributors.get("Ada").unwrap().lines_added, 6);
    assert_eq!(stats.contributors.get("Bob").unwrap().commits, 2);
    assert_eq!(stats.commits.len(), 1);
    assert_eq!(stats.commits[0].date, at(1_704_067_200));
}

#[test]
fn bad_repository_or_contributor_date_fails_the_read() {
    let good = "2024-01-01T00:00:00+00:00";
    assert_eq!(get_repository_stats(stored_with(Some("never"), good, good)).err(), Some(StoreError::DateParse));
    assert_eq!(get_repository_stats(stored_with(Some(good), "never", good)).err(), Some(StoreError::DateParse));
    assert_eq!(get_repository_stats(stored_with(Some(good), "2024-01-01", good)).err(), Some(StoreError::DateParse));
    assert!(get_repository_stats(stored_with(Some(good), good, "never")).is_ok());
}
