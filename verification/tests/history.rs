use repo_activity::git::first_parent;
use repo_activity::git::get_commit_diff_stats;
use repo_activity::git::get_commits;
use repo_activity::git::process_commit;
use repo_activity::git::RawCommit;
use repo_activity::time::Timestamp;
use repo_activity::time::MAX_SECS;

fn at(secs: i64) -> Timestamp {
    Timestamp { secs, nanos: 0 }
}

#[test]
fn walk_without_filter_keeps_every_commit() {
    let times = vec![500, 400, 300, 200, 100];
    assert_eq!(get_commits(&times, None, None), vec![0, 1, 2, 3, 4]);
}

#[test]
fn walk_of_nothing_chooses_nothing() {
    assert_eq!(get_commits(&Vec::new(), None, None), Vec::<usize>::new());
    assert_eq!(get_commits(&Vec::new(), Some(at(1)), Some(at(2))), Vec::<usize>::new());
}

#[test]
fn filtered_walk_is_the_commits_inside_the_range() {
    let times = vec![500, 400, 300, 200, 100];
    assert_eq!(get_commits(&times, Some(at(200)), Some(at(400))), vec![1, 2, 3]);
    assert_eq!(get_commits(&times, Some(at(201)), Some(at(399))), vec![2]);
    assert_eq!(get_commits(&times, Some(at(300)), None), vec![0, 1, 2]);
    assert_eq!(get_commits(&times, None, Some(at(300))), vec![2, 3, 4]);
    assert_eq!(get_commits(&times, Some(at(600)), Some(at(700))), Vec::<usize>::new());
    assert_eq!(get_commits(&times, Some(at(400)), Some(at(200))), Vec::<usize>::new());
}

#[test]
fn filter_equals_the_set_of_dates_in_range() {
    let times: Vec<i64> = vec![90, 10, 50, 50, 70, 30, 110, 50, 0, -20];
    for start in [None, Some(-30), Some(0), Some(50), Some(51), Some(120)] {
        for end in [None, Some(-30), Some(0), Some(50), Some(69), Some(120)] {
            let expected: Vec<usize> = (0..times.len())
                .filter(|&i| start.map_or(true, |s| s <= times[i]) && end.map_or(true, |e| times[i] <= e))
                .collect();
            assert_eq!(get_commits(&times, start.map(at), end.map(at)), expected);
        }
    }
}

#[test]
fn walk_keeps_commits_with_equal_times_in_walk_order() {
    let times = vec![300, 300, 300];
    assert_eq!(get_commits(&times, Some(at(300)), Some(at(300))), vec![0, 1, 2]);
}

#[test]
fn unrepresentable_time_is_judged_by_the_clock() {
    let times = vec![MAX_SECS + 1, 100];
    assert_eq!(get_commits(&times, None, Some(at(1_000))), vec![1]);
    assert_eq!(get_commits(&times, Some(at(1_000)), None), vec![0]);
}

#[test]
fn first_parent_is_parent_zero() {
    assert_eq!(first_parent(0), None);
    assert_eq!(first_parent(1), Some(0));
    assert_eq!(first_parent(2), Some(0));
    assert_eq!(first_parent(usize::MAX), Some(0));
}

#[test]
fn diff_counts_additions_and_deletions_only() {
    let origins = vec!['F', 'H', '+', '+', '-', ' ', '+', '=', '>', '<', 'B', '-'];
    assert_eq!(get_commit_diff_stats(3, &origins), (3, 2, 3));
}

#[test]
fn empty_diff_counts_nothing() {
    assert_eq!(get_commit_diff_stats(0, &Vec::new()), (0, 0, 0));
}

#[test]
fn binary_delta_counts_as_a_file_but_adds_no_lines() {
    assert_eq!(get_commit_diff_stats(1, &vec!['F', 'B']), (0, 0, 1));
}

#[test]
fn root_commit_only_adds() {
    let origins = vec!['F', 'H', '+', '+', '+', '+'];
    assert_eq!(get_commit_diff_stats(1, &origins), (4, 0, 1));
}

#[test]
fn commit_record_takes_what_was_read() {
    let raw = RawCommit {
        id: "3f2a9c".to_string(),
        author_name: Some("Ada".to_string()),
        author_email: Some("ada@example.com".to_string()),
        message: Some("Add engine\n".to_string()),
        time: 1_704_067_200,
        deltas: 2,
        line_origins: vec!['F', 'H', '+', '+', '-', 'F', 'H', '+'],
    };
    let info = process_commit(raw);
    assert_eq!(info.hash, "3f2a9c");
    assert_eq!(info.author, "Ada");
    assert_eq!(info.email, "ada@example.com");
    assert_eq!(info.message, "Add engine\n");
    assert_eq!(info.date, at(1_704_067_200));
    assert_eq!(info.lines_added, 3);
    assert_eq!(info.lines_removed, 1);
    assert_eq!(info.files_changed, 2);
}

#[test]
fn commit_record_fills_in_what_could_not_be_read() {
    let raw = RawCommit {
        id: "00ff".to_string(),
        author_name: None,
        author_email: None,
        message: None,
        time: 0,
        deltas: 0,
        line_origins: Vec::new(),
    };
    let info = process_commit(raw);
    assert_eq!(info.hash, "00ff");
    assert_eq!(info.author, "Unknown");
    assert_eq!(info.email, "Unknown");
    assert_eq!(info.message, "");
    assert_eq!(info.date, at(0));
    assert_eq!((info.lines_added, info.lines_removed, info.files_changed), (0, 0, 0));
}

#[test]
fn commit_record_with_unrepresentable_time_is_dated_now() {
    let before = chrono::Utc::now().timestamp();
    let raw = RawCommit {
        id: "aa".to_string(),
        author_name: Some("Ada".to_string()),
        author_email: None,
        message: Some(String::new()),
        time: i64::MAX,
        deltas: 1,
        line_origins: vec!['+'],
    };
    let info = process_commit(raw);
    let after = chrono::Utc::now().timestamp();
    assert!(before <= info.date.secs && info.date.secs <= after);
    assert_eq!(info.email, "Unknown");
    assert_eq!(info.lines_added, 1);
}
