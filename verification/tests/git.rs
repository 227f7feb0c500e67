use codedebt::git::{
    days_between, BlameInfo, BlameStats, GitAnalyzer, EARLIEST_TIMESTAMP, LATEST_TIMESTAMP,
};
use codedebt::{CodeDebtItem, Severity};

fn finding(line: usize) -> CodeDebtItem {
    CodeDebtItem {
        file_path: "f.rs".to_string(),
        line_number: line,
        column: 2,
        line_content: "// TODO".to_string(),
        pattern_type: "TODO".to_string(),
        severity: Severity::Medium,
        author: None,
        age_days: None,
        commit_hash: None,
        created_at: None,
        file_extension: Some("rs".to_string()),
        duplicate_count: 5,
    }
}

fn blame(author: Option<&str>, hash: &str, time: i64) -> Option<BlameInfo> {
    Some(BlameInfo {
        author: author.map(|a| a.to_string()),
        commit_hash: hash.to_string(),
        commit_time: time,
    })
}

#[test]
fn whole_days_round_toward_zero() {
    assert_eq!(days_between(0, 0), 0);
    assert_eq!(days_between(0, 86_399), 0);
    assert_eq!(days_between(0, 86_400), 1);
    assert_eq!(days_between(1_000, 1_000 + 10 * 86_400 + 86_399), 10);
    assert_eq!(days_between(86_400, 0), -1);
    assert_eq!(days_between(86_399, 0), 0);
    assert_eq!(days_between(3 * 86_400 + 1, 0), -3);
    assert_eq!(days_between(i64::MIN, i64::MAX), 213_503_982_334_601);
    assert_eq!(days_between(i64::MAX, i64::MIN), -213_503_982_334_601);
}

#[test]
fn a_usable_answer_sets_all_four_history_fields() {
    let mut items = vec![finding(1)];
    let history = vec![blame(Some("Ada"), "deadbeef", 1_700_000_000)];
    let now = 1_700_000_000 + 40 * 86_400;
    let stats = GitAnalyzer::add_git_information(Some(&history), now, &mut items);
    assert_eq!(stats, BlameStats { successes: 1, errors: 0 });
    assert_eq!(items[0].author.as_deref(), Some("Ada"));
    assert_eq!(items[0].commit_hash.as_deref(), Some("deadbeef"));
    assert_eq!(items[0].created_at, Some(1_700_000_000));
    assert_eq!(items[0].age_days, Some(40));
    // The rest of the finding is untouched.
    assert_eq!(items[0].line_number, 1);
    assert_eq!(items[0].column, 2);
    assert_eq!(items[0].file_extension.as_deref(), Some("rs"));
    assert_eq!(items[0].duplicate_count, 5);
}

#[test]
fn failures_leave_findings_unset_and_do_not_stop_the_pass() {
    let mut items = vec![finding(1), finding(2), finding(3), finding(4)];
    let history = vec![
        None,
        blame(None, "abc", 100),
        // An instant far beyond what can be represented.
        blame(Some("Bob"), "def", i64::MAX),
    ];
    let stats = GitAnalyzer::add_git_information(Some(&history), 100 + 86_400, &mut items);
    assert_eq!(stats, BlameStats { successes: 1, errors: 3 });

    assert_eq!(items[0].author, None);
    assert_eq!(items[0].commit_hash, None);
    assert_eq!(items[0].created_at, None);
    assert_eq!(items[0].age_days, None);

    assert_eq!(items[1].author, None);
    assert_eq!(items[1].commit_hash.as_deref(), Some("abc"));
    assert_eq!(items[1].created_at, Some(100));
    assert_eq!(items[1].age_days, Some(1));

    assert_eq!(items[2].author, None);
    assert_eq!(items[2].commit_hash, None);
    assert_eq!(items[2].created_at, None);
    assert_eq!(items[2].age_days, None);

    // No answer at all for the fourth finding.
    assert_eq!(items[3].commit_hash, None);
    assert_eq!(items.len(), 4);
}

#[test]
fn without_a_repository_nothing_is_counted() {
    let mut items = vec![finding(1), finding(2)];
    let stats = GitAnalyzer::add_git_information(None, 1_000, &mut items);
    assert_eq!(stats, BlameStats { successes: 0, errors: 0 });
    assert_eq!(items[0].age_days, None);
    assert_eq!(items[1].commit_hash, None);
}

#[test]
fn a_commit_in_the_future_has_a_negative_age() {
    let mut item = finding(1);
    let info = BlameInfo { author: None, commit_hash: "h".to_string(), commit_time: 10 * 86_400 };
    assert!(GitAnalyzer::apply_lookup(&mut item, Some(&info), 0));
    assert_eq!(item.age_days, Some(-10));
    let mut other = finding(1);
    assert!(!GitAnalyzer::apply_lookup(&mut other, None, 0));
    assert_eq!(other.age_days, None);
    let too_early = BlameInfo { author: None, commit_hash: "h".to_string(), commit_time: i64::MIN };
    assert!(!GitAnalyzer::apply_lookup(&mut other, Some(&too_early), 0));
    assert_eq!(other.commit_hash, None);
}

#[test]
fn blame_info_clones_field_by_field() {
    let info = BlameInfo { author: Some("Ada".to_string()), commit_hash: "h".to_string(), commit_time: 7 };
    let copy = info.clone();
    assert_eq!(copy.author.as_deref(), Some("Ada"));
    assert_eq!(copy.commit_hash, "h");
    assert_eq!(copy.commit_time, 7);
}

#[test]
fn commit_times_are_usable_exactly_within_the_years_that_can_be_represented() {
    assert_eq!(EARLIEST_TIMESTAMP, -8_334_601_228_800);
    assert_eq!(LATEST_TIMESTAMP, 8_210_266_876_799);
    let usable = |time: i64| {
        let mut item = finding(1);
        let info = BlameInfo { author: None, commit_hash: "h".to_string(), commit_time: time };
        let ok = GitAnalyzer::apply_lookup(&mut item, Some(&info), 0);
        assert_eq!(item.created_at.is_some(), ok);
        assert_eq!(item.age_days.is_some(), ok);
        assert_eq!(item.commit_hash.is_some(), ok);
        ok
    };
    assert!(usable(0));
    assert!(usable(-1));
    assert!(usable(1_700_000_000));
    assert!(usable(LATEST_TIMESTAMP));
    assert!(usable(LATEST_TIMESTAMP - 86_400));
    assert!(!usable(LATEST_TIMESTAMP + 1));
    assert!(!usable(LATEST_TIMESTAMP + 86_400));
    assert!(usable(EARLIEST_TIMESTAMP));
    assert!(usable(EARLIEST_TIMESTAMP + 86_399));
    assert!(!usable(EARLIEST_TIMESTAMP - 1));
    assert!(!usable(EARLIEST_TIMESTAMP - 86_400));
    assert!(!usable(i64::MAX));
    assert!(!usable(i64::MIN));
}

#[test]
fn the_age_at_the_ends_of_the_range_is_exact() {
    let mut item = finding(1);
    let info =
        BlameInfo { author: None, commit_hash: "h".to_string(), commit_time: EARLIEST_TIMESTAMP };
    assert!(GitAnalyzer::apply_lookup(&mut item, Some(&info), LATEST_TIMESTAMP));
    assert_eq!(item.age_days, Some(191_491_528));
    let mut other = finding(1);
    let late =
        BlameInfo { author: None, commit_hash: "h".to_string(), commit_time: LATEST_TIMESTAMP };
    assert!(GitAnalyzer::apply_lookup(&mut other, Some(&late), EARLIEST_TIMESTAMP));
    assert_eq!(other.age_days, Some(-191_491_528));
}
