use codedebt::filters::{filter_findings, Criterion};
use codedebt::{CodeDebtItem, CodeDebtScanner, Severity};

fn finding(name: &str, severity: Severity, age: Option<i64>, duplicates: usize) -> CodeDebtItem {
    CodeDebtItem {
        file_path: "f.rs".to_string(),
        line_number: 1,
        column: 1,
        line_content: name.to_string(),
        pattern_type: name.to_string(),
        severity,
        author: None,
        age_days: age,
        commit_hash: None,
        created_at: None,
        file_extension: None,
        duplicate_count: duplicates,
    }
}

fn all_four() -> Vec<CodeDebtItem> {
    vec![
        finding("m", Severity::Medium, Some(10), 1),
        finding("c", Severity::Critical, None, 3),
        finding("l", Severity::Low, Some(400), 2),
        finding("h", Severity::High, Some(0), 0),
    ]
}

fn names(items: &[CodeDebtItem]) -> Vec<&str> {
    items.iter().map(|i| i.pattern_type.as_str()).collect()
}

#[test]
fn threshold_high_keeps_exactly_critical_and_high() {
    let scanner = CodeDebtScanner::new();
    let kept = scanner.filter_by_severity(&all_four(), Severity::High);
    assert_eq!(names(&kept), vec!["c", "h"]);
}

#[test]
fn each_threshold_keeps_what_is_at_least_as_severe() {
    let scanner = CodeDebtScanner::new();
    let items = all_four();
    assert_eq!(names(&scanner.filter_by_severity(&items, Severity::Critical)), vec!["c"]);
    assert_eq!(names(&scanner.filter_by_severity(&items, Severity::Medium)), vec!["m", "c", "h"]);
    assert_eq!(names(&scanner.filter_by_severity(&items, Severity::Low)), vec!["m", "c", "l", "h"]);
    assert!(scanner.filter_by_severity(&[], Severity::Low).is_empty());
}

#[test]
fn filtering_twice_is_filtering_once() {
    let scanner = CodeDebtScanner::new();
    for threshold in [Severity::Critical, Severity::High, Severity::Medium, Severity::Low] {
        let once = scanner.filter_by_severity(&all_four(), threshold);
        let twice = scanner.filter_by_severity(&once, threshold);
        assert_eq!(names(&once), names(&twice));
    }
    let once = scanner.filter_by_age(&all_four(), 10);
    assert_eq!(names(&scanner.filter_by_age(&once, 10)), names(&once));
    let once = scanner.find_duplicates(&all_four(), 2);
    assert_eq!(names(&scanner.find_duplicates(&once, 2)), names(&once));
}

#[test]
fn filtered_findings_are_unchanged_copies() {
    let scanner = CodeDebtScanner::new();
    let mut items = all_four();
    items[1].author = Some("Ada".to_string());
    items[1].commit_hash = Some("abc".to_string());
    items[1].created_at = Some(42);
    items[1].file_extension = Some("rs".to_string());
    let kept = scanner.filter_by_severity(&items, Severity::Critical);
    assert_eq!(kept.len(), 1);
    assert_eq!(kept[0].author.as_deref(), Some("Ada"));
    assert_eq!(kept[0].commit_hash.as_deref(), Some("abc"));
    assert_eq!(kept[0].created_at, Some(42));
    assert_eq!(kept[0].file_extension.as_deref(), Some("rs"));
    assert_eq!(kept[0].duplicate_count, 3);
    assert_eq!(kept[0].line_content, "c");
    assert_eq!(items.len(), 4);
}

#[test]
fn age_filter_lets_unknown_ages_pass() {
    let scanner = CodeDebtScanner::new();
    let items = all_four();
    assert_eq!(names(&scanner.filter_by_age(&items, 10)), vec!["m", "c", "h"]);
    assert_eq!(names(&scanner.filter_by_age(&items, 9)), vec!["c", "h"]);
    assert_eq!(names(&scanner.filter_by_age(&items, -1)), vec!["c"]);
    assert_eq!(names(&scanner.filter_by_age(&items, 400)), vec!["m", "c", "l", "h"]);
}

#[test]
fn duplicate_filter_keeps_counts_from_the_minimum_up() {
    let scanner = CodeDebtScanner::new();
    let items = all_four();
    assert_eq!(names(&scanner.find_duplicates(&items, 2)), vec!["c", "l"]);
    assert_eq!(names(&scanner.find_duplicates(&items, 3)), vec!["c"]);
    assert_eq!(names(&scanner.find_duplicates(&items, 4)), Vec::<&str>::new());
    // Without duplicate detection every count is zero and only a minimum of zero passes.
    assert_eq!(names(&scanner.find_duplicates(&items, 0)), vec!["m", "c", "l", "h"]);
}

#[test]
fn criteria_can_be_applied_directly() {
    let items = all_four();
    assert_eq!(names(&filter_findings(&items, Criterion::AtLeast(Severity::High))), vec!["c", "h"]);
    assert_eq!(names(&filter_findings(&items, Criterion::AtMostDaysOld(0))), vec!["c", "h"]);
    assert_eq!(names(&filter_findings(&items, Criterion::AtLeastDuplicates(1))), vec!["m", "c", "l"]);
    assert!(Criterion::AtLeast(Severity::Low).admits(&items[2]));
    assert!(!Criterion::AtLeast(Severity::Medium).admits(&items[2]));
}
