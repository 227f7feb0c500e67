use codedebt::error::{check_root, handle_git_error, handle_path_error, CodeDebtError};
use codedebt::progress::{reports_progress, reports_update};
use codedebt::report::{
    csv_header, csv_row, decimal_text, describe_age, format_paths, is_glob_pattern,
};
use codedebt::{CodeDebtItem, Severity};

#[test]
fn numbers_print_in_decimal() {
    assert_eq!(decimal_text(0), "0");
    assert_eq!(decimal_text(7), "7");
    assert_eq!(decimal_text(10), "10");
    assert_eq!(decimal_text(1234567890), "1234567890");
    assert_eq!(decimal_text(-1), "-1");
    assert_eq!(decimal_text(-905), "-905");
    assert_eq!(decimal_text(i64::MAX), "9223372036854775807");
    assert_eq!(decimal_text(i64::MIN), "-9223372036854775808");
    for n in [-1000i64, -99, -10, -9, 9, 99, 100, 101, 65535] {
        assert_eq!(decimal_text(n), n.to_string());
    }
}

#[test]
fn ages_are_worded_in_days_months_and_years() {
    assert_eq!(describe_age(0), "today");
    assert_eq!(describe_age(1), "1 day ago");
    assert_eq!(describe_age(2), "2 days ago");
    assert_eq!(describe_age(29), "29 days ago");
    assert_eq!(describe_age(30), "1 months ago");
    assert_eq!(describe_age(89), "2 months ago");
    assert_eq!(describe_age(364), "12 months ago");
    assert_eq!(describe_age(365), "1 years ago");
    assert_eq!(describe_age(800), "2 years ago");
    assert_eq!(describe_age(-3), "-3 days ago");
}

#[test]
fn severities_have_names_and_labels() {
    assert_eq!(Severity::Critical.name(), "Critical");
    assert_eq!(Severity::High.name(), "High");
    assert_eq!(Severity::Medium.name(), "Medium");
    assert_eq!(Severity::Low.name(), "Low");
    assert_eq!(Severity::Critical.label(), "CRITICAL");
    assert_eq!(Severity::High.label(), "HIGH");
    assert_eq!(Severity::Medium.label(), "MEDIUM");
    assert_eq!(Severity::Low.label(), "LOW");
    assert_eq!(format!("{:?}", Severity::High), Severity::High.name());
}

#[test]
fn severity_ranks_run_from_critical_to_low() {
    assert_eq!(Severity::Critical.rank(), 0);
    assert_eq!(Severity::High.rank(), 1);
    assert_eq!(Severity::Medium.rank(), 2);
    assert_eq!(Severity::Low.rank(), 3);
    assert!(Severity::Critical.at_least(Severity::High));
    assert!(Severity::High.at_least(Severity::High));
    assert!(!Severity::Medium.at_least(Severity::High));
    assert!(Severity::Low.at_least(Severity::Low));
    assert!(Severity::Critical <= Severity::Critical);
    assert!(Severity::Low > Severity::Critical);
    assert_eq!(Severity::High.partial_cmp(&Severity::Low), Some(std::cmp::Ordering::Less));
    assert_eq!(Severity::High.cmp(&Severity::Low), std::cmp::Ordering::Less);
    assert_eq!(Severity::Low.cmp(&Severity::Low), std::cmp::Ordering::Equal);
}

#[test]
fn csv_record_follows_the_header() {
    assert_eq!(
        csv_header(),
        "file_path,line_number,column,severity,pattern_type,line_content,author,age_days,duplicate_count"
    );
    let item = CodeDebtItem {
        file_path: "src/a.rs".to_string(),
        line_number: 12,
        column: 5,
        line_content: "let s = \"TODO\"; // say \"hi\"".to_string(),
        pattern_type: "TODO".to_string(),
        severity: Severity::Medium,
        author: Some("Ada".to_string()),
        age_days: Some(40),
        commit_hash: Some("abc".to_string()),
        created_at: Some(1),
        file_extension: Some("rs".to_string()),
        duplicate_count: 3,
    };
    assert_eq!(
        csv_row(&item),
        "src/a.rs,12,5,Medium,TODO,\"let s = \"\"TODO\"\"; // say \"\"hi\"\"\",\"Ada\",40,3"
    );
    let bare = CodeDebtItem { author: None, age_days: None, duplicate_count: 0, ..item };
    assert_eq!(
        csv_row(&bare),
        "src/a.rs,12,5,Medium,TODO,\"let s = \"\"TODO\"\"; // say \"\"hi\"\"\",\"\",-1,0"
    );
}

#[test]
fn glob_patterns_hold_a_wildcard() {
    assert!(is_glob_pattern("src/*.rs"));
    assert!(is_glob_pattern("file?.rs"));
    assert!(is_glob_pattern("[ab].rs"));
    assert!(!is_glob_pattern("src/main.rs"));
    assert!(!is_glob_pattern(""));
    assert!(!is_glob_pattern("a]b"));
}

#[test]
fn path_errors_say_what_is_wrong_and_what_to_do() {
    let missing = handle_path_error("nowhere", false, false);
    assert_eq!(missing.message, "Path 'nowhere' does not exist");
    assert_eq!(
        missing.suggestion.as_deref(),
        Some("Check the path and try again. Use '.' for current directory.")
    );
    // What does not exist is reported as missing, whatever else is claimed of it.
    assert_eq!(handle_path_error("nowhere", false, true).message, "Path 'nowhere' does not exist");

    let file = handle_path_error("a.txt", true, false);
    assert_eq!(file.message, "Path 'a.txt' is not a directory");
    assert_eq!(file.suggestion.as_deref(), Some("Please provide a directory path, not a file."));

    let closed = handle_path_error("/root", true, true);
    assert_eq!(closed.message, "Cannot access path '/root'");
    assert_eq!(closed.suggestion.as_deref(), Some("Check permissions and try again."));
}

#[test]
fn errors_render_as_plain_text() {
    let plain = CodeDebtError::new("it broke");
    assert_eq!(plain.message, "it broke");
    assert_eq!(plain.suggestion, None);
    assert_eq!(plain.to_text(), "Error: it broke");
    let helped = plain.with_suggestion("first").with_suggestion("mend it");
    assert_eq!(helped.suggestion.as_deref(), Some("mend it"));
    assert_eq!(helped.to_text(), "Error: it broke\nSuggestion: mend it");

    let git = handle_git_error();
    assert_eq!(git.message, "Git repository not found");
    assert_eq!(
        git.to_text(),
        "Error: Git repository not found\nSuggestion: Run 'git init' first, or disable git features with --no-git-blame"
    );
}

#[test]
fn terminal_progress_shows_only_large_scans_and_every_tenth_file() {
    assert!(!reports_progress(true, 100));
    assert!(reports_progress(true, 101));
    assert!(!reports_progress(false, 1000));
    assert!(reports_update(true, 101, 0));
    assert!(reports_update(true, 101, 10));
    assert!(reports_update(true, 500, 250));
    assert!(!reports_update(true, 101, 11));
    assert!(!reports_update(true, 100, 10));
    assert!(!reports_update(false, 500, 10));
}

#[test]
fn a_root_that_does_not_exist_is_an_error() {
    let missing = check_root("nowhere", false, false, false).unwrap_err();
    assert_eq!(missing.message, "Path 'nowhere' does not exist");
    let file = check_root("a.txt", true, false, true).unwrap_err();
    assert_eq!(file.message, "Path 'a.txt' is not a directory");
    let closed = check_root("/root", true, true, false).unwrap_err();
    assert_eq!(closed.message, "Cannot access path '/root'");
    assert!(check_root("src", true, true, true).is_ok());
}

#[test]
fn one_path_is_named_and_several_are_counted() {
    assert_eq!(format_paths(&["src".to_string()]), "src");
    assert_eq!(format_paths(&["a".to_string(), "b".to_string()]), "2 directories");
    assert_eq!(format_paths(&[]), "0 directories");
    let many: Vec<String> = (0..12).map(|i| i.to_string()).collect();
    assert_eq!(format_paths(&many), "12 directories");
}
