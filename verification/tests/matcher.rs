use codedebt::{CodeDebtItem, CodeDebtScanner, Pattern, Severity};
use regex::Regex;

fn names(items: &[CodeDebtItem]) -> Vec<&str> {
    items.iter().map(|i| i.pattern_type.as_str()).collect()
}

#[test]
fn single_todo_line_yields_one_medium_finding_on_line_one() {
    let patterns = Pattern::default_patterns();
    let items = CodeDebtScanner::scan_content("a.rs", "// TODO: implement this function", &patterns);
    assert_eq!(items.len(), 1);
    assert_eq!(items[0].pattern_type, "TODO");
    assert_eq!(items[0].severity, Severity::Medium);
    assert_eq!(items[0].line_number, 1);
    assert_eq!(items[0].column, 4);
    assert_eq!(items[0].file_path, "a.rs");
    assert_eq!(items[0].line_content, "// TODO: implement this function");
    assert_eq!(items[0].author, None);
    assert_eq!(items[0].age_days, None);
    assert_eq!(items[0].commit_hash, None);
    assert_eq!(items[0].created_at, None);
    assert_eq!(items[0].file_extension, None);
    assert_eq!(items[0].duplicate_count, 0);
}

#[test]
fn hack_and_xxx_are_both_critical_hack_findings() {
    let patterns = Pattern::default_patterns();
    let items = CodeDebtScanner::scan_content("a.rs", "// HACK: workaround\n// XXX fix", &patterns);
    assert_eq!(items.len(), 2);
    for item in &items {
        assert_eq!(item.pattern_type, "HACK");
        assert_eq!(item.severity, Severity::Critical);
    }
    assert_eq!(items[0].line_number, 1);
    assert_eq!(items[1].line_number, 2);
}

#[test]
fn placeholder_for_production_matches_two_detectors_in_registry_order() {
    let patterns = Pattern::default_patterns();
    let line = "const API_KEY = \"placeholder for production\";";
    let items = CodeDebtScanner::scan_content("a.js", line, &patterns);
    assert_eq!(names(&items), vec!["TEMPORARY", "PRODUCTION_DEBT"]);
    assert_eq!(items[0].severity, Severity::High);
    assert_eq!(items[1].severity, Severity::Critical);
    assert_eq!(items[0].line_number, 1);
    assert_eq!(items[1].line_number, 1);
    assert_eq!(items[0].column, 18);
    assert_eq!(items[1].column, 18);
}

#[test]
fn default_registry_is_ordered_and_complete() {
    let patterns = Pattern::default_patterns();
    let listed: Vec<(&str, Severity)> =
        patterns.iter().map(|p| (p.name.as_str(), p.severity)).collect();
    assert_eq!(
        listed,
        vec![
            ("HACK", Severity::Critical),
            ("FIXME", Severity::High),
            ("TODO", Severity::Medium),
            ("NOTE_FIX", Severity::Medium),
            ("TEMPORARY", Severity::High),
            ("MOCK_STUB", Severity::Low),
            ("PRODUCTION_DEBT", Severity::Critical),
        ]
    );
    assert_eq!(patterns[0].regex.as_str(), r"(?i)\b(HACK|XXX)\b");
    assert_eq!(patterns[3].regex.as_str(), r"(?i)\bNOTE\b.*\bfix\b");
    assert_eq!(
        patterns[6].regex.as_str(),
        r"(?i)\b(temporary|placeholder|mock)\b.*\bproduction\b"
    );
}

#[test]
fn matching_is_whole_word() {
    let patterns = Pattern::default_patterns();
    assert!(CodeDebtScanner::scan_content("a.rs", "let todos = mastodon();", &patterns).is_empty());
    assert!(CodeDebtScanner::scan_content("a.rs", "let hacker = 1;", &patterns).is_empty());
    assert_eq!(CodeDebtScanner::scan_content("a.rs", "x(); // stub", &patterns).len(), 1);
}

#[test]
fn the_compound_detector_matches_whole_words_only() {
    let patterns = Pattern::default_patterns();
    // Neither "mock" nor "production" stands as a word of its own here.
    assert!(CodeDebtScanner::scan_content("a.rs", "// mockup of reproduction steps", &patterns)
        .is_empty());
    assert!(CodeDebtScanner::scan_content("a.rs", "// placeholders in production", &patterns)
        .is_empty());
    // One word of the two is whole, the other is not.
    let half = CodeDebtScanner::scan_content("a.rs", "// mock of reproduction steps", &patterns);
    assert_eq!(names(&half), vec!["MOCK_STUB"]);
    let other = CodeDebtScanner::scan_content("a.rs", "// mockup of production", &patterns);
    assert!(other.is_empty());
    // Both words whole, in this order, in any case.
    let both = CodeDebtScanner::scan_content("a.rs", "// Mock the PRODUCTION server", &patterns);
    assert_eq!(names(&both), vec!["MOCK_STUB", "PRODUCTION_DEBT"]);
    assert_eq!(both[1].severity, Severity::Critical);
    assert_eq!(both[1].column, 4);
    let reversed = CodeDebtScanner::scan_content("a.rs", "// production has a canary", &patterns);
    assert!(reversed.is_empty());
}

#[test]
fn the_note_detector_matches_whole_words_only() {
    let patterns = Pattern::default_patterns();
    assert!(CodeDebtScanner::scan_content("a.rs", "// NOTES on the prefix", &patterns).is_empty());
    assert!(CodeDebtScanner::scan_content("a.rs", "// NOTE: a bugfix", &patterns).is_empty());
    assert!(CodeDebtScanner::scan_content("a.rs", "// footnote: fix it", &patterns).is_empty());
    assert!(CodeDebtScanner::scan_content("a.rs", "// fix this, note", &patterns).is_empty());
    let found = CodeDebtScanner::scan_content("a.rs", "  // note: please Fix", &patterns);
    assert_eq!(names(&found), vec!["NOTE_FIX"]);
    assert_eq!(found[0].column, 6);
    assert_eq!(found[0].severity, Severity::Medium);
}

#[test]
fn note_fix_and_mock_stub_detectors() {
    let patterns = Pattern::default_patterns();
    let items = CodeDebtScanner::scan_content("a.rs", "// NOTE: needs a fix\nlet m = mock();", &patterns);
    assert_eq!(names(&items), vec!["NOTE_FIX", "MOCK_STUB"]);
    assert_eq!(items[0].severity, Severity::Medium);
    assert_eq!(items[1].severity, Severity::Low);
    assert_eq!(items[1].line_number, 2);
}

#[test]
fn column_is_the_index_of_the_first_character_of_the_match() {
    let patterns = Pattern::default_patterns();
    let items = CodeDebtScanner::scan_content("a.rs", "    x = 1; // FIXME later", &patterns);
    assert_eq!(items.len(), 1);
    assert_eq!(items[0].column, 15);
    // The line is reported without the surrounding white space.
    assert_eq!(items[0].line_content, "x = 1; // FIXME later");

    // Characters are counted, not bytes: the accented letter is one character.
    let other = CodeDebtScanner::scan_content("a.rs", "é = 1 TODO", &patterns);
    assert_eq!(other[0].column, 7);
    let wide = CodeDebtScanner::scan_content("a.rs", "\u{20ac}\u{1f600}\u{7f}\u{7ff} TODO", &patterns);
    assert_eq!(wide[0].column, 6);
    let first = CodeDebtScanner::scan_content("a.rs", "TODO", &patterns);
    assert_eq!(first[0].column, 1);
}

#[test]
fn lines_end_at_line_feeds_with_or_without_carriage_return() {
    let patterns = Pattern::default_patterns();
    let content = "TODO one\r\n\r\nnothing\nTODO four\n";
    let items = CodeDebtScanner::scan_content("a.rs", content, &patterns);
    assert_eq!(items.len(), 2);
    assert_eq!(items[0].line_number, 1);
    assert_eq!(items[0].line_content, "TODO one");
    assert_eq!(items[1].line_number, 4);
    assert_eq!(items[1].line_content, "TODO four");
}

#[test]
fn empty_content_and_empty_registry_yield_nothing() {
    let patterns = Pattern::default_patterns();
    assert!(CodeDebtScanner::scan_content("a.rs", "", &patterns).is_empty());
    assert!(CodeDebtScanner::scan_content("a.rs", "\n\n\n", &patterns).is_empty());
    assert!(CodeDebtScanner::scan_content("a.rs", "// TODO", &[]).is_empty());
}

#[test]
fn matcher_is_deterministic() {
    let patterns = Pattern::default_patterns();
    let content = "// TODO a\n// FIXME b\n// temporary mock for production\n";
    let first = CodeDebtScanner::scan_content("a.rs", content, &patterns);
    let second = CodeDebtScanner::scan_content("a.rs", content, &patterns);
    assert_eq!(first.len(), second.len());
    for (a, b) in first.iter().zip(second.iter()) {
        assert_eq!(a.pattern_type, b.pattern_type);
        assert_eq!(a.line_number, b.line_number);
        assert_eq!(a.column, b.column);
        assert_eq!(a.line_content, b.line_content);
        assert_eq!(a.severity, b.severity);
    }
    assert_eq!(names(&first), vec!["TODO", "FIXME", "TEMPORARY", "MOCK_STUB", "PRODUCTION_DEBT"]);
}

#[test]
fn pattern_new_compiles_or_refuses() {
    let urgent = Pattern::new("URGENT", r"(?i)\bURGENT\b", Severity::Critical).unwrap();
    assert_eq!(urgent.name, "URGENT");
    assert_eq!(urgent.severity, Severity::Critical);
    assert_eq!(urgent.find("this is urgent"), Some(8));
    assert_eq!(urgent.find("nothing here"), None);
    assert!(Pattern::new("BROKEN", "(unclosed", Severity::Low).is_none());
}

#[test]
fn pattern_from_compiled_and_finding_at() {
    let re = Regex::new("x+").unwrap();
    let p = Pattern::from_compiled("X", Some(re), Severity::Low).unwrap();
    assert!(Pattern::from_compiled("X", None, Severity::Low).is_none());
    let item = p.finding_at("f.rs", 7, "  \u{e9} xx ", Some(5)).unwrap();
    assert_eq!(item.file_path, "f.rs");
    assert_eq!(item.line_number, 7);
    assert_eq!(item.column, 5);
    assert_eq!(item.line_content, "\u{e9} xx");
    assert_eq!(item.pattern_type, "X");
    assert_eq!(item.severity, Severity::Low);
    assert_eq!(p.finding_at("f.rs", 7, "abc", Some(0)).unwrap().column, 1);
    assert_eq!(p.finding_at("f.rs", 7, "abc", Some(3)).unwrap().column, 4);
    assert!(p.finding_at("f.rs", 7, "  \u{e9} xx ", None).is_none());
}

#[test]
fn cloned_pattern_matches_like_its_source() {
    let p = Pattern::new("URGENT", r"(?i)\bURGENT\b", Severity::Critical).unwrap();
    let q = p.clone();
    assert_eq!(q.name, "URGENT");
    assert_eq!(q.severity, Severity::Critical);
    assert_eq!(q.find("  urgent!"), p.find("  urgent!"));
    assert_eq!(q.find("  urgent!"), Some(2));
    assert_eq!(q.regex.as_str(), p.regex.as_str());
}

#[test]
fn custom_registry_replaces_the_default_and_an_empty_one_is_refused() {
    let custom = vec![Pattern::new("URGENT", r"(?i)\bURGENT\b", Severity::Critical).unwrap()];
    let scanner = CodeDebtScanner::new().with_patterns(custom);
    let items = CodeDebtScanner::scan_content("a.rs", "// TODO urgent", &scanner.patterns);
    assert_eq!(names(&items), vec!["URGENT"]);

    let kept = scanner.with_patterns(Vec::new());
    assert_eq!(kept.patterns.len(), 1);
    assert_eq!(kept.patterns[0].name, "URGENT");

    let defaults = CodeDebtScanner::new().with_patterns(Vec::new());
    assert_eq!(defaults.patterns.len(), 7);
}
