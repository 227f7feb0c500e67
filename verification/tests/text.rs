use codedebt::paths::{file_extension, path_has_listed_extension, text_is_listed};
use codedebt::text::{
    char_index, chars_of, compare_text, trim_flagged, width_of, slice_of, split_lines, split_list, string_of, trim, TextOrder,
};

fn chars(s: &str) -> Vec<char> {
    s.chars().collect()
}

fn lines(s: &str) -> Vec<String> {
    split_lines(&chars(s)).iter().map(|l| l.iter().collect()).collect()
}

#[test]
fn chars_and_strings_convert_both_ways() {
    assert_eq!(chars_of("héllo"), vec!['h', 'é', 'l', 'l', 'o']);
    assert_eq!(chars_of(""), Vec::<char>::new());
    let v = chars("héllo wörld");
    assert_eq!(string_of(&v, 0, v.len()), "héllo wörld");
    assert_eq!(string_of(&v, 6, 11), "wörld");
    assert_eq!(string_of(&v, 3, 3), "");
}

#[test]
fn trim_removes_white_space_at_both_ends_only() {
    assert_eq!(trim(&chars("  a b  ")), "a b");
    assert_eq!(trim(&chars("\t\r\n x\u{a0}")), "x");
    assert_eq!(trim(&chars("x")), "x");
    assert_eq!(trim(&chars("")), "");
    assert_eq!(trim(&chars(" \t ")), "");
    assert_eq!(trim(&chars("\u{2028}a\u{3000}")), "a");
    // A zero-width space is no white space.
    assert_eq!(trim(&chars("\u{200b}a")), "\u{200b}a");
}

#[test]
fn trim_agrees_with_the_standard_library() {
    for s in ["", " ", "a", " a", "a ", "  a  b  ", "\n\ta\u{85}", "\u{1680}x\u{205f}", "é \u{feff}"] {
        assert_eq!(trim(&chars(s)), s.trim());
    }
}

#[test]
fn lines_split_like_the_standard_library() {
    assert_eq!(lines(""), Vec::<String>::new());
    assert_eq!(lines("a"), vec!["a"]);
    assert_eq!(lines("a\n"), vec!["a"]);
    assert_eq!(lines("a\nb"), vec!["a", "b"]);
    assert_eq!(lines("a\r\nb\r\n"), vec!["a", "b"]);
    assert_eq!(lines("\n"), vec![""]);
    assert_eq!(lines("\n\n"), vec!["", ""]);
    assert_eq!(lines("a\n\nb"), vec!["a", "", "b"]);
    // A carriage return ends a line only together with a line feed.
    assert_eq!(lines("a\rb\n"), vec!["a\rb"]);
    assert_eq!(lines("a\r"), vec!["a\r"]);
    assert_eq!(lines("a\r\r\n"), vec!["a\r"]);
    for s in ["foo\nbar\n\r\nbaz\r", "x\n\ny\r\n", "\r\n\r\n", "no newline", "\r"] {
        let expected: Vec<String> = s.lines().map(|l| l.to_string()).collect();
        assert_eq!(lines(s), expected);
    }
}

#[test]
fn texts_compare_by_code_point() {
    let order = |a: &str, b: &str| compare_text(&chars(a), &chars(b));
    assert_eq!(order("", ""), TextOrder::Same);
    assert_eq!(order("", "a"), TextOrder::Before);
    assert_eq!(order("a", ""), TextOrder::After);
    assert_eq!(order("abc", "abc"), TextOrder::Same);
    assert_eq!(order("abc", "abd"), TextOrder::Before);
    assert_eq!(order("abd", "abc"), TextOrder::After);
    assert_eq!(order("ab", "abc"), TextOrder::Before);
    assert_eq!(order("Z", "a"), TextOrder::Before);
    assert_eq!(order("z", "é"), TextOrder::Before);
    assert_eq!(order("\u{ffff}", "\u{10000}"), TextOrder::Before);
}

#[test]
fn extension_is_what_follows_the_last_dot_of_the_file_name() {
    assert_eq!(file_extension("test.rs").as_deref(), Some("rs"));
    assert_eq!(file_extension("src/deep/test.py").as_deref(), Some("py"));
    assert_eq!(file_extension("archive.tar.gz").as_deref(), Some("gz"));
    assert_eq!(file_extension("README"), None);
    assert_eq!(file_extension(".gitignore"), None);
    assert_eq!(file_extension("dir/.gitignore"), None);
    assert_eq!(file_extension(".hidden.rs").as_deref(), Some("rs"));
    assert_eq!(file_extension("dir.d/file"), None);
    assert_eq!(file_extension("name.").as_deref(), Some(""));
    assert_eq!(file_extension(""), None);
    assert_eq!(file_extension("."), None);
    assert_eq!(file_extension(".."), None);
    assert_eq!(file_extension("a/.."), None);
    assert_eq!(file_extension("...").as_deref(), Some(""));
    assert_eq!(file_extension("dir/"), None);
    assert_eq!(file_extension("/abs/path/x.RS").as_deref(), Some("RS"));
}

#[test]
fn listed_texts_are_found_exactly() {
    let list = vec!["rs".to_string(), "py".to_string(), "".to_string()];
    assert!(text_is_listed(&list, &"rs".to_string()));
    assert!(text_is_listed(&list, &"".to_string()));
    assert!(!text_is_listed(&list, &"r".to_string()));
    assert!(!text_is_listed(&list, &"RS".to_string()));
    assert!(!text_is_listed(&Vec::new(), &"rs".to_string()));
    assert!(path_has_listed_extension("a/b.py", &list));
    assert!(path_has_listed_extension("trailing.", &list));
    assert!(!path_has_listed_extension("a/b.go", &list));
    assert!(!path_has_listed_extension("noext", &list));
}

#[test]
fn lists_split_at_the_separator_and_values_are_trimmed() {
    assert_eq!(split_list("rs,py", ','), vec!["rs", "py"]);
    assert_eq!(split_list(" rs , py,go ", ','), vec!["rs", "py", "go"]);
    assert_eq!(split_list("rs", ','), vec!["rs"]);
    assert_eq!(split_list("", ','), vec![""]);
    assert_eq!(split_list(",", ','), vec!["", ""]);
    assert_eq!(split_list("a,,b,", ','), vec!["a", "", "b", ""]);
    assert_eq!(split_list("a b;c,d", ';'), vec!["a b", "c,d"]);
    for list in ["x, y ,z", " ", ",,", "node_modules, target"] {
        let expected: Vec<String> = list.split(',').map(|s| s.trim().to_string()).collect();
        assert_eq!(split_list(list, ','), expected);
    }
}

#[test]
fn slices_copy_a_range_of_characters() {
    let v = chars("abcdef");
    assert_eq!(slice_of(&v, 1, 4), vec!['b', 'c', 'd']);
    assert_eq!(slice_of(&v, 0, 6), v);
    assert_eq!(slice_of(&v, 6, 6), Vec::<char>::new());
}

#[test]
fn byte_offsets_turn_into_character_indices() {
    assert_eq!(width_of('a'), 1);
    assert_eq!(width_of('\u{7f}'), 1);
    assert_eq!(width_of('\u{80}'), 2);
    assert_eq!(width_of('\u{7ff}'), 2);
    assert_eq!(width_of('\u{800}'), 3);
    assert_eq!(width_of('\u{ffff}'), 3);
    assert_eq!(width_of('\u{10000}'), 4);
    assert_eq!(width_of('\u{10ffff}'), 4);
    for c in ['x', 'é', '€', '😀'] {
        assert_eq!(width_of(c), c.len_utf8());
    }

    let line = chars("aé€😀z");
    // Offsets at which the characters start: 0, 1, 3, 6, 10; the text ends at 11.
    assert_eq!(char_index(&line, 0), 0);
    assert_eq!(char_index(&line, 1), 1);
    assert_eq!(char_index(&line, 3), 2);
    assert_eq!(char_index(&line, 6), 3);
    assert_eq!(char_index(&line, 10), 4);
    assert_eq!(char_index(&line, 11), 5);
    // Inside a character, and beyond the end.
    assert_eq!(char_index(&line, 2), 1);
    assert_eq!(char_index(&line, 9), 3);
    assert_eq!(char_index(&line, 500), 5);
    assert_eq!(char_index(&Vec::new(), 3), 0);
    let text = "aé€😀z";
    for (index, (offset, _)) in text.char_indices().enumerate() {
        assert_eq!(char_index(&line, offset), index);
    }
}

#[test]
fn flagged_characters_are_dropped_at_both_ends_only() {
    let line = chars("__a_b__");
    let flags: Vec<bool> = line.iter().map(|c| *c == '_').collect();
    assert_eq!(trim_flagged(&line, &flags), "a_b");
    assert_eq!(trim_flagged(&chars("ab"), &[false, false].to_vec()), "ab");
    assert_eq!(trim_flagged(&chars("ab"), &[true, false].to_vec()), "b");
    assert_eq!(trim_flagged(&chars("ab"), &[false, true].to_vec()), "a");
    assert_eq!(trim_flagged(&chars("ab"), &[true, true].to_vec()), "");
    assert_eq!(trim_flagged(&chars("abc"), &[false, true, false].to_vec()), "abc");
    assert_eq!(trim_flagged(&Vec::new(), &Vec::new()), "");
}
