//! What the reports say of a finding: numbers in decimal, the phrase for an
//! age, and the comma-separated record.

use crate::models::{CodeDebtItem, Finding};
use crate::severity::Severity;
use crate::text::chars_of;
use vstd::prelude::*;
use vstd::string::StringExecFns;

verus! {

/// The character of a decimal digit.
pub open spec fn digit(d: int) -> char {
    if d == 0 {
        '0'
    } else if d == 1 {
        '1'
    } else if d == 2 {
        '2'
    } else if d == 3 {
        '3'
    } else if d == 4 {
        '4'
    } else if d == 5 {
        '5'
    } else if d == 6 {
        '6'
    } else if d == 7 {
        '7'
    } else if d == 8 {
        '8'
    } else {
        '9'
    }
}

/// The decimal digits of a natural number, without leading zeros.
pub open spec fn digits(n: nat) -> Seq<char>
    decreases n,
{
    if n < 10 {
        seq![digit(n as int)]
    } else {
        digits(n / 10).push(digit((n % 10) as int))
    }
}

/// An integer in decimal, with a minus sign where it is negative.
pub open spec fn decimal(n: int) -> Seq<char> {
    if n < 0 {
        seq!['-'] + digits((-n) as nat)
    } else {
        digits(n as nat)
    }
}

/// The character of a decimal digit.
fn digit_char(d: u8) -> (c: char)
    requires
        d < 10,
    ensures
        c == digit(d as int),
{
    if d == 0 {
        '0'
    } else if d == 1 {
        '1'
    } else if d == 2 {
        '2'
    } else if d == 3 {
        '3'
    } else if d == 4 {
        '4'
    } else if d == 5 {
        '5'
    } else if d == 6 {
        '6'
    } else if d == 7 {
        '7'
    } else if d == 8 {
        '8'
    } else {
        '9'
    }
}

/// Appends the decimal digits of a number to a text.
fn push_digits(text: &mut String, n: u128)
    ensures
        final(text)@ == old(text)@ + digits(n as nat),
    decreases n,
{
    if n >= 10 {
        push_digits(text, n / 10);
    }
    text.push(digit_char((n % 10) as u8));
    proof {
        if n >= 10 {
            assert(text@ =~= old(text)@ + digits((n / 10) as nat).push(digit((n % 10) as int)));
        } else {
            assert(text@ =~= old(text)@ + seq![digit(n as int)]);
        }
    }
}

/// Appends an integer in decimal to a text.
pub fn push_decimal(text: &mut String, n: i128)
    requires
        n > i128::MIN,
    ensures
        final(text)@ == old(text)@ + decimal(n as int),
{
    if n < 0 {
        text.push('-');
        push_digits(text, (0 - n) as u128);
        assert(text@ =~= old(text)@ + decimal(n as int));
    } else {
        push_digits(text, n as u128);
    }
}

/// An integer in decimal.
pub fn decimal_text(n: i64) -> (text: String)
    ensures
        text@ == decimal(n as int),
{
    let mut text = String::new();
    push_decimal(&mut text, n as i128);
    assert(text@ =~= decimal(n as int));
    text
}

/// How a report words the age of a line: `today`, `1 day ago`, a number of
/// days up to 29, then whole months of 30 days, and from 365 days on whole
/// years of 365 days.
pub open spec fn age_phrase(days: int) -> Seq<char> {
    if days == 0 {
        "today"@
    } else if days == 1 {
        "1 day ago"@
    } else if days < 30 {
        decimal(days) + " days ago"@
    } else if days < 365 {
        decimal(days / 30) + " months ago"@
    } else {
        decimal(days / 365) + " years ago"@
    }
}

/// The phrase for the age of a line.
pub fn describe_age(days: i64) -> (phrase: String)
    ensures
        phrase@ == age_phrase(days as int),
{
    if days == 0 {
        "today".to_owned()
    } else if days == 1 {
        "1 day ago".to_owned()
    } else if days < 30 {
        let mut phrase = decimal_text(days);
        phrase.append(" days ago");
        phrase
    } else if days < 365 {
        let mut phrase = decimal_text(days / 30);
        phrase.append(" months ago");
        phrase
    } else {
        let mut phrase = decimal_text(days / 365);
        phrase.append(" years ago");
        phrase
    }
}

/// The name of a severity as a record shows it.
pub open spec fn severity_name(severity: Severity) -> Seq<char> {
    match severity {
        Severity::Critical => "Critical"@,
        Severity::High => "High"@,
        Severity::Medium => "Medium"@,
        Severity::Low => "Low"@,
    }
}

/// The label of a severity as the list of findings shows it.
pub open spec fn severity_label(severity: Severity) -> Seq<char> {
    match severity {
        Severity::Critical => "CRITICAL"@,
        Severity::High => "HIGH"@,
        Severity::Medium => "MEDIUM"@,
        Severity::Low => "LOW"@,
    }
}

impl Severity {
    /// The name of the level.
    pub fn name(&self) -> (name: &'static str)
        ensures
            name@ == severity_name(*self),
    {
        match self {
            Severity::Critical => "Critical",
            Severity::High => "High",
            Severity::Medium => "Medium",
            Severity::Low => "Low",
        }
    }

    /// The label of the level in capitals.
    pub fn label(&self) -> (label: &'static str)
        ensures
            label@ == severity_label(*self),
    {
        match self {
            Severity::Critical => "CRITICAL",
            Severity::High => "HIGH",
            Severity::Medium => "MEDIUM",
            Severity::Low => "LOW",
        }
    }
}

/// A text with each double quote doubled, as it stands between the quotes
/// of a record's field.
pub open spec fn quotes_doubled(s: Seq<char>) -> Seq<char>
    decreases s.len(),
{
    if s.len() == 0 {
        Seq::empty()
    } else if s.last() == '"' {
        quotes_doubled(s.drop_last()).push('"').push('"')
    } else {
        quotes_doubled(s.drop_last()).push(s.last())
    }
}

/// Appends a text to another, each double quote doubled.
pub fn push_quotes_doubled(text: &mut String, s: &str)
    ensures
        final(text)@ == old(text)@ + quotes_doubled(s@),
{
    let chars = chars_of(s);
    let mut i: usize = 0;
    proof {
        assert(chars@.take(0) =~= Seq::<char>::empty());
        assert(text@ =~= old(text)@ + quotes_doubled(chars@.take(0)));
    }
    while i < chars.len()
        invariant
            i <= chars.len(),
            text@ == old(text)@ + quotes_doubled(chars@.take(i as int)),
        decreases chars.len() - i,
    {
        let ghost before = text@;
        proof {
            assert(chars@.take(i + 1).drop_last() =~= chars@.take(i as int));
            assert(chars@.take(i + 1).last() == chars@[i as int]);
        }
        if chars[i] == '"' {
            text.push('"');
            text.push('"');
            assert(text@ =~= old(text)@ + quotes_doubled(chars@.take(i + 1)));
        } else {
            text.push(chars[i]);
            assert(text@ =~= old(text)@ + quotes_doubled(chars@.take(i + 1)));
        }
        i += 1;
    }
    proof {
        assert(chars@.take(chars.len() as int) =~= chars@);
    }
}

/// The first line of the comma-separated report: the names of the fields.
pub open spec fn csv_header_text() -> Seq<char> {
    "file_path,line_number,column,severity,pattern_type,line_content,author,age_days,duplicate_count"@
}

/// The record of a finding in the comma-separated report: path, line,
/// column, severity and detector as they are; the line and the author
/// between double quotes, the quotes of the line doubled; the age in days,
/// or -1 where it is unknown; and the duplicate count.
pub open spec fn csv_record(f: Finding) -> Seq<char> {
    f.file_path + ","@ + decimal(f.line_number as int) + ","@ + decimal(f.column as int) + ","@
        + severity_name(f.severity) + ","@ + f.pattern_type + ",\""@ + quotes_doubled(
        f.line_content,
    ) + "\",\""@ + (match f.author {
        Some(author) => author,
        None => Seq::empty(),
    }) + "\","@ + decimal(
        match f.age_days {
            Some(days) => days,
            None => -1,
        },
    ) + ","@ + decimal(f.duplicate_count as int)
}

/// The first line of the comma-separated report.
pub fn csv_header() -> (header: &'static str)
    ensures
        header@ == csv_header_text(),
{
    "file_path,line_number,column,severity,pattern_type,line_content,author,age_days,duplicate_count"
}

/// The record of a finding in the comma-separated report.
pub fn csv_row(item: &CodeDebtItem) -> (row: String)
    ensures
        row@ == csv_record(item@),
{
    let ghost f = item@;
    let mut row = item.file_path.clone();
    row.append(",");
    push_decimal(&mut row, item.line_number as i128);
    row.append(",");
    push_decimal(&mut row, item.column as i128);
    row.append(",");
    row.append(item.severity.name());
    row.append(",");
    row.append(item.pattern_type.as_str());
    row.append(",\"");
    push_quotes_doubled(&mut row, item.line_content.as_str());
    row.append("\",\"");
    match &item.author {
        Some(author) => row.append(author.as_str()),
        None => {
            assert(row@ + Seq::<char>::empty() =~= row@);
        },
    }
    row.append("\",");
    let age: i64 = match item.age_days {
        Some(days) => days,
        None => -1,
    };
    push_decimal(&mut row, age as i128);
    row.append(",");
    push_decimal(&mut row, item.duplicate_count as i128);
    row
}

/// How a report names what was scanned: the path where there is one, the
/// number of directories otherwise.
pub open spec fn scanned_phrase(paths: Seq<Seq<char>>) -> Seq<char> {
    if paths.len() == 1 {
        paths[0]
    } else {
        decimal(paths.len() as int) + " directories"@
    }
}

/// The name of what was scanned.
pub fn format_paths(paths: &[String]) -> (phrase: String)
    ensures
        phrase@ == scanned_phrase(paths.deep_view()),
{
    if paths.len() == 1 {
        paths[0].clone()
    } else {
        let mut phrase = String::new();
        push_decimal(&mut phrase, paths.len() as i128);
        phrase.append(" directories");
        assert(phrase@ =~= scanned_phrase(paths.deep_view()));
        phrase
    }
}

/// Whether a path argument is a glob pattern: it holds `*`, `?` or `[`.
pub open spec fn is_glob(pattern: Seq<char>) -> bool {
    pattern.contains('*') || pattern.contains('?') || pattern.contains('[')
}

/// Whether a path argument is a glob pattern.
pub fn is_glob_pattern(pattern: &str) -> (r: bool)
    ensures
        r == is_glob(pattern@),
{
    let chars = chars_of(pattern);
    let mut i: usize = 0;
    while i < chars.len()
        invariant
            i <= chars.len(),
            chars@ == pattern@,
            forall|k: int|
                0 <= k < i ==> chars@[k] != '*' && chars@[k] != '?' && #[trigger] chars@[k] != '[',
        decreases chars.len() - i,
    {
        if chars[i] == '*' || chars[i] == '?' || chars[i] == '[' {
            assert(pattern@.contains(pattern@[i as int]));
            return true;
        }
        i += 1;
    }
    false
}

} // verus!
