//! The finding record and its mathematical model.

pub use crate::severity::Severity;
use vstd::prelude::*;

verus! {

/// One detected debt marker, as the scan reports it.
///
/// `created_at` holds the commit time as seconds since the Unix epoch.
#[derive(Debug)]
pub struct CodeDebtItem {
    pub file_path: String,
    pub line_number: usize,
    pub column: usize,
    pub line_content: String,
    pub pattern_type: String,
    pub severity: Severity,
    pub author: Option<String>,
    pub age_days: Option<i64>,
    pub commit_hash: Option<String>,
    pub created_at: Option<i64>,
    pub file_extension: Option<String>,
    pub duplicate_count: usize,
}

/// Mathematical model of a [`CodeDebtItem`]: text as sequences of
/// characters, numbers as unbounded integers.
pub struct Finding {
    pub file_path: Seq<char>,
    pub line_number: nat,
    pub column: nat,
    pub line_content: Seq<char>,
    pub pattern_type: Seq<char>,
    pub severity: Severity,
    pub author: Option<Seq<char>>,
    pub age_days: Option<int>,
    pub commit_hash: Option<Seq<char>>,
    pub created_at: Option<int>,
    pub file_extension: Option<Seq<char>>,
    pub duplicate_count: nat,
}

/// Model of an optional piece of text.
pub open spec fn text_of(s: Option<String>) -> Option<Seq<char>> {
    match s {
        Some(t) => Some(t@),
        None => None,
    }
}

/// Model of an optional signed number.
pub open spec fn number_of(n: Option<i64>) -> Option<int> {
    match n {
        Some(v) => Some(v as int),
        None => None,
    }
}

impl Finding {
    /// The finding that the line matcher reports for a match: position and
    /// detector are set, nothing is known of the line's history yet, and no
    /// duplicates were counted.
    pub open spec fn fresh(
        file_path: Seq<char>,
        line_number: nat,
        column: nat,
        line_content: Seq<char>,
        pattern_type: Seq<char>,
        severity: Severity,
    ) -> Finding {
        Finding {
            file_path,
            line_number,
            column,
            line_content,
            pattern_type,
            severity,
            author: None,
            age_days: None,
            commit_hash: None,
            created_at: None,
            file_extension: None,
            duplicate_count: 0,
        }
    }

    /// Whether none of the history fields is set.
    pub open spec fn has_no_history(self) -> bool {
        &&& self.author is None
        &&& self.age_days is None
        &&& self.commit_hash is None
        &&& self.created_at is None
    }
}

impl View for CodeDebtItem {
    type V = Finding;

    open spec fn view(&self) -> Finding {
        Finding {
            file_path: self.file_path@,
            line_number: self.line_number as nat,
            column: self.column as nat,
            line_content: self.line_content@,
            pattern_type: self.pattern_type@,
            severity: self.severity,
            author: text_of(self.author),
            age_days: number_of(self.age_days),
            commit_hash: text_of(self.commit_hash),
            created_at: number_of(self.created_at),
            file_extension: text_of(self.file_extension),
            duplicate_count: self.duplicate_count as nat,
        }
    }
}

impl DeepView for CodeDebtItem {
    type V = Finding;

    open spec fn deep_view(&self) -> Finding {
        self@
    }
}

/// A copy of an optional piece of text.
pub fn copy_text(s: &Option<String>) -> (r: Option<String>)
    ensures
        r == *s,
{
    match s {
        Some(t) => Some(t.clone()),
        None => None,
    }
}

impl Clone for CodeDebtItem {
    fn clone(&self) -> (r: CodeDebtItem)
        ensures
            r == *self,
    {
        CodeDebtItem {
            file_path: self.file_path.clone(),
            line_number: self.line_number,
            column: self.column,
            line_content: self.line_content.clone(),
            pattern_type: self.pattern_type.clone(),
            severity: self.severity,
            author: copy_text(&self.author),
            age_days: self.age_days,
            commit_hash: copy_text(&self.commit_hash),
            created_at: self.created_at,
            file_extension: copy_text(&self.file_extension),
            duplicate_count: self.duplicate_count,
        }
    }
}

impl CodeDebtItem {
    /// A finding as the line matcher reports it, without history, file
    /// extension or duplicate count.
    pub fn new(
        file_path: &str,
        line_number: usize,
        column: usize,
        line_content: &str,
        pattern_type: &str,
        severity: Severity,
    ) -> (item: CodeDebtItem)
        ensures
            item@ == Finding::fresh(
                file_path@,
                line_number as nat,
                column as nat,
                line_content@,
                pattern_type@,
                severity,
            ),
    {
        CodeDebtItem {
            file_path: file_path.to_owned(),
            line_number,
            column,
            line_content: line_content.to_owned(),
            pattern_type: pattern_type.to_owned(),
            severity,
            author: None,
            age_days: None,
            commit_hash: None,
            created_at: None,
            file_extension: None,
            duplicate_count: 0,
        }
    }
}

} // verus!
