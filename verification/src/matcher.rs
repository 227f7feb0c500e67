//! The line matcher: from a file's text and a registry to the findings in
//! that file.

use crate::models::{CodeDebtItem, Finding};
use crate::patterns::{match_start, Detector, Pattern};
use crate::scanner::CodeDebtScanner;
use crate::text::{
    char_index, chars_before, chars_of, lines_of, split_lines, string_of, texts_of, trim, trimmed,
};
use vstd::prelude::*;

verus! {

/// The column of a match that starts at byte offset `start` of a line: the
/// index of the character at that offset, counted from 1.
pub open spec fn column_at(line: Seq<char>, start: usize) -> nat {
    chars_before(line, start as nat) + 1
}

/// The finding for a detector whose leftmost match in a line starts at byte
/// offset `start`. It reports the line without surrounding white space.
pub open spec fn match_finding(
    path: Seq<char>,
    line_number: nat,
    line: Seq<char>,
    detector: Detector,
    start: usize,
) -> Finding {
    Finding::fresh(
        path,
        line_number,
        column_at(line, start),
        trimmed(line),
        detector.name,
        detector.severity,
    )
}

/// The findings in one line: one for each detector that matches somewhere in
/// the line, in registry order, at its leftmost match.
pub open spec fn line_findings(
    path: Seq<char>,
    line_number: nat,
    line: Seq<char>,
    registry: Seq<Detector>,
) -> Seq<Finding>
    decreases registry.len(),
{
    if registry.len() == 0 {
        Seq::empty()
    } else {
        let earlier = line_findings(path, line_number, line, registry.drop_last());
        match match_start(registry.last().regex, line) {
            Some(start) => earlier.push(
                match_finding(path, line_number, line, registry.last(), start),
            ),
            None => earlier,
        }
    }
}

/// The findings in a list of lines, numbered from 1: those of the first
/// line, then those of the second, and so on.
pub open spec fn content_findings(
    path: Seq<char>,
    lines: Seq<Seq<char>>,
    registry: Seq<Detector>,
) -> Seq<Finding>
    decreases lines.len(),
{
    if lines.len() == 0 {
        Seq::empty()
    } else {
        content_findings(path, lines.drop_last(), registry) + line_findings(
            path,
            lines.len(),
            lines.last(),
            registry,
        )
    }
}

/// The findings in a file's text.
pub open spec fn file_findings(path: Seq<char>, content: Seq<char>, registry: Seq<Detector>) -> Seq<
    Finding,
> {
    content_findings(path, lines_of(content), registry)
}

/// Every finding of a line carries that line's number, a column of at least
/// 1, the trimmed line, and the name and severity of a detector of the
/// registry that matches the line; it has no history and no duplicate
/// count. There is at most one finding per detector.
pub proof fn lemma_line_findings_shape(
    path: Seq<char>,
    line_number: nat,
    line: Seq<char>,
    registry: Seq<Detector>,
)
    ensures
        line_findings(path, line_number, line, registry).len() <= registry.len(),
        forall|k: int|
            0 <= k < line_findings(path, line_number, line, registry).len() ==> {
                let f = #[trigger] line_findings(path, line_number, line, registry)[k];
                &&& f.file_path == path
                &&& f.line_number == line_number
                &&& f.column >= 1
                &&& f.line_content == trimmed(line)
                &&& f.has_no_history()
                &&& f.file_extension is None
                &&& f.duplicate_count == 0
                &&& exists|j: int|
                    0 <= j < registry.len() && match_start(
                        (#[trigger] registry[j]).regex,
                        line,
                    ) is Some && f.pattern_type == registry[j].name && f.severity
                        == registry[j].severity
            },
        (forall|j: int| 0 <= j < registry.len() ==> match_start(
            (#[trigger] registry[j]).regex,
            line,
        ) is None) ==> line_findings(path, line_number, line, registry).len() == 0,
    decreases registry.len(),
{
    if registry.len() > 0 {
        let earlier = registry.drop_last();
        lemma_line_findings_shape(path, line_number, line, earlier);
        let all = line_findings(path, line_number, line, registry);
        let before = line_findings(path, line_number, line, earlier);
        assert forall|k: int| 0 <= k < all.len() implies {
            let f = #[trigger] all[k];
            &&& f.file_path == path
            &&& f.line_number == line_number
            &&& f.column >= 1
            &&& f.line_content == trimmed(line)
            &&& f.has_no_history()
            &&& f.file_extension is None
            &&& f.duplicate_count == 0
            &&& exists|j: int|
                0 <= j < registry.len() && match_start((#[trigger] registry[j]).regex, line)
                    is Some && f.pattern_type == registry[j].name && f.severity
                    == registry[j].severity
        } by {
            let f = all[k];
            if k < before.len() {
                assert(f == before[k]);
                let j = choose|j: int|
                    0 <= j < earlier.len() && match_start((#[trigger] earlier[j]).regex, line)
                        is Some && f.pattern_type == earlier[j].name && f.severity
                        == earlier[j].severity;
                assert(registry[j] == earlier[j]);
            } else {
                assert(registry[registry.len() - 1] == registry.last());
            }
        }
        if forall|j: int|
            0 <= j < registry.len() ==> match_start((#[trigger] registry[j]).regex, line)
                is None {
            assert(registry[registry.len() - 1] == registry.last());
            assert forall|j: int| 0 <= j < earlier.len() implies match_start(
                (#[trigger] earlier[j]).regex,
                line,
            ) is None by {
                assert(earlier[j] == registry[j]);
            }
        }
    }
}

/// The line matcher is a function of the path, the text and the registry:
/// two runs on the same input report the same findings in the same order.
pub proof fn lemma_matcher_deterministic(
    path: Seq<char>,
    content: Seq<char>,
    registry: Seq<Detector>,
    first: Seq<Finding>,
    second: Seq<Finding>,
)
    requires
        first == file_findings(path, content, registry),
        second == file_findings(path, content, registry),
    ensures
        first == second,
{
}

impl Pattern {
    /// The finding for a line in which this detector's leftmost match
    /// starts at byte offset `found`; `None` where nothing was found.
    pub fn finding_at(
        &self,
        file_path: &str,
        line_number: usize,
        line: &str,
        found: Option<usize>,
    ) -> (r: Option<CodeDebtItem>)
        requires
            found matches Some(start) ==> start < usize::MAX,
        ensures
            match found {
                Some(start) => r matches Some(item) && item@ == match_finding(
                    file_path@,
                    line_number as nat,
                    line@,
                    self@,
                    start,
                ),
                None => r is None,
            },
    {
        let chars = chars_of(line);
        let shown = trim(&chars);
        self.report(file_path, line_number, &chars, shown.as_str(), found)
    }

    /// The finding for a line of which the characters and the trimmed text
    /// are at hand.
    fn report(
        &self,
        file_path: &str,
        line_number: usize,
        line: &Vec<char>,
        shown: &str,
        found: Option<usize>,
    ) -> (r: Option<CodeDebtItem>)
        requires
            shown@ == trimmed(line@),
            found matches Some(start) ==> start < usize::MAX,
        ensures
            match found {
                Some(start) => r matches Some(item) && item@ == match_finding(
                    file_path@,
                    line_number as nat,
                    line@,
                    self@,
                    start,
                ),
                None => r is None,
            },
    {
        match found {
            Some(start) => Some(
                CodeDebtItem::new(
                    file_path,
                    line_number,
                    char_index(line, start) + 1,
                    shown,
                    self.name.as_str(),
                    self.severity,
                ),
            ),
            None => None,
        }
    }
}

impl CodeDebtScanner {
    /// The findings in a file's text: for each line, numbered from 1, and each
    /// detector in registry order that matches somewhere in the line, one
    /// finding at the leftmost match.
    pub fn scan_content(file_path: &str, content: &str, patterns: &[Pattern]) -> (items: Vec<
        CodeDebtItem,
    >)
        ensures
            items.deep_view() == file_findings(file_path@, content@, patterns.deep_view()),
    {
        let chars = chars_of(content);
        let lines = split_lines(&chars);
        let ghost texts = texts_of(lines@);
        let ghost registry = patterns.deep_view();
        let mut items: Vec<CodeDebtItem> = Vec::new();
        let mut i: usize = 0;
        proof {
            assert(texts.take(0) =~= Seq::<Seq<char>>::empty());
            assert(items.deep_view() =~= Seq::<Finding>::empty());
        }
        while i < lines.len()
            invariant
                i <= lines.len(),
                texts == texts_of(lines@),
                registry == patterns.deep_view(),
                items.deep_view() == content_findings(file_path@, texts.take(i as int), registry),
            decreases lines.len() - i,
        {
            let line = &lines[i];
            let haystack = string_of(line, 0, line.len());
            let shown = trim(line);
            let ghost before = items.deep_view();
            let mut j: usize = 0;
            proof {
                assert(line@.subrange(0, line@.len() as int) =~= line@);
                assert(registry.take(0) =~= Seq::<Detector>::empty());
                assert(before + Seq::<Finding>::empty() =~= before);
            }
            while j < patterns.len()
                invariant
                    j <= patterns.len(),
                    i < lines.len(),
                    registry == patterns.deep_view(),
                    haystack@ == line@,
                    shown@ == trimmed(line@),
                    items.deep_view() == before + line_findings(
                        file_path@,
                        (i + 1) as nat,
                        line@,
                        registry.take(j as int),
                    ),
                decreases patterns.len() - j,
            {
                let found = patterns[j].find(haystack.as_str());
                let ghost so_far = line_findings(
                    file_path@,
                    (i + 1) as nat,
                    line@,
                    registry.take(j as int),
                );
                proof {
                    assert(registry.take(j + 1).drop_last() =~= registry.take(j as int));
                    assert(registry.take(j + 1).last() == patterns@[j as int]@);
                }
                let ghost prev = items.deep_view();
                match patterns[j].report(file_path, i + 1, line, shown.as_str(), found) {
                    Some(item) => {
                        items.push(item);
                        proof {
                            assert(items.deep_view() =~= prev.push(item@));
                            assert(prev.push(item@) =~= before + so_far.push(item@));
                        }
                    },
                    None => {},
                }
                j += 1;
            }
            proof {
                assert(registry.take(patterns.len() as int) =~= registry);
                assert(texts.take(i + 1).drop_last() =~= texts.take(i as int));
                assert(texts.take(i + 1).last() == line@);
            }
            i += 1;
        }
        proof {
            assert(texts.take(lines.len() as int) =~= texts);
        }
        items
    }
}

} // verus!
