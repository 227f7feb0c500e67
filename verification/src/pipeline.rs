//! The scan pipeline over files held in memory: the check of the root,
//! eligibility, matching, enrichment and the canonical order.

use crate::duplicates::with_duplicate_counts;
use crate::error::{check_root, path_message, path_problem, path_suggestion, CodeDebtError};
use crate::git::{
    answers_of, usable_count, with_history, Blame, BlameInfo, BlameStats, GitAnalyzer,
};
use crate::matcher::file_findings;
use crate::models::{text_of, CodeDebtItem, Finding};
use crate::paths::{
    chars_of_each, extension_of, file_extension, is_eligible, path_has_listed_extension,
    path_passes_through, vcs_directories,
};
use crate::scanner::{CodeDebtScanner, ScanConfig};
use crate::sorting::{
    is_ordered, is_stable_sort, lemma_stable_sort_unique, sort_findings, FindingOrder,
};
use crate::text::chars_of;
use vstd::prelude::*;

verus! {

/// A file as traversal hands it to the scan: its path, relative to the root
/// of the scan, and its text.
#[derive(Debug)]
pub struct SourceFile {
    pub path: String,
    pub content: String,
}

/// Mathematical model of a [`SourceFile`].
pub struct FileText {
    pub path: Seq<char>,
    pub content: Seq<char>,
}

impl View for SourceFile {
    type V = FileText;

    open spec fn view(&self) -> FileText {
        FileText { path: self.path@, content: self.content@ }
    }
}

impl DeepView for SourceFile {
    type V = FileText;

    open spec fn deep_view(&self) -> FileText {
        self@
    }
}

/// The findings of one file under a configuration: those of the line
/// matcher where the file is eligible, none where it is not.
pub open spec fn findings_of_file(config: ScanConfig, file: FileText) -> Seq<Finding> {
    if is_eligible(file.path, config.extensions, config.ignored) {
        file_findings(file.path, file.content, config.registry)
    } else {
        Seq::empty()
    }
}

/// The findings of a list of files, file after file.
pub open spec fn raw_findings(config: ScanConfig, files: Seq<FileText>) -> Seq<Finding>
    decreases files.len(),
{
    if files.len() == 0 {
        Seq::empty()
    } else {
        raw_findings(config, files.drop_last()) + findings_of_file(config, files.last())
    }
}

/// A finding with the extension of its file. A finding whose path has no
/// extension keeps the extension it has.
pub open spec fn with_extension(f: Finding) -> Finding {
    match extension_of(f.file_path) {
        Some(ext) => Finding { file_extension: Some(ext), ..f },
        None => f,
    }
}

/// The findings, each with the extension of its file.
pub open spec fn with_extensions(s: Seq<Finding>) -> Seq<Finding> {
    Seq::new(s.len(), |k: int| with_extension(s[k]))
}

/// Deriving file extensions keeps every finding and touches nothing but the
/// file extension, which is that of the path wherever the path has one.
pub proof fn lemma_extensions_keep_findings(s: Seq<Finding>, k: int)
    requires
        0 <= k < s.len(),
    ensures
        with_extensions(s).len() == s.len(),
        with_extensions(s)[k] == (Finding {
            file_extension: with_extensions(s)[k].file_extension,
            ..s[k]
        }),
        extension_of(s[k].file_path) is Some ==> with_extensions(s)[k].file_extension
            == extension_of(s[k].file_path),
{
}

/// The findings as they stand before they are sorted: with duplicate counts
/// where the configuration asks for them, and with file extensions.
pub open spec fn prepared(config: ScanConfig, s: Seq<Finding>) -> Seq<Finding> {
    with_extensions(
        if config.duplicates {
            with_duplicate_counts(s)
        } else {
            s
        },
    )
}

/// The findings after history enrichment, where the configuration asks for
/// it and there is a history; the findings as they are otherwise.
pub open spec fn with_history_if(
    config: ScanConfig,
    s: Seq<Finding>,
    history: Option<Seq<Option<Blame>>>,
    now: i64,
) -> Seq<Finding> {
    match history {
        Some(answers) => if config.history {
            with_history(s, answers, now)
        } else {
            s
        },
        None => s,
    }
}

/// A scan has one result: two scans of the same files under the same
/// configuration yield the same findings in the same order.
pub proof fn lemma_scan_result_unique(
    config: ScanConfig,
    files: Seq<FileText>,
    first: Seq<Finding>,
    second: Seq<Finding>,
)
    requires
        is_stable_sort(
            FindingOrder::Canonical,
            prepared(config, raw_findings(config, files)),
            first,
        ),
        is_stable_sort(
            FindingOrder::Canonical,
            prepared(config, raw_findings(config, files)),
            second,
        ),
    ensures
        first == second,
{
    lemma_stable_sort_unique(
        FindingOrder::Canonical,
        prepared(config, raw_findings(config, files)),
        first,
        second,
    );
}

impl CodeDebtScanner {
    /// Whether traversal hands the file at `path` to the line matcher. The
    /// path is taken relative to the root of the scan.
    pub fn is_eligible(&self, path: &str) -> (r: bool)
        ensures
            r == is_eligible(path@, self@.extensions, self@.ignored),
    {
        let listed: bool = path_has_listed_extension(path, &self.file_extensions);
        if !listed {
            return false;
        }
        let chars = chars_of(path);
        let ignored = chars_of_each(&self.ignore_dirs);
        if path_passes_through(&chars, &ignored) {
            return false;
        }
        let mut vcs: Vec<String> = Vec::new();
        vcs.push(".git".to_owned());
        vcs.push(".hg".to_owned());
        vcs.push(".svn".to_owned());
        assert(vcs.deep_view() =~= vcs_directories());
        let vcs_chars = chars_of_each(&vcs);
        !path_passes_through(&chars, &vcs_chars)
    }

    /// Writes onto each finding the extension of its file. A finding whose
    /// path has no extension is left as it is.
    pub fn add_file_extensions(&self, items: &mut Vec<CodeDebtItem>)
        ensures
            final(items).deep_view() == with_extensions(old(items).deep_view()),
    {
        let n: usize = items.len();
        let ghost input = items.deep_view();
        let mut i: usize = 0;
        while i < n
            invariant
                i <= n == items.len(),
                input.len() == n,
                forall|k: int| 0 <= k < i ==> (#[trigger] items@[k])@ == with_extension(input[k]),
                forall|k: int| i <= k < n ==> (#[trigger] items@[k])@ == input[k],
            decreases n - i,
        {
            match file_extension(items[i].file_path.as_str()) {
                Some(ext) => {
                    items[i].file_extension = Some(ext);
                },
                None => {},
            }
            i += 1;
        }
        proof {
            assert(items.deep_view() =~= with_extensions(input));
        }
    }

    /// The matching stage: the findings of the eligible files, file after
    /// file. The progress sink, if there is one, is told the number of
    /// eligible files, then of each one done, then of the end.
    pub fn match_files(&self, files: &[SourceFile]) -> (items: Vec<CodeDebtItem>)
        ensures
            items.deep_view() == raw_findings(self@, files.deep_view()),
    {
        let ghost all = files.deep_view();
        let mut eligible: Vec<bool> = Vec::new();
        let mut total: usize = 0;
        let mut i: usize = 0;
        while i < files.len()
            invariant
                i <= files.len(),
                eligible.len() == i,
                total <= i,
                all == files.deep_view(),
                forall|k: int|
                    0 <= k < i ==> #[trigger] eligible@[k] == is_eligible(
                        all[k].path,
                        self@.extensions,
                        self@.ignored,
                    ),
            decreases files.len() - i,
        {
            let ok = self.is_eligible(files[i].path.as_str());
            if ok {
                total += 1;
            }
            eligible.push(ok);
            i += 1;
        }
        match &self.progress_reporter {
            Some(reporter) => reporter.start(total),
            None => {},
        }
        let mut items: Vec<CodeDebtItem> = Vec::new();
        let mut done: usize = 0;
        let mut i: usize = 0;
        proof {
            assert(all.take(0) =~= Seq::<FileText>::empty());
            assert(items.deep_view() =~= Seq::<Finding>::empty());
        }
        while i < files.len()
            invariant
                i <= files.len(),
                eligible.len() == files.len(),
                done <= i,
                all == files.deep_view(),
                forall|k: int|
                    0 <= k < files.len() ==> #[trigger] eligible@[k] == is_eligible(
                        all[k].path,
                        self@.extensions,
                        self@.ignored,
                    ),
                items.deep_view() == raw_findings(self@, all.take(i as int)),
            decreases files.len() - i,
        {
            let ghost before = items.deep_view();
            proof {
                assert(all.take(i + 1).drop_last() =~= all.take(i as int));
                assert(all.take(i + 1).last() == files@[i as int]@);
            }
            if eligible[i] {
                let mut found = CodeDebtScanner::scan_content(
                    files[i].path.as_str(),
                    files[i].content.as_str(),
                    self.patterns.as_slice(),
                );
                let ghost added = found.deep_view();
                items.append(&mut found);
                proof {
                    assert(items.deep_view() =~= before + added);
                }
                done += 1;
                match &self.progress_reporter {
                    Some(reporter) => reporter.update(done),
                    None => {},
                }
            } else {
                proof {
                    assert(before + Seq::<Finding>::empty() =~= before);
                }
            }
            i += 1;
        }
        match &self.progress_reporter {
            Some(reporter) => reporter.finish(),
            None => {},
        }
        proof {
            assert(all.take(files.len() as int) =~= all);
        }
        items
    }

    /// The stage after matching and history enrichment: duplicate counts
    /// where they are switched on, file extensions, and the canonical order,
    /// most severe first, then by file path, then by line number. The sort
    /// is stable.
    pub fn aggregate(&self, items: Vec<CodeDebtItem>) -> (result: Vec<CodeDebtItem>)
        ensures
            is_stable_sort(
                FindingOrder::Canonical,
                prepared(self@, items.deep_view()),
                result.deep_view(),
            ),
            is_ordered(FindingOrder::Canonical, result.deep_view()),
            result.len() == items.len(),
    {
        let mut items = items;
        if self.detect_duplicates {
            self.detect_duplicate_patterns(&mut items);
        }
        self.add_file_extensions(&mut items);
        sort_findings(FindingOrder::Canonical, &items)
    }

    /// Completes a scan from the findings of the matching stage: history
    /// enrichment by the answers in `history`, where it is switched on and a
    /// history is at hand, then the stage of [`CodeDebtScanner::aggregate`].
    /// `now` is the current instant in seconds since the Unix epoch.
    pub fn complete(
        &self,
        items: Vec<CodeDebtItem>,
        history: Option<&Vec<Option<BlameInfo>>>,
        now: i64,
    ) -> (result: (Vec<CodeDebtItem>, BlameStats))
        ensures
            is_stable_sort(
                FindingOrder::Canonical,
                prepared(
                    self@,
                    with_history_if(
                        self@,
                        items.deep_view(),
                        match history {
                            Some(lookups) => Some(answers_of(lookups@)),
                            None => None,
                        },
                        now,
                    ),
                ),
                result.0.deep_view(),
            ),
            is_ordered(FindingOrder::Canonical, result.0.deep_view()),
            result.0.len() == items.len(),
            result.1.successes + result.1.errors == (if self.enable_git_blame && history is Some {
                items.len()
            } else {
                0
            }),
            result.1.successes == (match history {
                Some(lookups) => if self.enable_git_blame {
                    usable_count(answers_of(lookups@), items.len() as nat)
                } else {
                    0
                },
                None => 0,
            }),
    {
        let mut items = items;
        let stats = if self.enable_git_blame {
            GitAnalyzer::add_git_information(history, now, &mut items)
        } else {
            BlameStats { successes: 0, errors: 0 }
        };
        (self.aggregate(items), stats)
    }

    /// Scans files held in memory: the findings of the eligible files, with
    /// duplicate counts where they are switched on and with file
    /// extensions, in the canonical order. History is not consulted.
    pub fn scan(&self, files: &[SourceFile]) -> (result: Vec<CodeDebtItem>)
        ensures
            is_stable_sort(
                FindingOrder::Canonical,
                prepared(self@, raw_findings(self@, files.deep_view())),
                result.deep_view(),
            ),
            is_ordered(FindingOrder::Canonical, result.deep_view()),
            result.len() == raw_findings(self@, files.deep_view()).len(),
    {
        self.aggregate(self.match_files(files))
    }

    /// Scans what traversal found under a root, or refuses the root.
    /// `exists`, `is_dir` and `readable` are what the file system says of the
    /// root; `files` are the files below it. A root that does not exist, is
    /// no directory or cannot be read is an error, whatever the files; any
    /// other root yields the findings of [`CodeDebtScanner::scan`], which
    /// are none for a directory without files.
    pub fn scan_root(
        &self,
        root: &str,
        exists: bool,
        is_dir: bool,
        readable: bool,
        files: &[SourceFile],
    ) -> (result: Result<Vec<CodeDebtItem>, CodeDebtError>)
        ensures
            result is Ok <==> exists && is_dir && readable,
            result matches Ok(items) ==> {
                &&& is_stable_sort(
                    FindingOrder::Canonical,
                    prepared(self@, raw_findings(self@, files.deep_view())),
                    items.deep_view(),
                )
                &&& is_ordered(FindingOrder::Canonical, items.deep_view())
                &&& files.len() == 0 ==> items.len() == 0
            },
            result matches Err(error) ==> {
                &&& error.message@ == path_message(root@, path_problem(exists, is_dir))
                &&& text_of(error.suggestion) == Some(
                    path_suggestion(path_problem(exists, is_dir)),
                )
            },
    {
        match check_root(root, exists, is_dir, readable) {
            Ok(()) => Ok(self.scan(files)),
            Err(error) => Err(error),
        }
    }
}

} // verus!
