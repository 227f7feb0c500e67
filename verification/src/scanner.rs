//! The scanner: its configuration, and the filter and summary operations
//! over findings.

use crate::patterns::{
    default_extension_list, default_ignore_list, default_registry, Detector, Pattern,
};
use crate::progress::ProgressReporter;
use vstd::prelude::*;

verus! {

/// Configuration of a scan: the active detectors, the eligible file
/// extensions, the ignored directory names, and the enrichment switches.
pub struct CodeDebtScanner {
    pub patterns: Vec<Pattern>,
    pub file_extensions: Vec<String>,
    pub ignore_dirs: Vec<String>,
    pub enable_git_blame: bool,
    pub detect_duplicates: bool,
    pub progress_reporter: Option<Box<dyn ProgressReporter>>,
}

/// Mathematical model of a scanner's configuration.
pub struct ScanConfig {
    pub registry: Seq<Detector>,
    pub extensions: Seq<Seq<char>>,
    pub ignored: Seq<Seq<char>>,
    pub history: bool,
    pub duplicates: bool,
}

impl View for CodeDebtScanner {
    type V = ScanConfig;

    open spec fn view(&self) -> ScanConfig {
        ScanConfig {
            registry: self.patterns.deep_view(),
            extensions: self.file_extensions.deep_view(),
            ignored: self.ignore_dirs.deep_view(),
            history: self.enable_git_blame,
            duplicates: self.detect_duplicates,
        }
    }
}

/// The configuration that a scanner starts from: the default detectors,
/// extensions and ignored directories, and no enrichment.
pub open spec fn default_config() -> ScanConfig {
    ScanConfig {
        registry: default_registry(),
        extensions: default_extension_list(),
        ignored: default_ignore_list(),
        history: false,
        duplicates: false,
    }
}

impl CodeDebtScanner {
    /// A scanner with the default configuration and without a progress
    /// sink.
    pub fn new() -> (scanner: CodeDebtScanner)
        ensures
            scanner@ == default_config(),
            scanner.progress_reporter is None,
    {
        CodeDebtScanner {
            patterns: Pattern::default_patterns(),
            file_extensions: Pattern::default_file_extensions(),
            ignore_dirs: Pattern::default_ignore_dirs(),
            enable_git_blame: false,
            detect_duplicates: false,
            progress_reporter: None,
        }
    }

    /// Replaces the detectors. An empty list is not installed: the scanner
    /// keeps the detectors it has.
    pub fn with_patterns(self, patterns: Vec<Pattern>) -> (scanner: CodeDebtScanner)
        ensures
            scanner@ == (ScanConfig {
                registry: if patterns.len() == 0 {
                    self@.registry
                } else {
                    patterns.deep_view()
                },
                ..self@
            }),
            scanner.progress_reporter == self.progress_reporter,
    {
        let mut scanner = self;
        if patterns.len() == 0 {
            return scanner;
        }
        scanner.patterns = patterns;
        scanner
    }

    /// Replaces the eligible file extensions.
    pub fn with_file_extensions(self, extensions: Vec<String>) -> (scanner: CodeDebtScanner)
        ensures
            scanner@ == (ScanConfig { extensions: extensions.deep_view(), ..self@ }),
            scanner.progress_reporter == self.progress_reporter,
    {
        let mut scanner = self;
        scanner.file_extensions = extensions;
        scanner
    }

    /// Replaces the ignored directory names.
    pub fn with_ignore_dirs(self, dirs: Vec<String>) -> (scanner: CodeDebtScanner)
        ensures
            scanner@ == (ScanConfig { ignored: dirs.deep_view(), ..self@ }),
            scanner.progress_reporter == self.progress_reporter,
    {
        let mut scanner = self;
        scanner.ignore_dirs = dirs;
        scanner
    }

    /// Switches history enrichment on or off.
    pub fn with_git_blame(self, enable: bool) -> (scanner: CodeDebtScanner)
        ensures
            scanner@ == (ScanConfig { history: enable, ..self@ }),
            scanner.progress_reporter == self.progress_reporter,
    {
        let mut scanner = self;
        scanner.enable_git_blame = enable;
        scanner
    }

    /// Switches duplicate detection on or off.
    pub fn with_duplicate_detection(self, enable: bool) -> (scanner: CodeDebtScanner)
        ensures
            scanner@ == (ScanConfig { duplicates: enable, ..self@ }),
            scanner.progress_reporter == self.progress_reporter,
    {
        let mut scanner = self;
        scanner.detect_duplicates = enable;
        scanner
    }

    /// Installs a progress sink.
    pub fn with_progress_reporter(self, reporter: Box<dyn ProgressReporter>) -> (scanner:
        CodeDebtScanner)
        ensures
            scanner@ == self@,
            scanner.progress_reporter is Some,
    {
        let mut scanner = self;
        scanner.progress_reporter = Some(reporter);
        scanner
    }
}

impl Default for CodeDebtScanner {
    fn default() -> (scanner: CodeDebtScanner)
        ensures
            scanner@ == default_config(),
            scanner.progress_reporter is None,
    {
        CodeDebtScanner::new()
    }
}

} // verus!
