//! The decisions of watch mode: which changes call for a new scan, and when
//! the scan is run.

use crate::paths::{has_listed_extension, path_has_listed_extension};
use crate::scanner::CodeDebtScanner;
use vstd::prelude::*;

verus! {

/// The kind of a change that the file system reports.
#[derive(Clone, Copy, Debug, PartialEq, Eq, Structural)]
pub enum ChangeKind {
    Create,
    Modify,
    Remove,
    Access,
    Other,
}

impl ChangeKind {
    /// Whether a change of this kind alters what a scan would read.
    pub open spec fn spec_alters_content(&self) -> bool {
        *self == ChangeKind::Create || *self == ChangeKind::Modify || *self == ChangeKind::Remove
    }

    #[verifier::when_used_as_spec(spec_alters_content)]
    pub fn alters_content(&self) -> (r: bool)
        ensures
            r == self.spec_alters_content(),
    {
        match self {
            ChangeKind::Create => true,
            ChangeKind::Modify => true,
            ChangeKind::Remove => true,
            ChangeKind::Access => false,
            ChangeKind::Other => false,
        }
    }
}

/// The time without changes, in milliseconds, after which a pending scan is
/// run.
pub const DEBOUNCE_MILLIS: u64 = 300;

/// What the watch loop hears while it waits.
#[derive(Debug)]
pub enum WatchEvent {
    /// The file system reported a change to the given paths.
    Changed { kind: ChangeKind, paths: Vec<String> },
    /// The file system reported an error.
    Failed,
    /// Nothing was reported for the length of the debounce time; the last
    /// scan ended the given number of milliseconds ago.
    Quiet { since_last_scan: u64 },
    /// The source of reports is gone.
    Closed,
}

/// What the watch loop is to do next.
#[derive(Clone, Copy, Debug, PartialEq, Eq, Structural)]
pub enum WatchAction {
    /// Go on waiting.
    Wait,
    /// Report the error and go on waiting.
    ReportError,
    /// Scan again, then go on waiting.
    Rescan,
    /// Leave the loop.
    Stop,
}

/// Whether one of the paths names a file with a listed extension.
pub open spec fn any_listed(paths: Seq<Seq<char>>, extensions: Seq<Seq<char>>) -> bool {
    exists|k: int| 0 <= k < paths.len() && #[trigger] has_listed_extension(paths[k], extensions)
}

/// Whether a change calls for a new scan: it alters content, and one of
/// its paths names a file with an eligible extension.
pub open spec fn calls_for_rescan(
    kind: ChangeKind,
    paths: Seq<Seq<char>>,
    extensions: Seq<Seq<char>>,
) -> bool {
    kind.spec_alters_content() && any_listed(paths, extensions)
}

/// Whether a scan is pending after an event.
pub open spec fn pending_after(
    pending: bool,
    event: WatchEvent,
    extensions: Seq<Seq<char>>,
) -> bool {
    match event {
        WatchEvent::Changed { kind, paths } => pending || calls_for_rescan(
            kind,
            paths.deep_view(),
            extensions,
        ),
        WatchEvent::Quiet { since_last_scan } => pending && since_last_scan < DEBOUNCE_MILLIS,
        WatchEvent::Failed => pending,
        WatchEvent::Closed => pending,
    }
}

/// What the loop does after an event: a quiet spell runs the pending scan
/// once the last scan lies at least the debounce time back.
pub open spec fn action_after(pending: bool, event: WatchEvent) -> WatchAction {
    match event {
        WatchEvent::Changed { kind, paths } => WatchAction::Wait,
        WatchEvent::Quiet { since_last_scan } => if pending && since_last_scan >= DEBOUNCE_MILLIS {
            WatchAction::Rescan
        } else {
            WatchAction::Wait
        },
        WatchEvent::Failed => WatchAction::ReportError,
        WatchEvent::Closed => WatchAction::Stop,
    }
}

/// Watch mode over a scanner and the paths it scans.
pub struct CodeDebtWatcher {
    pub scanner: CodeDebtScanner,
    pub paths: Vec<String>,
    pub pending_rescan: bool,
}

impl CodeDebtWatcher {
    /// A watcher over the given paths, with no scan pending.
    pub fn new(scanner: CodeDebtScanner, paths: Vec<String>) -> (watcher: CodeDebtWatcher)
        ensures
            watcher.scanner == scanner,
            watcher.paths == paths,
            !watcher.pending_rescan,
    {
        CodeDebtWatcher { scanner, paths, pending_rescan: false }
    }

    /// Whether a change calls for a new scan.
    pub fn should_rescan(&self, kind: ChangeKind, paths: &[String]) -> (r: bool)
        ensures
            r == calls_for_rescan(kind, paths.deep_view(), self.scanner@.extensions),
    {
        if !kind.alters_content() {
            return false;
        }
        let ghost all = paths.deep_view();
        let ghost extensions = self.scanner@.extensions;
        let mut i: usize = 0;
        while i < paths.len()
            invariant
                i <= paths.len(),
                kind.spec_alters_content(),
                all == paths.deep_view(),
                extensions == self.scanner@.extensions,
                forall|k: int| 0 <= k < i ==> !#[trigger] has_listed_extension(all[k], extensions),
            decreases paths.len() - i,
        {
            if path_has_listed_extension(paths[i].as_str(), &self.scanner.file_extensions) {
                assert(has_listed_extension(all[i as int], extensions));
                return true;
            }
            i += 1;
        }
        false
    }

    /// Takes note of an event and says what the loop is to do next.
    pub fn step(&mut self, event: &WatchEvent) -> (action: WatchAction)
        ensures
            action == action_after(old(self).pending_rescan, *event),
            final(self).pending_rescan == pending_after(
                old(self).pending_rescan,
                *event,
                old(self).scanner@.extensions,
            ),
            final(self).scanner == old(self).scanner,
            final(self).paths == old(self).paths,
    {
        match event {
            WatchEvent::Changed { kind, paths } => {
                if self.should_rescan(*kind, paths.as_slice()) {
                    self.pending_rescan = true;
                }
                WatchAction::Wait
            },
            WatchEvent::Failed => WatchAction::ReportError,
            WatchEvent::Quiet { since_last_scan } => {
                if self.pending_rescan && *since_last_scan >= DEBOUNCE_MILLIS {
                    self.pending_rescan = false;
                    WatchAction::Rescan
                } else {
                    WatchAction::Wait
                }
            },
            WatchEvent::Closed => WatchAction::Stop,
        }
    }
}

} // verus!
