//! Progress reporting: the sink that a scan may notify, and the rule by
//! which a terminal reporter decides what to show.

use vstd::prelude::*;

verus! {

/// A sink for the progress of a scan. A scan calls `start` once with the
/// number of files, `update` with the number of files done so far, and
/// `finish` once at the end. What a sink does with the calls has no bearing
/// on the findings.
pub trait ProgressReporter: Send + Sync {
    fn start(&self, total: usize);

    fn update(&self, current: usize);

    fn finish(&self);
}

/// The number of files above which a terminal reporter shows progress.
pub const PROGRESS_MINIMUM: usize = 100;

/// A terminal reporter shows every update whose count of files is a
/// multiple of this number.
pub const PROGRESS_STEP: usize = 10;

/// Whether a terminal reporter shows the progress of a scan over `total`
/// files: it was asked to, and there are more files than the minimum.
pub open spec fn shows_progress(enabled: bool, total: nat) -> bool {
    enabled && total > PROGRESS_MINIMUM
}

/// Whether a terminal reporter shows the update after `current` files.
pub open spec fn shows_update(enabled: bool, total: nat, current: nat) -> bool {
    shows_progress(enabled, total) && current % (PROGRESS_STEP as nat) == 0
}

/// Whether a terminal reporter shows the progress of a scan.
pub fn reports_progress(enabled: bool, total: usize) -> (r: bool)
    ensures
        r == shows_progress(enabled, total as nat),
{
    enabled && total > PROGRESS_MINIMUM
}

/// Whether a terminal reporter shows the update after `current` files.
pub fn reports_update(enabled: bool, total: usize, current: usize) -> (r: bool)
    ensures
        r == shows_update(enabled, total as nat, current as nat),
{
    reports_progress(enabled, total) && current % PROGRESS_STEP == 0
}

} // verus!
