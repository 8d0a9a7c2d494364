//! Progress snapshots and aggregate outcome types of a batch processing run.
//!
//! Percentages and rates are measured in hundredths of a percent, so 10000
//! stands for 100%; durations are measured in milliseconds.

use vstd::prelude::*;

verus! {

/// `processed` out of `total` as hundredths of a percent, 0 when `total` is 0.
pub open spec fn spec_percentage(processed: int, total: int) -> int {
    if total == 0 {
        0
    } else {
        processed * 10000 / total
    }
}

/// A snapshot of how far a batch run has come: the totals, the file just
/// handled, and the completed share in hundredths of a percent.
#[derive(Debug, Clone)]
pub struct ProcessingProgress {
    pub total_files: usize,
    pub processed_files: usize,
    pub current_file: String,
    pub percentage: u32,
}

impl ProcessingProgress {
    /// A fresh snapshot: nothing processed, no current file, 0%.
    pub fn new(total_files: usize) -> (p: ProcessingProgress)
        ensures
            p.total_files == total_files,
            p.processed_files == 0,
            p.current_file@.len() == 0,
            p.percentage == 0,
    {
        ProcessingProgress {
            total_files,
            processed_files: 0,
            current_file: String::new(),
            percentage: 0,
        }
    }

    /// Moves the snapshot forward: records the processed count and current
    /// file, and recomputes the percentage from the totals.
    pub fn update(&mut self, processed_files: usize, current_file: String)
        requires
            processed_files <= old(self).total_files,
        ensures
            final(self).total_files == old(self).total_files,
            final(self).processed_files == processed_files,
            final(self).current_file == current_file,
            final(self).percentage == spec_percentage(
                processed_files as int,
                old(self).total_files as int,
            ),
    {
        self.processed_files = processed_files;
        self.current_file = current_file;
        if self.total_files > 0 {
            let scaled: u128 = (self.processed_files as u128) * 10000u128 / (
            self.total_files as u128);
            proof {
                assert((processed_files as int) * 10000 / (self.total_files as int) <= 10000)
                    by (nonlinear_arith)
                    requires
                        0 < self.total_files,
                        processed_files <= self.total_files,
                ;
            }
            self.percentage = scaled as u32;
        } else {
            self.percentage = 0;
        }
    }

    /// Whether the run this snapshot describes has finished.
    pub fn is_complete(&self) -> (r: bool)
        ensures
            r == (self.processed_files >= self.total_files),
    {
        self.processed_files >= self.total_files
    }
}

impl Default for ProcessingProgress {
    /// An empty snapshot over zero files.
    fn default() -> (p: ProcessingProgress)
        ensures
            p.total_files == 0,
            p.processed_files == 0,
            p.current_file@.len() == 0,
            p.percentage == 0,
    {
        ProcessingProgress {
            total_files: 0,
            processed_files: 0,
            current_file: String::new(),
            percentage: 0,
        }
    }
}

/// One per-file failure: the file and what went wrong.
#[derive(Debug, Clone)]
pub struct ProcessingError {
    pub file: String,
    pub error_message: String,
}

impl ProcessingError {
    /// Builds a failure record from its parts.
    pub fn new(file: String, error_message: String) -> (e: ProcessingError)
        ensures
            e.file == file,
            e.error_message == error_message,
    {
        ProcessingError { file, error_message }
    }
}

/// The outcome of one batch run: how many files there were, how many
/// succeeded and failed, the failures themselves, and the duration in
/// milliseconds.
#[derive(Debug, Clone)]
pub struct ProcessingResult {
    pub total_files: usize,
    pub successful: usize,
    pub failed: usize,
    pub errors: Vec<ProcessingError>,
    pub duration: u64,
}

impl ProcessingResult {
    /// A fresh outcome over the given number of files.
    pub fn new(total_files: usize) -> (r: ProcessingResult)
        ensures
            r.total_files == total_files,
            r.successful == 0,
            r.failed == 0,
            r.errors@.len() == 0,
            r.duration == 0,
    {
        ProcessingResult { total_files, successful: 0, failed: 0, errors: Vec::new(), duration: 0 }
    }

    /// Records one success.
    pub fn add_success(&mut self)
        requires
            old(self).successful < usize::MAX,
        ensures
            *final(self) == (ProcessingResult {
                successful: (old(self).successful + 1) as usize,
                ..*old(self)
            }),
    {
        self.successful = self.successful + 1;
    }

    /// Records one failure together with its error.
    pub fn add_failure(&mut self, error: ProcessingError)
        requires
            old(self).failed < usize::MAX,
        ensures
            final(self).total_files == old(self).total_files,
            final(self).successful == old(self).successful,
            final(self).failed == old(self).failed + 1,
            final(self).errors@ == old(self).errors@.push(error),
            final(self).duration == old(self).duration,
    {
        self.failed = self.failed + 1;
        self.errors.push(error);
    }

    /// Sets the run's duration in milliseconds.
    pub fn set_duration(&mut self, duration: u64)
        ensures
            *final(self) == (ProcessingResult { duration, ..*old(self) }),
    {
        self.duration = duration;
    }

    /// Whether any failure was recorded.
    pub fn has_errors(&self) -> (r: bool)
        ensures
            r == (self.errors@.len() > 0),
    {
        self.errors.len() > 0
    }

    /// The share of files that succeeded, in hundredths of a percent;
    /// 0 when the run had no files.
    pub fn success_rate(&self) -> (r: u32)
        requires
            self.successful <= self.total_files,
        ensures
            r == spec_percentage(self.successful as int, self.total_files as int),
    {
        if self.total_files > 0 {
            let scaled: u128 = (self.successful as u128) * 10000u128 / (self.total_files as u128);
            proof {
                assert((self.successful as int) * 10000 / (self.total_files as int) <= 10000)
                    by (nonlinear_arith)
                    requires
                        0 < self.total_files,
                        self.successful <= self.total_files,
                ;
            }
            scaled as u32
        } else {
            0
        }
    }
}

/// Aggregate counters of one batch run, immutable once returned: how many
/// files were processed, how many succeeded and failed, and the total
/// duration in milliseconds.
#[derive(Debug, Clone)]
pub struct ProcessingStats {
    pub files_processed: usize,
    pub files_succeeded: usize,
    pub files_failed: usize,
    pub total_duration: u64,
}

impl ProcessingStats {
    /// Zeroed counters.
    pub fn new() -> (s: ProcessingStats)
        ensures
            s.files_processed == 0,
            s.files_succeeded == 0,
            s.files_failed == 0,
            s.total_duration == 0,
    {
        ProcessingStats {
            files_processed: 0,
            files_succeeded: 0,
            files_failed: 0,
            total_duration: 0,
        }
    }

    /// Counts one finished file: the processed counter always moves, and the
    /// reported outcome moves exactly the matching counter.
    pub fn record_outcome(&mut self, succeeded: bool)
        requires
            old(self).files_processed < usize::MAX,
            old(self).files_succeeded < usize::MAX,
            old(self).files_failed < usize::MAX,
        ensures
            final(self).files_processed == old(self).files_processed + 1,
            succeeded ==> final(self).files_succeeded == old(self).files_succeeded + 1
                && final(self).files_failed == old(self).files_failed,
            !succeeded ==> final(self).files_failed == old(self).files_failed + 1
                && final(self).files_succeeded == old(self).files_succeeded,
            final(self).total_duration == old(self).total_duration,
    {
        if succeeded {
            self.files_succeeded = self.files_succeeded + 1;
        } else {
            self.files_failed = self.files_failed + 1;
        }
        self.files_processed = self.files_processed + 1;
    }

    /// The counters of a detailed outcome: its totals and duration.
    pub fn from_result(result: &ProcessingResult) -> (s: ProcessingStats)
        ensures
            s.files_processed == result.total_files,
            s.files_succeeded == result.successful,
            s.files_failed == result.failed,
            s.total_duration == result.duration,
    {
        ProcessingStats {
            files_processed: result.total_files,
            files_succeeded: result.successful,
            files_failed: result.failed,
            total_duration: result.duration,
        }
    }
}

impl Default for ProcessingStats {
    /// Zeroed counters.
    fn default() -> (s: ProcessingStats)
        ensures
            s.files_processed == 0,
            s.files_succeeded == 0,
            s.files_failed == 0,
            s.total_duration == 0,
    {
        ProcessingStats::new()
    }
}

} // verus!
