//! The batch processing pipeline: discovery of eligible workbook files,
//! the sequential driver, and the bounded-concurrency coordinator.
//!
//! The pipeline is agnostic to what a per-file transformation does: a caller
//! supplies a [`BatchWorker`], whose methods perform the outside work (loading
//! a file, transforming it, writing the output, delivering progress) and
//! report back plain values. Whatever those methods return, the driver's
//! accounting holds: every eligible file gets exactly one recorded outcome,
//! a reported success moves exactly the success counter and anything else
//! exactly the failure counter, and a file found cancelled before it starts
//! is recorded as a failure, so the processed count always reaches the
//! total.

use vstd::prelude::*;

use crate::progress::ProcessingProgress;
use crate::progress::ProcessingStats;
use crate::progress::spec_percentage;
use crate::text::lemma_str_le_total;
use crate::text::lemma_str_le_trans;
use crate::text::spec_str_le;
use crate::text::str_le;

verus! {

broadcast use vstd::seq_lib::group_to_multiset_ensures, vstd::multiset::group_multiset_axioms;

/// The name of a workbook file the pipeline considers eligible: at least one
/// character, then the suffix `.xlsx` in any ASCII case.
pub open spec fn spec_is_xlsx_name(s: Seq<char>) -> bool {
    &&& s.len() >= 6
    &&& s[s.len() - 5] == '.'
    &&& (s[s.len() - 4] == 'x' || s[s.len() - 4] == 'X')
    &&& (s[s.len() - 3] == 'l' || s[s.len() - 3] == 'L')
    &&& (s[s.len() - 2] == 's' || s[s.len() - 2] == 'S')
    &&& (s[s.len() - 1] == 'x' || s[s.len() - 1] == 'X')
}

/// Decides [`spec_is_xlsx_name`] on a concrete file name.
pub fn is_xlsx_name(name: &str) -> (r: bool)
    ensures
        r == spec_is_xlsx_name(name@),
{
    let n = name.unicode_len();
    if n < 6 {
        return false;
    }
    let dot = name.get_char(n - 5);
    let c1 = name.get_char(n - 4);
    let c2 = name.get_char(n - 3);
    let c3 = name.get_char(n - 2);
    let c4 = name.get_char(n - 1);
    dot == '.' && (c1 == 'x' || c1 == 'X') && (c2 == 'l' || c2 == 'L') && (c3 == 's' || c3 == 'S')
        && (c4 == 'x' || c4 == 'X')
}

/// The texts of a list of file names.
pub open spec fn views_of(s: Seq<String>) -> Seq<Seq<char>> {
    Seq::new(s.len(), |i: int| s[i]@)
}

/// The names are in non-decreasing lexicographic order.
pub open spec fn names_sorted(s: Seq<String>) -> bool {
    forall|i: int, j: int|
        0 <= i < j < s.len() ==> spec_str_le((#[trigger] s[i])@, (#[trigger] s[j])@)
}

/// A list of file names counts as eligible-and-sorted discovery output for
/// `entries` when it is sorted and holds exactly the eligible entries.
pub open spec fn is_discovery_of(files: Seq<String>, entries: Seq<String>) -> bool {
    &&& names_sorted(files)
    &&& views_of(files).to_multiset() == views_of(entries).filter(
        |v: Seq<char>| spec_is_xlsx_name(v),
    ).to_multiset()
}

/// One file's recorded outcome in a sequential run: the file, and whether
/// its transformation reported success.
#[derive(Debug, Clone)]
pub struct FileOutcome {
    pub file_name: String,
    pub succeeded: bool,
}

/// How many of the recorded outcomes report success.
pub open spec fn spec_count_succeeded(outcomes: Seq<FileOutcome>) -> nat
    decreases outcomes.len(),
{
    if outcomes.len() == 0 {
        0
    } else {
        spec_count_succeeded(outcomes.drop_last()) + (if outcomes.last().succeeded {
            1nat
        } else {
            0nat
        })
    }
}

/// What one sequential run reports: the aggregate counters, every progress
/// snapshot that was emitted, and each file's recorded outcome in processing
/// order. The counters are proved to count the outcome flags, so a success
/// moves exactly the success counter and a failure exactly the failure
/// counter.
#[derive(Debug)]
pub struct BatchReport {
    pub stats: ProcessingStats,
    pub progress_trace: Vec<ProcessingProgress>,
    pub file_outcomes: Vec<FileOutcome>,
}

/// Orchestrates a batch run over a directory listing. The outside work —
/// reading the directory, loading, transforming and writing each file,
/// delivering progress — is the caller's, through a [`BatchWorker`].
pub struct DataEngine;

/// The caller-supplied port of the pipeline: the per-file transformation,
/// the cooperative cancellation signal, and the progress sink. The pipeline
/// assumes nothing about what these methods return or do.
pub trait BatchWorker {
    /// Whether the shared cancellation signal has been set.
    fn is_cancelled(&mut self) -> bool;

    /// Loads, transforms and writes one file; true on success.
    fn process_file(&mut self, file_name: &String) -> bool;

    /// Receives one progress snapshot; expected to be cheap.
    fn on_progress(&mut self, progress: &ProcessingProgress);
}

impl DataEngine {
    /// Keeps the eligible workbook names of a directory listing, in their
    /// original order.
    #[verifier::loop_isolation(false)]
    fn filter_xlsx_names(entries: &Vec<String>) -> (r: Vec<String>)
        ensures
            views_of(r@) == views_of(entries@).filter(|v: Seq<char>| spec_is_xlsx_name(v)),
    {
        let n = entries.len();
        let mut r: Vec<String> = Vec::new();
        let mut i: usize = 0;
        proof {
            assert(views_of(entries@.subrange(0, 0)) =~= Seq::<Seq<char>>::empty());
            assert(views_of(r@) =~= views_of(entries@.subrange(0, 0)).filter(
                |v: Seq<char>| spec_is_xlsx_name(v),
            ));
        }
        while i < n
            invariant
                i <= n,
                views_of(r@) == views_of(entries@.subrange(0, i as int)).filter(
                    |v: Seq<char>| spec_is_xlsx_name(v),
                ),
            decreases n - i,
        {
            let ghost pre = views_of(entries@.subrange(0, i as int));
            let ghost post = views_of(entries@.subrange(0, i as int + 1));
            proof {
                assert(post.drop_last() =~= pre);
                assert(post.last() == entries@[i as int]@);
                reveal_with_fuel(Seq::filter, 2);
            }
            if is_xlsx_name(entries[i].as_str()) {
                let ghost old_r = r@;
                r.push(entries[i].clone());
                proof {
                    assert(views_of(r@) =~= views_of(old_r).push(entries@[i as int]@));
                    assert(post.filter(|v: Seq<char>| spec_is_xlsx_name(v)) =~= pre.filter(
                        |v: Seq<char>| spec_is_xlsx_name(v),
                    ).push(entries@[i as int]@));
                }
            } else {
                proof {
                    assert(post.filter(|v: Seq<char>| spec_is_xlsx_name(v)) =~= pre.filter(
                        |v: Seq<char>| spec_is_xlsx_name(v),
                    ));
                }
            }
            i += 1;
        }
        proof {
            assert(entries@.subrange(0, n as int) =~= entries@);
        }
        r
    }

    /// Sorts file names lexicographically: the result is sorted and holds
    /// exactly the given names.
    #[verifier::loop_isolation(false)]
    fn sort_file_names(names: Vec<String>) -> (r: Vec<String>)
        ensures
            names_sorted(r@),
            views_of(r@).to_multiset() == views_of(names@).to_multiset(),
    {
        let ghost orig = names@;
        let mut remaining = names;
        let mut out: Vec<String> = Vec::new();
        proof {
            assert(views_of(out@) =~= Seq::<Seq<char>>::empty());
            assert(views_of(out@).to_multiset().add(views_of(remaining@).to_multiset()) =~= views_of(
                orig,
            ).to_multiset());
        }
        while remaining.len() > 0
            invariant
                names_sorted(out@),
                forall|i: int, j: int|
                    0 <= i < out@.len() && 0 <= j < remaining@.len() ==> spec_str_le(
                        (#[trigger] out@[i])@,
                        (#[trigger] remaining@[j])@,
                    ),
                views_of(out@).to_multiset().add(views_of(remaining@).to_multiset()) == views_of(
                    orig,
                ).to_multiset(),
            decreases remaining@.len(),
        {
            let len = remaining.len();
            let mut m: usize = 0;
            let mut j: usize = 1;
            proof {
                lemma_str_le_total(remaining@[0]@, remaining@[0]@);
            }
            while j < len
                invariant
                    m < j <= len,
                    len == remaining@.len(),
                    forall|k: int|
                        0 <= k < j ==> spec_str_le(
                            remaining@[m as int]@,
                            (#[trigger] remaining@[k])@,
                        ),
                decreases len - j,
            {
                if !str_le(remaining[m].as_str(), remaining[j].as_str()) {
                    proof {
                        lemma_str_le_total(remaining@[m as int]@, remaining@[j as int]@);
                        assert forall|k: int|
                            0 <= k < j + 1 implies spec_str_le(
                            remaining@[j as int]@,
                            (#[trigger] remaining@[k])@,
                        ) by {
                            if k < j {
                                lemma_str_le_trans(
                                    remaining@[j as int]@,
                                    remaining@[m as int]@,
                                    remaining@[k]@,
                                );
                            } else {
                                lemma_str_le_total(remaining@[j as int]@, remaining@[j as int]@);
                            }
                        }
                    }
                    m = j;
                }
                j += 1;
            }
            let ghost rem0 = remaining@;
            let ghost out0 = out@;
            let value = remaining.remove(m);
            proof {
                assert(views_of(remaining@) =~= views_of(rem0).remove(m as int));
                assert(views_of(rem0)[m as int] == value@);
                assert(views_of(rem0).remove(m as int).to_multiset() =~= views_of(
                    rem0,
                ).to_multiset().remove(value@));
                assert(views_of(rem0).contains(value@)) by {
                    assert(views_of(rem0)[m as int] == value@);
                }
                assert(views_of(rem0).to_multiset().count(value@) > 0);
            }
            out.push(value);
            proof {
                assert(views_of(out@) =~= views_of(out0).push(value@));
                assert(views_of(out@).to_multiset() =~= views_of(out0).to_multiset().insert(
                    value@,
                ));
                assert(views_of(out@).to_multiset().add(views_of(remaining@).to_multiset())
                    =~= views_of(orig).to_multiset()) by {
                    assert forall|x: Seq<char>|
                        views_of(out@).to_multiset().add(
                            views_of(remaining@).to_multiset(),
                        ).count(x) == views_of(orig).to_multiset().count(x) by {
                        assert(views_of(out@).to_multiset().count(x) == views_of(
                            out0,
                        ).to_multiset().count(x) + (if x == value@ {
                            1int
                        } else {
                            0int
                        }));
                        assert(views_of(remaining@).to_multiset().count(x) == views_of(
                            rem0,
                        ).to_multiset().count(x) - (if x == value@ {
                            1int
                        } else {
                            0int
                        }));
                    }
                }
                assert(out@[out@.len() - 1] == value);
                assert forall|i: int, j2: int|
                    0 <= i < out@.len() && 0 <= j2 < remaining@.len() implies spec_str_le(
                    (#[trigger] out@[i])@,
                    (#[trigger] remaining@[j2])@,
                ) by {
                    let jj = if j2 < m { j2 } else { j2 + 1 };
                    assert(remaining@[j2] == rem0[jj]);
                    if i < out@.len() - 1 {
                        assert(out@[i] == out0[i]);
                    } else {
                        assert(out@[i] == rem0[m as int]);
                    }
                }
                assert forall|i: int, j2: int|
                    0 <= i < j2 < out@.len() implies spec_str_le(
                    (#[trigger] out@[i])@,
                    (#[trigger] out@[j2])@,
                ) by {
                    if j2 == out@.len() - 1 {
                        assert(out@[i] == out0[i]);
                        assert(out@[j2] == rem0[m as int]);
                    }
                }
            }
        }
        proof {
            assert(views_of(remaining@) =~= Seq::<Seq<char>>::empty());
            assert(views_of(out@).to_multiset().add(views_of(remaining@).to_multiset())
                =~= views_of(out@).to_multiset());
        }
        out
    }

    /// Discovers the eligible workbook files in a directory listing: keeps
    /// the names with an `.xlsx` suffix and sorts them lexicographically, so
    /// a sequential run is reproducible.
    pub fn scan_xlsx_files(entries: &Vec<String>) -> (r: Vec<String>)
        ensures
            is_discovery_of(r@, entries@),
    {
        let filtered = Self::filter_xlsx_names(entries);
        Self::sort_file_names(filtered)
    }

    /// Processes a directory listing strictly in sorted order: discovers the
    /// eligible files, then for each file emits a progress snapshot, checks
    /// cancellation, runs the worker's transformation unless cancelled, and
    /// records the outcome exactly as reported (false when cancellation
    /// preempted the file); one final snapshot marks completion.
    ///
    /// Whatever the worker does, the accounting is proved: every eligible
    /// file gets exactly one recorded outcome, the success counter counts
    /// the outcomes that report success and the failure counter the rest, so
    /// the counters balance. An empty listing yields zero counters and
    /// exactly one completion snapshot.
    #[verifier::loop_isolation(false)]
    pub fn process_batch<W: BatchWorker>(input_entries: &Vec<String>, worker: &mut W) -> (r:
        BatchReport)
        ensures
            ({
                let stats = r.stats;
                let trace = r.progress_trace;
                let outcomes = r.file_outcomes;
                let eligible = views_of(input_entries@).filter(
                    |v: Seq<char>| spec_is_xlsx_name(v),
                );
                let total = eligible.len();
                &&& stats.files_processed == total
                &&& stats.files_processed == stats.files_succeeded + stats.files_failed
                &&& stats.total_duration == 0
                &&& outcomes@.len() == total
                &&& stats.files_succeeded == spec_count_succeeded(outcomes@)
                &&& stats.files_failed == total - spec_count_succeeded(outcomes@)
                &&& forall|i: int|
                    0 <= i < total ==> (#[trigger] outcomes@[i]).file_name@
                        == trace@[i].current_file@
                &&& trace@.len() == total + 1
                &&& forall|i: int|
                    0 <= i < total ==> (#[trigger] trace@[i]).total_files == total
                        && trace@[i].processed_files == i && trace@[i].percentage
                        == spec_percentage(i, total as int)
                &&& forall|i: int, j: int|
                    0 <= i < j < total ==> spec_str_le(
                        (#[trigger] trace@[i]).current_file@,
                        (#[trigger] trace@[j]).current_file@,
                    )
                &&& Seq::new(total, |i: int| trace@[i].current_file@).to_multiset()
                    == eligible.to_multiset()
                &&& trace@[total as int].total_files == total
                &&& trace@[total as int].processed_files == total
                &&& trace@[total as int].current_file@ == "完成"@
                &&& trace@[total as int].percentage == spec_percentage(
                    total as int,
                    total as int,
                )
            }),
    {
        let files = Self::scan_xlsx_files(input_entries);
        let ghost eligible = views_of(input_entries@).filter(|v: Seq<char>| spec_is_xlsx_name(v));
        proof {
            assert(views_of(files@).to_multiset().len() == eligible.to_multiset().len());
            assert(views_of(files@).len() == files@.len());
            assert(files@.len() == eligible.len());
        }
        let total = files.len();
        let mut stats = ProcessingStats::new();
        let mut trace: Vec<ProcessingProgress> = Vec::new();
        let mut outcomes: Vec<FileOutcome> = Vec::new();
        let mut idx: usize = 0;
        while idx < total
            invariant
                idx <= total,
                total == files@.len(),
                stats.files_processed == idx,
                stats.files_succeeded == spec_count_succeeded(outcomes@),
                stats.files_processed == stats.files_succeeded + stats.files_failed,
                stats.total_duration == 0,
                outcomes@.len() == idx,
                forall|k: int|
                    0 <= k < idx ==> (#[trigger] outcomes@[k]).file_name@ == files@[k]@,
                trace@.len() == idx,
                forall|k: int|
                    0 <= k < idx ==> (#[trigger] trace@[k]).total_files == total
                        && trace@[k].processed_files == k && trace@[k].percentage
                        == spec_percentage(k, total as int) && trace@[k].current_file@
                        == files@[k]@,
            decreases total - idx,
        {
            let mut progress = ProcessingProgress::new(total);
            progress.update(idx, files[idx].clone());
            worker.on_progress(&progress);
            trace.push(progress);
            let succeeded = if worker.is_cancelled() {
                false
            } else {
                worker.process_file(&files[idx])
            };
            let ghost outcomes0 = outcomes@;
            outcomes.push(FileOutcome { file_name: files[idx].clone(), succeeded });
            stats.record_outcome(succeeded);
            proof {
                assert(outcomes@.drop_last() =~= outcomes0);
            }
            idx += 1;
        }
        let mut final_progress = ProcessingProgress::new(total);
        final_progress.update(total, "完成".to_owned());
        worker.on_progress(&final_progress);
        trace.push(final_progress);
        proof {
            assert(Seq::new(total as nat, |i: int| trace@[i].current_file@) =~= views_of(files@));
        }
        BatchReport { stats, progress_trace: trace, file_outcomes: outcomes }
    }
}

/// The bookkeeping of one bounded-concurrency run: how many files have been
/// handed out to workers, how many finished either way, and the concurrency
/// limit. The outside work — spawning tasks, awaiting permits — is the
/// caller's; it drives this state machine, which guarantees the accounting:
/// never more than `max_concurrency` files in flight, and final counters
/// that balance exactly.
#[derive(Debug, Clone)]
pub struct ParallelRun {
    pub total_files: usize,
    pub max_concurrency: usize,
    pub started: usize,
    pub succeeded: usize,
    pub failed: usize,
}

impl ParallelRun {
    /// How many files have been handed out but not yet finished.
    pub open spec fn spec_in_flight(self) -> int {
        self.started - (self.succeeded + self.failed)
    }

    /// The run's invariant: the limit is positive, finished files were
    /// started, started files are within the total, and the in-flight count
    /// never exceeds the limit.
    pub open spec fn wf(self) -> bool {
        &&& self.max_concurrency >= 1
        &&& self.succeeded + self.failed <= self.started
        &&& self.started <= self.total_files
        &&& self.spec_in_flight() <= self.max_concurrency
    }

    /// Every file has finished, one way or the other.
    pub open spec fn spec_finished(self) -> bool {
        self.succeeded + self.failed == self.total_files
    }

    /// Starts a run over `total_files` files with at most `max_concurrency`
    /// of them in flight at once.
    pub fn new(total_files: usize, max_concurrency: usize) -> (r: ParallelRun)
        requires
            max_concurrency >= 1,
        ensures
            r.wf(),
            r.total_files == total_files,
            r.max_concurrency == max_concurrency,
            r.started == 0,
            r.succeeded == 0,
            r.failed == 0,
    {
        ParallelRun { total_files, max_concurrency, started: 0, succeeded: 0, failed: 0 }
    }

    /// Hands out the next file if one remains and the concurrency limit
    /// allows another in-flight task; returns its position in the sorted
    /// file list. With the limit reached, or nothing left, nothing changes.
    pub fn try_start(&mut self) -> (r: Option<usize>)
        requires
            old(self).wf(),
        ensures
            final(self).wf(),
            (r is Some) == (old(self).started < old(self).total_files
                && old(self).spec_in_flight() < old(self).max_concurrency),
            r matches Some(i) ==> i == old(self).started && *final(self) == (ParallelRun {
                started: (old(self).started + 1) as usize,
                ..*old(self)
            }),
            r is None ==> *final(self) == *old(self),
    {
        if self.started < self.total_files && self.started - (self.succeeded + self.failed)
            < self.max_concurrency {
            let i = self.started;
            self.started = self.started + 1;
            Some(i)
        } else {
            None
        }
    }

    /// Records that one in-flight file finished, as a success or a failure,
    /// and produces the progress snapshot for that moment.
    pub fn complete(&mut self, success: bool, file_name: String) -> (p: ProcessingProgress)
        requires
            old(self).wf(),
            old(self).spec_in_flight() > 0,
        ensures
            final(self).wf(),
            final(self).total_files == old(self).total_files,
            final(self).max_concurrency == old(self).max_concurrency,
            final(self).started == old(self).started,
            success ==> final(self).succeeded == old(self).succeeded + 1 && final(self).failed
                == old(self).failed,
            !success ==> final(self).failed == old(self).failed + 1 && final(self).succeeded
                == old(self).succeeded,
            final(self).spec_in_flight() == old(self).spec_in_flight() - 1,
            p.total_files == old(self).total_files,
            p.processed_files == final(self).succeeded + final(self).failed,
            p.current_file == file_name,
            p.percentage == spec_percentage(
                final(self).succeeded + final(self).failed,
                old(self).total_files as int,
            ),
    {
        if success {
            self.succeeded = self.succeeded + 1;
        } else {
            self.failed = self.failed + 1;
        }
        let mut p = ProcessingProgress::new(self.total_files);
        p.update(self.succeeded + self.failed, file_name);
        p
    }

    /// Whether every file has finished.
    pub fn is_finished(&self) -> (r: bool)
        requires
            self.wf(),
        ensures
            r == self.spec_finished(),
    {
        self.succeeded + self.failed == self.total_files
    }

    /// The aggregate counters of the run so far.
    pub fn stats(&self) -> (s: ProcessingStats)
        requires
            self.wf(),
        ensures
            s.files_processed == self.succeeded + self.failed,
            s.files_succeeded == self.succeeded,
            s.files_failed == self.failed,
            s.total_duration == 0,
    {
        ProcessingStats {
            files_processed: self.succeeded + self.failed,
            files_succeeded: self.succeeded,
            files_failed: self.failed,
            total_duration: 0,
        }
    }
}

/// In any run that has not finished early, the counters balance: once every
/// file has completed, the processed count equals the number of successes
/// plus failures, and both equal the number of input files.
pub proof fn lemma_parallel_accounting(run: ParallelRun)
    requires
        run.wf(),
        run.spec_finished(),
    ensures
        run.succeeded + run.failed == run.total_files,
        run.started == run.total_files,
{
}

/// At every reachable state of a run, at most `max_concurrency`
/// transformations are in flight at once.
pub proof fn lemma_concurrency_bound(run: ParallelRun)
    requires
        run.wf(),
    ensures
        run.spec_in_flight() <= run.max_concurrency,
{
}

} // verus!
