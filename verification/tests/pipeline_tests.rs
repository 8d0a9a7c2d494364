use integrated_power::pipeline::{BatchWorker, DataEngine, ParallelRun};
use integrated_power::progress::{ProcessingError, ProcessingProgress, ProcessingResult, ProcessingStats};

#[test]
fn test_record_outcome_attribution() {
    let mut stats = ProcessingStats::new();
    stats.record_outcome(true);
    stats.record_outcome(false);
    stats.record_outcome(true);
    assert_eq!(stats.files_processed, 3);
    assert_eq!(stats.files_succeeded, 2);
    assert_eq!(stats.files_failed, 1);
}

struct RecordingWorker {
    cancelled: bool,
    fail_files: Vec<String>,
    processed: Vec<String>,
    events: Vec<ProcessingProgress>,
}

impl RecordingWorker {
    fn new() -> RecordingWorker {
        RecordingWorker {
            cancelled: false,
            fail_files: Vec::new(),
            processed: Vec::new(),
            events: Vec::new(),
        }
    }
}

impl BatchWorker for RecordingWorker {
    fn is_cancelled(&mut self) -> bool {
        self.cancelled
    }

    fn process_file(&mut self, file_name: &String) -> bool {
        self.processed.push(file_name.clone());
        !self.fail_files.contains(file_name)
    }

    fn on_progress(&mut self, progress: &ProcessingProgress) {
        self.events.push(progress.clone());
    }
}

fn names(list: &[&str]) -> Vec<String> {
    list.iter().map(|s| s.to_string()).collect()
}

#[test]
fn test_scan_xlsx_files() {
    let entries = names(&["test1.xlsx", "test2.xlsx", "test.txt"]);
    let files = DataEngine::scan_xlsx_files(&entries);
    assert_eq!(files.len(), 2);
    assert_eq!(files, names(&["test1.xlsx", "test2.xlsx"]));
}

#[test]
fn test_scan_sorts_and_ignores_case() {
    let entries = names(&["b.XLSX", "a.xlsx", "notes.md", "c.xlsx.bak", ".xlsx"]);
    let files = DataEngine::scan_xlsx_files(&entries);
    assert_eq!(files, names(&["a.xlsx", "b.XLSX"]));
}

#[test]
fn test_process_batch_empty_dir() {
    let mut worker = RecordingWorker::new();
    let report = DataEngine::process_batch(&Vec::new(), &mut worker);

    assert_eq!(report.stats.files_processed, 0);
    assert_eq!(report.stats.files_succeeded, 0);
    assert_eq!(report.stats.files_failed, 0);
    assert_eq!(report.file_outcomes.len(), 0);
    // Exactly one completion event.
    assert_eq!(report.progress_trace.len(), 1);
    assert_eq!(report.progress_trace[0].current_file, "完成");
    assert_eq!(worker.events.len(), 1);
    assert_eq!(worker.events[0].current_file, "完成");
}

#[test]
fn test_process_batch_counts_balance() {
    let mut worker = RecordingWorker::new();
    worker.fail_files = names(&["b.xlsx"]);
    let entries = names(&["b.xlsx", "a.xlsx", "skip.txt", "c.xlsx"]);
    let report = DataEngine::process_batch(&entries, &mut worker);
    let stats = &report.stats;
    let trace = &report.progress_trace;

    assert_eq!(stats.files_processed, 3);
    assert_eq!(stats.files_succeeded + stats.files_failed, 3);
    assert_eq!(stats.files_succeeded, 2);
    assert_eq!(stats.files_failed, 1);
    // Sorted, reproducible order.
    assert_eq!(worker.processed, names(&["a.xlsx", "b.xlsx", "c.xlsx"]));
    assert_eq!(trace.len(), 4);
    assert_eq!(trace[0].processed_files, 0);
    assert_eq!(trace[0].current_file, "a.xlsx");
    assert_eq!(trace[3].processed_files, 3);
    assert_eq!(trace[3].current_file, "完成");
    assert_eq!(trace[3].percentage, 10_000);
    // The outcome of each file is attributed to the right counter.
    assert_eq!(report.file_outcomes.len(), 3);
    assert_eq!(report.file_outcomes[0].file_name, "a.xlsx");
    assert!(report.file_outcomes[0].succeeded);
    assert_eq!(report.file_outcomes[1].file_name, "b.xlsx");
    assert!(!report.file_outcomes[1].succeeded);
    assert_eq!(report.file_outcomes[2].file_name, "c.xlsx");
    assert!(report.file_outcomes[2].succeeded);
}

#[test]
fn test_process_batch_cancelled_counts_as_failed() {
    let mut worker = RecordingWorker::new();
    worker.cancelled = true;
    let entries = names(&["a.xlsx", "b.xlsx"]);
    let report = DataEngine::process_batch(&entries, &mut worker);

    // Cancelled files never reach the transformation, but are counted.
    assert_eq!(worker.processed.len(), 0);
    assert_eq!(report.stats.files_processed, 2);
    assert_eq!(report.stats.files_succeeded, 0);
    assert_eq!(report.stats.files_failed, 2);
    assert!(report.file_outcomes.iter().all(|o| !o.succeeded));
}

#[test]
fn test_parallel_run_bounded_concurrency() {
    // 10 files, at most 3 in flight: whatever the completion order, the
    // final counts balance and the bound is never exceeded.
    let mut run = ParallelRun::new(10, 3);
    let mut in_flight: Vec<usize> = Vec::new();
    let mut started_total = 0;
    let mut toggle = false;
    while !run.is_finished() {
        match run.try_start() {
            Some(idx) => {
                assert_eq!(idx, started_total);
                started_total += 1;
                in_flight.push(idx);
                assert!(in_flight.len() <= 3);
            }
            None => {
                // Either the limit is reached or everything started.
                assert!(in_flight.len() == 3 || started_total == 10);
                // Complete one, alternating success and failure, from the
                // back to make completion order differ from start order.
                let idx = in_flight.pop().unwrap();
                toggle = !toggle;
                let p = run.complete(toggle, format!("file{}.xlsx", idx));
                assert_eq!(p.total_files, 10);
            }
        }
    }
    assert_eq!(run.succeeded + run.failed, 10);
    assert_eq!(run.started, 10);
    let stats = run.stats();
    assert_eq!(stats.files_processed, 10);
    assert_eq!(stats.files_succeeded + stats.files_failed, 10);
}

#[test]
fn test_parallel_run_limit_blocks_fourth_start() {
    let mut run = ParallelRun::new(5, 3);
    assert!(run.try_start().is_some());
    assert!(run.try_start().is_some());
    assert!(run.try_start().is_some());
    // Three in flight: the limit refuses a fourth.
    assert!(run.try_start().is_none());
    let p = run.complete(true, "one.xlsx".to_string());
    assert_eq!(p.processed_files, 1);
    assert_eq!(p.current_file, "one.xlsx");
    // A slot freed: starting works again.
    assert!(run.try_start().is_some());
}

#[test]
fn test_parallel_run_progress_snapshot() {
    let mut run = ParallelRun::new(4, 2);
    run.try_start();
    run.try_start();
    let p = run.complete(false, "x.xlsx".to_string());
    assert_eq!(p.total_files, 4);
    assert_eq!(p.processed_files, 1);
    assert_eq!(p.percentage, 2_500);
    assert_eq!(run.failed, 1);
    assert_eq!(run.succeeded, 0);
    assert!(!run.is_finished());
}

#[test]
fn test_progress_percentage() {
    let mut p = ProcessingProgress::new(10);
    assert_eq!(p.percentage, 0);
    p.update(5, "test.xlsx".to_string());
    assert_eq!(p.percentage, 5_000);
    assert!(!p.is_complete());
    p.update(10, "done.xlsx".to_string());
    assert_eq!(p.percentage, 10_000);
    assert!(p.is_complete());

    let mut zero = ProcessingProgress::new(0);
    zero.update(0, "".to_string());
    assert_eq!(zero.percentage, 0);
    assert!(zero.is_complete());
}

#[test]
fn test_processing_stats_from_result() {
    let mut result = ProcessingResult::new(3);
    result.add_success();
    result.add_success();
    result.add_failure(ProcessingError::new(
        "bad.xlsx".to_string(),
        "unreadable".to_string(),
    ));
    result.set_duration(1_500);
    assert!(result.has_errors());
    assert_eq!(result.success_rate(), 6_666);

    let stats = ProcessingStats::from_result(&result);
    assert_eq!(stats.files_processed, 3);
    assert_eq!(stats.files_succeeded, 2);
    assert_eq!(stats.files_failed, 1);
    assert_eq!(stats.total_duration, 1_500);
}
