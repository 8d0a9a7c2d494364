use integrated_power::config::{AppConfig, ConfigManager, Theme};
use integrated_power::history::{HistoryEntry, HistoryManager};
use integrated_power::logger::{ErrorLogger, LogEntry, LogLevel, Logger};
use integrated_power::processor::ProcessorManager;
use integrated_power::progress::ProcessingResult;
use integrated_power::error::AppError;
use integrated_power::selector::{DirStatus, DirectorySelector};

fn ok_dir() -> DirStatus {
    DirStatus { exists: true, is_dir: true, readable: true, writable: true }
}

#[test]
fn test_default_config() {
    let config = AppConfig::default();
    assert_eq!(config.theme, Theme::Light);
    assert_eq!(config.max_history_entries, 100);
    assert!(config.parallel_processing);
    assert!(config.max_parallel_tasks > 0);
}

#[test]
fn test_config_validation() {
    let mut config = AppConfig::default();
    assert!(config.validate().is_ok());

    config.max_history_entries = 0;
    assert!(config.validate().is_err());

    config.max_history_entries = 100;
    config.max_parallel_tasks = 0;
    assert!(config.validate().is_err());
}

#[test]
fn test_config_manager_updates() {
    let mut manager = ConfigManager::new(AppConfig::default(), "config.toml".to_string());
    assert_eq!(manager.config_path(), "config.toml");

    assert!(manager.set_theme(Theme::Dark).is_ok());
    assert_eq!(manager.config().theme, Theme::Dark);

    assert!(manager.set_max_history_entries(0).is_err());
    assert_eq!(manager.config().max_history_entries, 100);
    assert!(manager.set_max_history_entries(7).is_ok());
    assert_eq!(manager.get_config().max_history_entries, 7);

    assert!(manager.set_parallel_processing(true, 0).is_err());
    assert!(manager.set_parallel_processing(false, 0).is_ok());
    assert!(!manager.config().parallel_processing);

    assert!(manager
        .set_default_input_dir(Some("/data/in".to_string()))
        .is_ok());
    assert_eq!(
        manager.config().default_input_dir.as_deref(),
        Some("/data/in")
    );

    let mut bad = AppConfig::default();
    bad.max_history_entries = 0;
    assert!(manager.update_config(bad).is_err());
    assert_eq!(manager.config().max_history_entries, 7);

    assert!(manager.reset_to_default().is_ok());
    assert_eq!(manager.config().max_history_entries, 100);
}

#[test]
fn test_log_level_and_entry() {
    assert_eq!(LogLevel::Debug.as_str(), "DEBUG");
    assert_eq!(LogLevel::Info.as_str(), "INFO");
    assert_eq!(LogLevel::Warning.as_str(), "WARN");
    assert_eq!(LogLevel::Error.as_str(), "ERROR");

    let entry = LogEntry::new(LogLevel::Info, "hello".to_string());
    let line = entry.format();
    assert!(line.starts_with('['));
    assert!(line.contains("[INFO]"));
    assert!(line.ends_with("hello"));
}

#[test]
fn test_logger_buffer_and_cap() {
    let mut logger = Logger::new(2);
    assert!(logger.get_log_file_path_str().is_none());
    logger.debug("one");
    logger.info("two");
    logger.warning("three");
    let entries = logger.get_entries();
    assert_eq!(entries.len(), 2);
    assert_eq!(entries[0].message, "two");
    assert_eq!(entries[0].level, LogLevel::Info);
    assert_eq!(entries[1].message, "three");
    assert_eq!(entries[1].level, LogLevel::Warning);
    logger.clear();
    assert_eq!(logger.get_entries().len(), 0);
}

#[test]
fn test_error_logger_creation() {
    let logger = ErrorLogger::new("test.log".to_string());
    assert_eq!(logger.log_file_path(), "test.log");
}

#[test]
fn test_error_logger_lines() {
    let logger = ErrorLogger::new("test.log".to_string());
    let line = logger.error_line(&AppError::config_error("Test error"), "Test context");
    assert!(line.contains("[ERROR]"));
    assert!(line.contains("Test context"));
    assert!(line.contains("Test error"));
    assert!(line.ends_with('\n'));

    let warn = logger.warning_line("low disk", "check");
    assert!(warn.contains("[WARN]"));
    let info = logger.info_line("done", "run");
    assert!(info.contains("[INFO]"));

    let lines = vec![
        "[x] [ERROR] a".to_string(),
        "[x] [INFO] b".to_string(),
        "[x] [ERROR] c".to_string(),
        "[x] [ERROR] d".to_string(),
    ];
    let recent = logger.recent_error_lines(&lines, 2);
    assert_eq!(recent.len(), 2);
    assert_eq!(recent[0], "[x] [ERROR] d");
    assert_eq!(recent[1], "[x] [ERROR] c");
}

fn create_test_entry() -> HistoryEntry {
    let mut result = ProcessingResult::new(10);
    result.successful = 8;
    result.failed = 2;
    result.duration = 30_000;

    HistoryEntry::new(
        "test_processor".to_string(),
        "Test Processor".to_string(),
        "/input".to_string(),
        "/output".to_string(),
        result,
    )
}

#[test]
fn test_add_entry() {
    let mut manager = HistoryManager::restore(Vec::new(), "history.json".to_string(), 100);

    let entry = create_test_entry();
    manager.add_entry(entry).unwrap();

    assert_eq!(manager.entry_count(), 1);
}

#[test]
fn test_max_entries_limit() {
    let mut manager = HistoryManager::restore(Vec::new(), "history.json".to_string(), 5);

    for _ in 0..10 {
        let entry = create_test_entry();
        manager.add_entry(entry).unwrap();
    }

    assert_eq!(manager.entry_count(), 5);
}

#[test]
fn test_get_recent_entries() {
    let mut manager = HistoryManager::restore(Vec::new(), "history.json".to_string(), 100);

    for _ in 0..10 {
        let entry = create_test_entry();
        manager.add_entry(entry).unwrap();
    }

    let recent = manager.get_recent_entries(3);
    assert_eq!(recent.len(), 3);
}

#[test]
fn test_clear_history() {
    let mut manager = HistoryManager::restore(Vec::new(), "history.json".to_string(), 100);

    let entry = create_test_entry();
    manager.add_entry(entry).unwrap();
    assert_eq!(manager.entry_count(), 1);

    manager.clear_history().unwrap();
    assert_eq!(manager.entry_count(), 0);
}

#[test]
fn test_get_successful_entries() {
    let mut manager = HistoryManager::restore(Vec::new(), "history.json".to_string(), 100);

    let mut success_result = ProcessingResult::new(10);
    success_result.successful = 10;
    success_result.failed = 0;

    let success_entry = HistoryEntry::new(
        "test".to_string(),
        "Test".to_string(),
        "/input".to_string(),
        "/output".to_string(),
        success_result,
    );

    manager.add_entry(success_entry).unwrap();

    let entry = create_test_entry();
    manager.add_entry(entry).unwrap();

    let successful = manager.get_successful_entries();
    assert_eq!(successful.len(), 1);

    let failed = manager.get_failed_entries();
    assert_eq!(failed.len(), 1);
}

#[test]
fn test_history_lookup_and_removal() {
    let mut manager = HistoryManager::new(10);
    assert_eq!(manager.max_entries(), 10);
    assert_eq!(manager.storage_path(), "history.json");

    let entry = create_test_entry();
    let id = entry.id.clone();
    assert_eq!(id.len(), 36);
    assert!(!entry.is_successful());
    assert_eq!(entry.success_rate(), 8_000);
    manager.add_entry(entry).unwrap();

    assert!(manager.get_entry_by_id(&id).is_some());
    assert!(manager.get_entry_by_id("no-such-id").is_none());
    assert!(manager.remove_entry("no-such-id").is_err());
    assert!(manager.remove_entry(&id).is_ok());
    assert_eq!(manager.entry_count(), 0);
}

#[test]
fn test_history_import_brings_new_identifiers() {
    let mut manager = HistoryManager::new(10);
    let fresh = create_test_entry();
    let fresh_id = fresh.id.clone();
    manager.import_entries(vec![fresh]).unwrap();
    assert!(manager.get_entry_by_id(&fresh_id).is_some());
}

#[test]
fn test_history_import_sorts_and_dedupes() {
    let mut manager = HistoryManager::new(10);
    let first = create_test_entry();
    let again = first.duplicate();
    let second = create_test_entry();
    manager.add_entry(first).unwrap();

    manager.import_entries(vec![again, second]).unwrap();
    // The duplicate identifier was skipped; the fresh entry joined.
    assert_eq!(manager.entry_count(), 2);
    let entries = manager.get_entries();
    assert!(entries[0].timestamp <= entries[1].timestamp);
}

#[test]
fn test_processor_manager() {
    let manager = ProcessorManager::new();
    assert_eq!(manager.processor_count(), 3);
    assert!(manager.has_processor("export_cargo_analysis"));
    assert!(manager.has_processor("auxiliary_material"));
    assert!(manager.has_processor("excel_structure_analyzer"));
    assert!(!manager.has_processor("unknown"));

    let entry = manager.get_processor("auxiliary_material").unwrap();
    assert_eq!(entry.name, "辅材处理");

    let infos = manager.list_processors();
    assert_eq!(infos.len(), 3);
    assert!(infos.iter().all(|i| i.available));
    assert_eq!(infos[0].id, "export_cargo_analysis");
}

#[test]
fn test_directory_selector_creation() {
    let selector = DirectorySelector::new();
    assert!(selector.input_directory().is_none());
    assert!(selector.output_directory().is_none());
    assert!(!selector.is_ready());
}

#[test]
fn test_set_input_directory() {
    let mut selector = DirectorySelector::new();

    selector
        .set_input_directory("/data/in".to_string(), &ok_dir())
        .unwrap();

    assert!(selector.input_directory().is_some());
    assert_eq!(selector.input_directory().unwrap(), "/data/in");
}

#[test]
fn test_set_output_directory() {
    let mut selector = DirectorySelector::new();

    selector
        .set_output_directory("/data/out".to_string(), &ok_dir())
        .unwrap();

    assert!(selector.output_directory().is_some());
}

#[test]
fn test_validate_nonexistent_input() {
    let mut selector = DirectorySelector::new();
    let missing = DirStatus { exists: false, is_dir: false, readable: false, writable: false };

    let result = selector.set_input_directory("/nonexistent/path".to_string(), &missing);
    assert!(result.is_err());
    assert!(selector.input_directory().is_none());
}

#[test]
fn test_is_ready() {
    let mut selector = DirectorySelector::new();

    assert!(!selector.is_ready());

    selector
        .set_input_directory("/data/in".to_string(), &ok_dir())
        .unwrap();
    assert!(!selector.is_ready());

    selector
        .set_output_directory("/data/out".to_string(), &ok_dir())
        .unwrap();
    assert!(selector.is_ready());

    assert!(selector.validate_directories(&ok_dir(), &ok_dir()).is_ok());
}

#[test]
fn test_clear_directories() {
    let mut selector = DirectorySelector::new();

    selector
        .set_input_directory("/data/in".to_string(), &ok_dir())
        .unwrap();
    selector
        .set_output_directory("/data/out".to_string(), &ok_dir())
        .unwrap();

    assert!(selector.is_ready());

    selector.clear_all();
    assert!(!selector.is_ready());
}

#[test]
fn test_count_input_files() {
    let mut selector = DirectorySelector::new();

    let entries = vec![
        "test1.xlsx".to_string(),
        "test2.xlsx".to_string(),
        "test.txt".to_string(),
    ];

    assert_eq!(selector.count_input_files(&entries).unwrap(), 0);

    selector
        .set_input_directory("/data/in".to_string(), &ok_dir())
        .unwrap();

    let count = selector.count_input_files(&entries).unwrap();
    assert_eq!(count, 2);
}

#[test]
fn test_display_text() {
    let selector = DirectorySelector::new();
    assert_eq!(selector.input_directory_display(), "未选择");
    assert_eq!(selector.output_directory_display(), "未选择");
}

#[test]
fn test_check_output_space() {
    let mut selector = DirectorySelector::new();
    assert_eq!(selector.check_output_space().unwrap(), 0);
    selector
        .set_output_directory("/data/out".to_string(), &ok_dir())
        .unwrap();
    assert_eq!(selector.check_output_space().unwrap(), u64::MAX);
}
