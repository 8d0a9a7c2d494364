use integrated_power::config::Theme as ConfigTheme;
use integrated_power::processor::ProcessorInfo;
use integrated_power::processor_list::ProcessorListView;
use integrated_power::progress::{ProcessingProgress, ProcessingStats};
use integrated_power::progress_view::ProgressView;
use integrated_power::theme::ThemeColors;

fn create_test_processor_info(id: &str, name: &str) -> ProcessorInfo {
    ProcessorInfo {
        id: id.to_string(),
        name: name.to_string(),
        description: format!("{} description", name),
        icon: Some("📊".to_string()),
        version: "1.0.0".to_string(),
        available: true,
    }
}

#[test]
fn test_processor_list_view_creation() {
    let view = ProcessorListView::new();
    assert_eq!(view.processor_count(), 0);
    assert!(!view.has_selection());
}

#[test]
fn test_set_processors() {
    let mut view = ProcessorListView::new();
    let processors = vec![
        create_test_processor_info("proc1", "Processor 1"),
        create_test_processor_info("proc2", "Processor 2"),
    ];

    view.set_processors(processors);
    assert_eq!(view.processor_count(), 2);
}

#[test]
fn test_select_processor() {
    let mut view = ProcessorListView::new();
    let processors = vec![
        create_test_processor_info("proc1", "Processor 1"),
        create_test_processor_info("proc2", "Processor 2"),
    ];

    view.set_processors(processors);
    view.select_processor("proc1");

    assert!(view.has_selection());
    assert_eq!(view.selected_processor_id(), Some("proc1"));

    let selected = view.selected_processor().unwrap();
    assert_eq!(selected.id, "proc1");
    assert!(selected.selected);
}

#[test]
fn test_search_filter() {
    let mut view = ProcessorListView::new();
    let processors = vec![
        create_test_processor_info("data_cleaning", "Data Cleaning"),
        create_test_processor_info("data_stats", "Data Statistics"),
        create_test_processor_info("export", "Export Data"),
    ];

    view.set_processors(processors);

    view.set_search_query("data".to_string());
    let filtered = view.filtered_processors();
    assert_eq!(filtered.len(), 3);

    view.set_search_query("cleaning".to_string());
    let filtered = view.filtered_processors();
    assert_eq!(filtered.len(), 1);
    assert_eq!(filtered[0].id, "data_cleaning");

    view.clear_search();
    let filtered = view.filtered_processors();
    assert_eq!(filtered.len(), 3);
}

#[test]
fn test_deselect() {
    let mut view = ProcessorListView::new();
    let processors = vec![create_test_processor_info("proc1", "Processor 1")];

    view.set_processors(processors);
    view.select_processor("proc1");
    assert!(view.has_selection());

    view.deselect();
    assert!(!view.has_selection());
    assert_eq!(view.selected_processor_id(), None);
}

#[test]
fn test_sort_by_name() {
    let mut view = ProcessorListView::new();
    let processors = vec![
        create_test_processor_info("proc3", "Zebra"),
        create_test_processor_info("proc1", "Alpha"),
        create_test_processor_info("proc2", "Beta"),
    ];

    view.set_processors(processors);
    view.sort_by_name();

    let names: Vec<&str> = view.processors().iter().map(|p| p.name.as_str()).collect();
    assert_eq!(names, vec!["Alpha", "Beta", "Zebra"]);
}

#[test]
fn test_sort_by_id() {
    let mut view = ProcessorListView::new();
    let processors = vec![
        create_test_processor_info("c", "Third"),
        create_test_processor_info("a", "First"),
        create_test_processor_info("b", "Second"),
    ];
    view.set_processors(processors);
    view.sort_by_id();
    let ids: Vec<&str> = view.processors().iter().map(|p| p.id.as_str()).collect();
    assert_eq!(ids, vec!["a", "b", "c"]);
}

#[test]
fn test_available_processors() {
    let mut view = ProcessorListView::new();
    let mut processors = vec![
        create_test_processor_info("proc1", "Processor 1"),
        create_test_processor_info("proc2", "Processor 2"),
    ];

    processors[1].available = false;

    view.set_processors(processors);

    let available = view.available_processors();
    assert_eq!(available.len(), 1);
    assert_eq!(available[0].id, "proc1");
    assert_eq!(view.available_count(), 1);
}

#[test]
fn test_progress_view_creation() {
    let view = ProgressView::new();
    assert!(!view.is_visible());
    assert!(view.current_progress().is_none());
    assert!(!view.is_complete());
}

#[test]
fn test_show_hide() {
    let mut view = ProgressView::new();

    view.show();
    assert!(view.is_visible());

    view.hide_view();
    assert!(!view.is_visible());
}

#[test]
fn test_update_progress() {
    let mut view = ProgressView::new();

    let mut progress = ProcessingProgress::new(10);
    progress.update(5, "test.xlsx".to_string());

    view.update_progress(progress);

    assert!(view.is_visible());
    // 50%, in hundredths of a percent.
    assert_eq!(view.percentage(), 5_000);
    assert_eq!(view.current_file(), Some("test.xlsx"));
    assert_eq!(view.processed_count(), 5);
    assert_eq!(view.total_count(), 10);
}

#[test]
fn test_show_completion() {
    let mut view = ProgressView::new();

    let mut stats = ProcessingStats::new();
    stats.files_processed = 10;
    stats.files_succeeded = 8;
    stats.files_failed = 2;
    stats.total_duration = 30_000;

    view.show_completion(stats);

    assert!(view.is_complete());
    assert!(view.completion_stats().is_some());
    assert_eq!(view.completion_stats().unwrap().files_succeeded, 8);
}

#[test]
fn test_can_cancel() {
    let mut view = ProgressView::new();

    assert!(view.can_cancel);

    assert!(!view.can_cancel());

    view.show();
    assert!(view.can_cancel());

    view.set_can_cancel(false);
    assert!(!view.can_cancel());
}

#[test]
fn test_progress_text() {
    let mut view = ProgressView::new();

    let mut progress = ProcessingProgress::new(10);
    progress.update(5, "test.xlsx".to_string());
    view.update_progress(progress);

    let text = view.progress_text();
    assert!(text.contains("5/10"));
    assert!(text.contains("50.0%"));
}

#[test]
fn test_status_message() {
    let mut view = ProgressView::new();

    assert_eq!(view.status_message(), "等待开始...");

    let mut progress = ProcessingProgress::new(10);
    progress.update(5, "test.xlsx".to_string());
    view.update_progress(progress);
    assert!(view.status_message().contains("test.xlsx"));

    let mut stats = ProcessingStats::new();
    stats.files_processed = 10;
    stats.files_succeeded = 10;
    stats.files_failed = 0;
    view.show_completion(stats);
    assert!(view.status_message().contains("完成"));
}

#[test]
fn test_duration_text() {
    let mut view = ProgressView::new();
    assert!(view.duration_text().is_none());

    let mut stats = ProcessingStats::new();
    stats.total_duration = 30_000;
    view.show_completion(stats);
    assert_eq!(view.duration_text().unwrap(), "耗时: 30 秒");

    let mut stats = ProcessingStats::new();
    stats.total_duration = 90_000;
    view.show_completion(stats);
    assert_eq!(view.duration_text().unwrap(), "耗时: 1 分 30 秒");
}

#[test]
fn test_reset() {
    let mut view = ProgressView::new();

    let progress = ProcessingProgress::new(10);
    view.update_progress(progress);
    view.set_can_cancel(false);

    view.reset();

    assert!(!view.is_visible());
    assert!(view.current_progress().is_none());
    assert!(view.can_cancel);
}

#[test]
fn test_light_theme() {
    let theme = ThemeColors::light();
    assert_eq!(theme.primary, "#2196F3");
    assert_eq!(theme.background, "#FFFFFF");
}

#[test]
fn test_dark_theme() {
    let theme = ThemeColors::dark();
    assert_eq!(theme.primary, "#42A5F5");
    assert_eq!(theme.background, "#1E1E1E");
}

#[test]
fn test_stylesheet_generation() {
    let theme = ThemeColors::light();
    let stylesheet = theme.to_stylesheet();
    assert!(stylesheet.contains("QMainWindow"));
    assert!(stylesheet.contains("#2196F3"));
}

#[test]
fn test_from_config_theme() {
    let light = ThemeColors::from_config_theme(ConfigTheme::Light);
    assert_eq!(light.background, "#FFFFFF");

    let dark = ThemeColors::from_config_theme(ConfigTheme::Dark);
    assert_eq!(dark.background, "#1E1E1E");
}

#[test]
fn test_sort_by_name_is_stable() {
    let mut view = ProcessorListView::new();
    let processors = vec![
        create_test_processor_info("second_twin", "Twin"),
        create_test_processor_info("alpha", "Alpha"),
        create_test_processor_info("first_twin", "Twin"),
    ];
    let mut renamed = processors;
    // Give the two equal-named cards distinct identifiers in insertion order.
    renamed[0].id = "twin_a".to_string();
    renamed[2].id = "twin_b".to_string();
    view.set_processors(renamed);
    view.sort_by_name();
    let ids: Vec<&str> = view.processors().iter().map(|p| p.id.as_str()).collect();
    // Equal names keep their relative order: twin_a was inserted first.
    assert_eq!(ids, vec!["alpha", "twin_a", "twin_b"]);
}
