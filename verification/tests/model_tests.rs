use integrated_power::error::AppError;
use integrated_power::extract::{find_merge_for_cell, parse_argb_color};
use integrated_power::identification_error::IdentificationError;
use integrated_power::models::{CellData, CellStyle, MergeInfo, RgbColor, RowData, WorksheetData};
use integrated_power::state::AppState;
use integrated_power::text::{str_eq, str_le, trim_chars, u64_to_string, usize_to_string};

#[test]
fn test_error_creation() {
    let err = IdentificationError::invalid_color_data(10, "Invalid RGB value");
    assert!(err.message().contains("row 10"));
    assert!(err.message().contains("Invalid RGB value"));

    let err = IdentificationError::invalid_regex_pattern("test_rule", "Unclosed bracket");
    assert!(err.message().contains("test_rule"));
    assert!(err.message().contains("Unclosed bracket"));

    let err = IdentificationError::empty_profile("cargo_analysis");
    assert!(err.message().contains("cargo_analysis"));

    let err = IdentificationError::row_index_out_of_range(100, 50);
    assert!(err.message().contains("100"));
    assert!(err.message().contains("50"));
}

#[test]
fn test_error_display() {
    let err = IdentificationError::InvalidConfiguration("Test error".to_string());
    let display = err.message();
    assert_eq!(display, "Invalid configuration: Test error");
}

#[test]
fn test_identification_error_messages_exact() {
    let err = IdentificationError::row_index_out_of_range(100, 50);
    assert_eq!(err.message(), "Row index 100 out of range (max: 50)");
    let err = IdentificationError::column_index_out_of_range(7, 3);
    assert_eq!(err.message(), "Column index 7 out of range (max: 3)");
    let err = IdentificationError::worksheet_not_found("Sheet9");
    assert_eq!(err.message(), "Worksheet not found: Sheet9");
    let err = IdentificationError::file_read_error("gone");
    assert_eq!(err.message(), "File read error: gone");
    let err = IdentificationError::excel_data_error("bad cell");
    assert_eq!(err.message(), "Excel data access error: bad cell");
}

#[test]
fn test_app_error_user_message() {
    assert_eq!(
        AppError::config_error("x").user_message(),
        "配置错误: x"
    );
    assert_eq!(
        AppError::processing_error("y").user_message(),
        "处理失败: y"
    );
    assert_eq!(AppError::OperationCancelled.user_message(), "操作已取消");
    assert_eq!(AppError::InsufficientDiskSpace.user_message(), "磁盘空间不足");
    assert_eq!(
        AppError::DirectoryNotFound("/tmp/in".to_string()).user_message(),
        "目录不存在: /tmp/in"
    );
    assert!(AppError::config_error("x").is_config_error());
    assert!(AppError::processing_error("x").is_processing_error());
    assert!(AppError::IoError("broken pipe".to_string()).is_io_error());
    assert!(!AppError::OperationCancelled.is_io_error());
}

#[test]
fn test_rgb_color_and_white() {
    let c = RgbColor::new(198, 239, 206);
    assert_eq!(c.r, 198);
    assert_eq!(c.g, 239);
    assert_eq!(c.b, 206);
    assert_eq!(RgbColor::white(), RgbColor::new(255, 255, 255));
}

#[test]
fn test_merge_info_spans() {
    let m = MergeInfo { start_col: 2, end_col: 6, start_row: 1, end_row: 1 };
    assert_eq!(m.column_span(), 5);
    assert_eq!(m.row_span(), 1);
}

#[test]
fn test_cell_is_empty() {
    let blank = CellData {
        column_index: 0,
        content: "  \t\u{3000} ".to_string(),
        style: CellStyle::default(),
        merge_info: None,
    };
    assert!(blank.is_empty());
    let full = CellData {
        column_index: 0,
        content: " x ".to_string(),
        style: CellStyle::default(),
        merge_info: None,
    };
    assert!(!full.is_empty());
}

#[test]
fn test_row_accessors() {
    let row = RowData {
        row_index: 2,
        cells: vec![
            CellData {
                column_index: 0,
                content: " ".to_string(),
                style: CellStyle::default(),
                merge_info: None,
            },
            CellData {
                column_index: 1,
                content: "first".to_string(),
                style: CellStyle::default(),
                merge_info: None,
            },
        ],
    };
    assert!(row.get_cell(0).is_some());
    assert!(row.get_cell(2).is_none());
    let first = row.first_non_empty_cell().unwrap();
    assert_eq!(first.content, "first");

    let ws = WorksheetData { name: "S1".to_string(), rows: vec![row] };
    assert_eq!(ws.row_count(), 1);
    assert!(ws.get_row(0).is_some());
    assert!(ws.get_row(1).is_none());
}

#[test]
fn test_parse_argb_color() {
    assert_eq!(parse_argb_color("FFC6EFCE"), Some(RgbColor::new(198, 239, 206)));
    assert_eq!(parse_argb_color("00ffffff"), Some(RgbColor::white()));
    assert_eq!(parse_argb_color("FFC6EF"), None);
    assert_eq!(parse_argb_color("FFC6EFZZ"), None);
    assert_eq!(parse_argb_color(""), None);
}

#[test]
fn test_find_merge_for_cell() {
    let merges = vec![
        MergeInfo { start_col: 0, end_col: 2, start_row: 0, end_row: 0 },
        MergeInfo { start_col: 0, end_col: 10, start_row: 5, end_row: 6 },
    ];
    let hit = find_merge_for_cell(&merges, 1, 0).unwrap();
    assert_eq!(hit.end_col, 2);
    let hit = find_merge_for_cell(&merges, 9, 6).unwrap();
    assert_eq!(hit.end_col, 10);
    assert!(find_merge_for_cell(&merges, 3, 0).is_none());
}

#[test]
fn test_app_state() {
    let idle = AppState::idle();
    assert!(idle.is_idle());
    assert!(!idle.is_processing());
    assert!(idle.processor_id().is_none());

    let processing = AppState::processing("cargo_analysis".to_string());
    assert!(processing.is_processing());
    assert_eq!(processing.processor_id(), Some("cargo_analysis"));

    let failed = AppState::error("boom".to_string());
    assert!(failed.is_error());
    assert_eq!(failed.error_message(), Some("boom"));
}

#[test]
fn test_embedded_icon_absent() {
    assert!(integrated_power::assets::embedded_icon("search").is_none());
}

#[test]
fn test_decimal_rendering() {
    assert_eq!(u64_to_string(0), "0");
    assert_eq!(u64_to_string(7), "7");
    assert_eq!(u64_to_string(40), "40");
    assert_eq!(u64_to_string(123456789), "123456789");
    assert_eq!(u64_to_string(u64::MAX), "18446744073709551615");
    assert_eq!(usize_to_string(100), "100");
}

#[test]
fn test_trim_and_compare() {
    assert_eq!(trim_chars("  hello \t"), "hello");
    assert_eq!(trim_chars("\u{3000}全形\u{3000}"), "全形");
    assert_eq!(trim_chars("   "), "");
    assert_eq!(trim_chars(""), "");
    assert_eq!(trim_chars("inner  space"), "inner  space");

    assert!(str_eq("abc", "abc"));
    assert!(!str_eq("abc", "abd"));
    assert!(str_le("abc", "abd"));
    assert!(str_le("ab", "abc"));
    assert!(!str_le("b", "abc"));
    assert!(str_le("same", "same"));
}
