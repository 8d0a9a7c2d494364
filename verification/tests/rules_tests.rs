use integrated_power::models::{CellData, CellStyle, MergeInfo, RgbColor, RowData};
use integrated_power::rules::{
    ColorRule, CompositeRule, MergeRequirement, MergeStateRule, RecognitionRule, TextPattern,
    TextPatternRule, CONFIDENCE_UNIT,
};

fn cell(col: usize, content: &str, bg: Option<RgbColor>, merge: Option<MergeInfo>) -> CellData {
    CellData {
        column_index: col,
        content: content.to_string(),
        style: CellStyle { background_color: bg, ..Default::default() },
        merge_info: merge,
    }
}

#[test]
fn test_color_rule_exact_match() {
    let rule = ColorRule::new(
        "test_rule".to_string(),
        RgbColor::new(198, 239, 206),
        Some(0),
    );

    let mut row = RowData {
        row_index: 0,
        cells: vec![cell(0, "Test", Some(RgbColor::new(198, 239, 206)), None)],
    };

    assert!(rule.matches(&row));

    row.cells[0].style.background_color = Some(RgbColor::new(198, 239, 207));
    assert!(!rule.matches(&row));
}

#[test]
fn test_color_rule_no_background_treated_as_white() {
    let rule = ColorRule::new("white_rule".to_string(), RgbColor::white(), Some(0));

    let row = RowData {
        row_index: 0,
        cells: vec![cell(0, "Test", None, None)],
    };

    assert!(rule.matches(&row));
}

#[test]
fn test_color_rule_first_non_empty_cell() {
    let rule = ColorRule::new(
        "test_rule".to_string(),
        RgbColor::new(217, 217, 217),
        None,
    );

    let row = RowData {
        row_index: 0,
        cells: vec![
            cell(0, "", None, None),
            cell(1, "Test", Some(RgbColor::new(217, 217, 217)), None),
        ],
    };

    assert!(rule.matches(&row));
}

#[test]
fn test_color_rule_none_matches_nothing_on_blank_row() {
    let rule = ColorRule::new("any".to_string(), RgbColor::white(), None);
    let row = RowData {
        row_index: 0,
        cells: vec![cell(0, "   ", None, None), cell(1, "\t", None, None)],
    };
    assert!(!rule.matches(&row));
}

#[test]
fn test_exact_match_case_sensitive() {
    let rule = TextPatternRule::new(
        "exact_rule".to_string(),
        1,
        TextPattern::Exact("柜号:".to_string()),
        true,
    );

    let row = RowData {
        row_index: 0,
        cells: vec![cell(0, "A", None, None), cell(1, "柜号:", None, None)],
    };

    assert!(rule.matches(&row));

    let row2 = RowData {
        row_index: 0,
        cells: vec![cell(0, "A", None, None), cell(1, "柜号：", None, None)],
    };

    assert!(!rule.matches(&row2));
}

#[test]
fn test_contains_case_insensitive() {
    let rule = TextPatternRule::new(
        "contains_rule".to_string(),
        0,
        TextPattern::Contains("小计".to_string()),
        false,
    );

    let row = RowData {
        row_index: 0,
        cells: vec![cell(0, "  小计: 100  ", None, None)],
    };

    assert!(rule.matches(&row));
}

#[test]
fn test_exact_case_insensitive_ascii() {
    let rule = TextPatternRule::new(
        "exact_ci".to_string(),
        0,
        TextPattern::Exact("Total".to_string()),
        false,
    );
    let row = RowData {
        row_index: 0,
        cells: vec![cell(0, "  TOTAL ", None, None)],
    };
    assert!(rule.matches(&row));
}

#[test]
fn test_regex_pattern_matches_project_numbers() {
    let rule = TextPatternRule::new(
        "regex_rule".to_string(),
        0,
        TextPattern::Regex(r"^G\d{2}E-\d+-\d+$".to_string()),
        true,
    );

    let row = RowData {
        row_index: 0,
        cells: vec![cell(0, "G00E-500009085-00011", None, None)],
    };

    assert!(rule.matches(&row));

    let row2 = RowData {
        row_index: 0,
        cells: vec![cell(0, "Invalid", None, None)],
    };

    assert!(!rule.matches(&row2));
}

#[test]
fn test_invalid_regex_returns_false() {
    let rule = TextPatternRule::new(
        "bad_regex_rule".to_string(),
        0,
        TextPattern::Regex("[invalid(".to_string()),
        true,
    );

    let row = RowData {
        row_index: 0,
        cells: vec![cell(0, "Test", None, None)],
    };

    assert!(!rule.matches(&row));
}

#[test]
fn test_regex_case_insensitive_flag() {
    let rule = TextPatternRule::new(
        "regex_ci".to_string(),
        0,
        TextPattern::Regex("^total$".to_string()),
        false,
    );
    let row = RowData {
        row_index: 0,
        cells: vec![cell(0, "TOTAL", None, None)],
    };
    assert!(rule.matches(&row));
}

#[test]
fn test_merged_across_exact_range() {
    let rule = MergeStateRule::new(
        "merged_rule".to_string(),
        MergeRequirement::MergedAcross { start_col: 0, end_col: 10 },
    );

    let row = RowData {
        row_index: 0,
        cells: vec![cell(
            0,
            "Merged Cell",
            None,
            Some(MergeInfo { start_col: 0, end_col: 10, start_row: 0, end_row: 0 }),
        )],
    };

    assert!(rule.matches(&row));

    let row2 = RowData {
        row_index: 0,
        cells: vec![cell(
            0,
            "Merged Cell",
            None,
            Some(MergeInfo { start_col: 0, end_col: 5, start_row: 0, end_row: 0 }),
        )],
    };

    assert!(!rule.matches(&row2));
}

#[test]
fn test_merged_min_columns() {
    let rule = MergeStateRule::new(
        "min_cols_rule".to_string(),
        MergeRequirement::MergedMinColumns(5),
    );

    let row = RowData {
        row_index: 0,
        cells: vec![cell(
            0,
            "Merged Cell",
            None,
            Some(MergeInfo { start_col: 0, end_col: 6, start_row: 0, end_row: 0 }),
        )],
    };

    assert!(rule.matches(&row));

    let row2 = RowData {
        row_index: 0,
        cells: vec![cell(
            0,
            "Merged Cell",
            None,
            Some(MergeInfo { start_col: 0, end_col: 3, start_row: 0, end_row: 0 }),
        )],
    };

    assert!(!rule.matches(&row2));
}

#[test]
fn test_not_merged() {
    let rule = MergeStateRule::new("not_merged_rule".to_string(), MergeRequirement::NotMerged);

    let row = RowData {
        row_index: 0,
        cells: vec![cell(0, "Cell 1", None, None), cell(1, "Cell 2", None, None)],
    };

    assert!(rule.matches(&row));

    let row2 = RowData {
        row_index: 0,
        cells: vec![cell(
            0,
            "Merged Cell",
            None,
            Some(MergeInfo { start_col: 0, end_col: 1, start_row: 0, end_row: 0 }),
        )],
    };

    assert!(!rule.matches(&row2));
}

#[test]
fn test_partial_merge() {
    let rule = MergeStateRule::new(
        "merged_rule".to_string(),
        MergeRequirement::MergedMinColumns(3),
    );

    let row = RowData {
        row_index: 0,
        cells: vec![
            cell(0, "Normal Cell", None, None),
            cell(
                1,
                "Merged Cell",
                None,
                Some(MergeInfo { start_col: 1, end_col: 5, start_row: 0, end_row: 0 }),
            ),
        ],
    };

    assert!(rule.matches(&row));
}

#[test]
fn test_and_logic_all_match() {
    let color_rule = RecognitionRule::Color(ColorRule::new(
        "color".to_string(),
        RgbColor::new(255, 204, 253),
        Some(0),
    ));

    let text_rule = RecognitionRule::TextPattern(TextPatternRule::new(
        "text".to_string(),
        0,
        TextPattern::Contains("小计".to_string()),
        false,
    ));

    let composite = RecognitionRule::Composite(CompositeRule::and(
        "and_rule".to_string(),
        vec![color_rule, text_rule],
    ));

    let row = RowData {
        row_index: 0,
        cells: vec![cell(0, "小计: 100", Some(RgbColor::new(255, 204, 253)), None)],
    };

    assert!(composite.matches(&row));
}

#[test]
fn test_and_logic_one_fails() {
    let color_rule = RecognitionRule::Color(ColorRule::new(
        "color".to_string(),
        RgbColor::new(255, 204, 253),
        Some(0),
    ));

    let text_rule = RecognitionRule::TextPattern(TextPatternRule::new(
        "text".to_string(),
        0,
        TextPattern::Contains("单台合计".to_string()),
        false,
    ));

    let composite = RecognitionRule::Composite(CompositeRule::and(
        "and_rule".to_string(),
        vec![color_rule, text_rule],
    ));

    let row = RowData {
        row_index: 0,
        cells: vec![cell(0, "小计: 100", Some(RgbColor::new(255, 204, 253)), None)],
    };

    assert!(!composite.matches(&row));
}

#[test]
fn test_or_logic_one_matches() {
    let color_rule = RecognitionRule::Color(ColorRule::new(
        "color".to_string(),
        RgbColor::new(127, 150, 152),
        Some(0),
    ));

    let text_rule = RecognitionRule::TextPattern(TextPatternRule::new(
        "text".to_string(),
        1,
        TextPattern::Contains("柜号:".to_string()),
        false,
    ));

    let composite = RecognitionRule::Composite(CompositeRule::or(
        "or_rule".to_string(),
        vec![color_rule, text_rule],
    ));

    let row = RowData {
        row_index: 0,
        cells: vec![cell(0, "A", None, None), cell(1, "柜号: 1-1", None, None)],
    };

    assert!(composite.matches(&row));
}

#[test]
fn test_or_logic_none_match() {
    let color_rule = RecognitionRule::Color(ColorRule::new(
        "color".to_string(),
        RgbColor::new(127, 150, 152),
        Some(0),
    ));

    let text_rule = RecognitionRule::TextPattern(TextPatternRule::new(
        "text".to_string(),
        1,
        TextPattern::Contains("柜号:".to_string()),
        false,
    ));

    let composite = RecognitionRule::Composite(CompositeRule::or(
        "or_rule".to_string(),
        vec![color_rule, text_rule],
    ));

    let row = RowData {
        row_index: 0,
        cells: vec![cell(0, "A", None, None), cell(1, "Other text", None, None)],
    };

    assert!(!composite.matches(&row));
}

#[test]
fn test_nested_composite() {
    let inner_and = RecognitionRule::Composite(CompositeRule::and(
        "inner_and".to_string(),
        vec![
            RecognitionRule::Color(ColorRule::new(
                "color".to_string(),
                RgbColor::new(198, 239, 206),
                Some(0),
            )),
            RecognitionRule::TextPattern(TextPatternRule::new(
                "text1".to_string(),
                0,
                TextPattern::Contains("G00E".to_string()),
                false,
            )),
        ],
    ));

    let outer_or = RecognitionRule::Composite(CompositeRule::or(
        "outer_or".to_string(),
        vec![
            inner_and,
            RecognitionRule::TextPattern(TextPatternRule::new(
                "text2".to_string(),
                0,
                TextPattern::Contains("项目".to_string()),
                false,
            )),
        ],
    ));

    let row = RowData {
        row_index: 0,
        cells: vec![cell(0, "项目编号", None, None)],
    };

    assert!(outer_or.matches(&row));
}

#[test]
fn test_empty_and_matches_everything_with_zero_confidence() {
    let empty_and =
        RecognitionRule::Composite(CompositeRule::and("empty_and".to_string(), vec![]));
    let row = RowData {
        row_index: 3,
        cells: vec![cell(0, "anything", Some(RgbColor::new(1, 2, 3)), None)],
    };
    assert!(empty_and.matches(&row));
    assert_eq!(empty_and.confidence(), 0);
}

#[test]
fn test_empty_or_matches_nothing_with_zero_confidence() {
    let empty_or = RecognitionRule::Composite(CompositeRule::or("empty_or".to_string(), vec![]));
    let row = RowData {
        row_index: 3,
        cells: vec![cell(0, "anything", None, None)],
    };
    assert!(!empty_or.matches(&row));
    assert_eq!(empty_or.confidence(), 0);
}

#[test]
fn test_confidence_mean_and_max() {
    let plain = RecognitionRule::Color(ColorRule::new(
        "plain".to_string(),
        RgbColor::white(),
        None,
    ));
    assert_eq!(plain.confidence(), CONFIDENCE_UNIT);

    let empty_and =
        RecognitionRule::Composite(CompositeRule::and("empty".to_string(), vec![]));
    let full = RecognitionRule::Color(ColorRule::new("full".to_string(), RgbColor::white(), None));
    // The mean of confidences 0 and 1.0 is 0.5.
    let half = RecognitionRule::Composite(CompositeRule::and(
        "half".to_string(),
        vec![empty_and, full],
    ));
    assert_eq!(half.confidence(), CONFIDENCE_UNIT / 2);

    let zero = RecognitionRule::Composite(CompositeRule::and("zero".to_string(), vec![]));
    let or_rule = RecognitionRule::Composite(CompositeRule::or(
        "max".to_string(),
        vec![
            zero,
            RecognitionRule::Color(ColorRule::new("c".to_string(), RgbColor::white(), None)),
        ],
    ));
    assert_eq!(or_rule.confidence(), CONFIDENCE_UNIT);
}

#[test]
fn test_rule_name() {
    let rule = RecognitionRule::MergeState(MergeStateRule::new(
        "merge_name".to_string(),
        MergeRequirement::NotMerged,
    ));
    assert_eq!(rule.name(), "merge_name");
}
