use integrated_power::identifier::RowTypeIdentifier;
use integrated_power::models::{
    CellData, CellStyle, MergeInfo, RgbColor, RowData, RowIdentificationResult, RowType,
    WorksheetData,
};
use integrated_power::profile::{FileTypeProfile, RowTypeDefinition};
use integrated_power::rules::{
    ColorRule, RecognitionRule, TextPattern, TextPatternRule, CONFIDENCE_UNIT,
};
use integrated_power::summary::summarize_cargo_rows;

fn white_rule(name: &str) -> RecognitionRule {
    RecognitionRule::Color(ColorRule::new(name.to_string(), RgbColor::white(), None))
}

fn color_cell(content: &str, bg: Option<RgbColor>, merge: Option<MergeInfo>) -> CellData {
    CellData {
        column_index: 0,
        content: content.to_string(),
        style: CellStyle { background_color: bg, ..Default::default() },
        merge_info: merge,
    }
}

#[test]
fn test_cargo_analysis_profile_creation() {
    let profile = FileTypeProfile::cargo_analysis();

    assert_eq!(profile.name, "cargo_analysis");
    assert_eq!(profile.description, "货物分析表配置");

    assert_eq!(profile.row_type_definitions.len(), 7);

    assert!(profile.validate().is_ok());
}

#[test]
fn test_profile_priority_sorting() {
    let profile = FileTypeProfile::cargo_analysis();

    let priorities: Vec<u8> = profile
        .row_type_definitions
        .iter()
        .map(|def| def.priority)
        .collect();

    for i in 0..priorities.len() - 1 {
        assert!(priorities[i] >= priorities[i + 1]);
    }
}

#[test]
fn test_profile_validation() {
    let empty_profile = FileTypeProfile::new("test".to_string(), "test".to_string());

    assert!(empty_profile.validate().is_err());

    let cargo_profile = FileTypeProfile::cargo_analysis();
    assert!(cargo_profile.validate().is_ok());
}

#[test]
fn test_profile_validation_message() {
    let empty_profile = FileTypeProfile::new("demo".to_string(), "d".to_string());
    let err = empty_profile.validate().unwrap_err();
    assert_eq!(err, "File type profile 'demo' has no row type definitions");
}

#[test]
fn test_auxiliary_material_profile() {
    let profile = FileTypeProfile::auxiliary_material();

    assert_eq!(profile.name, "auxiliary_material");
    assert!(profile.validate().is_ok());
}

#[test]
fn test_add_row_type() {
    let mut profile = FileTypeProfile::new("test".to_string(), "test".to_string());

    profile.add_row_type(RowTypeDefinition::new(
        RowType::Header,
        "Header".to_string(),
        "Test header".to_string(),
        white_rule("test"),
        5,
    ));

    profile.add_row_type(RowTypeDefinition::new(
        RowType::Data,
        "Data".to_string(),
        "Test data".to_string(),
        white_rule("test"),
        3,
    ));

    assert_eq!(profile.row_type_definitions.len(), 2);

    assert_eq!(profile.row_type_definitions[0].priority, 5);
    assert_eq!(profile.row_type_definitions[1].priority, 3);
}

#[test]
fn test_add_row_type_keeps_sorted_and_stable() {
    let mut profile = FileTypeProfile::new("t".to_string(), "t".to_string());
    profile.add_row_type(RowTypeDefinition::new(
        RowType::Custom("a".to_string()),
        "a".to_string(),
        "".to_string(),
        white_rule("first_five"),
        5,
    ));
    profile.add_row_type(RowTypeDefinition::new(
        RowType::Custom("b".to_string()),
        "b".to_string(),
        "".to_string(),
        white_rule("nine"),
        9,
    ));
    profile.add_row_type(RowTypeDefinition::new(
        RowType::Custom("c".to_string()),
        "c".to_string(),
        "".to_string(),
        white_rule("second_five"),
        5,
    ));
    let names: Vec<&str> = profile
        .row_type_definitions
        .iter()
        .map(|d| d.rule.name())
        .collect();
    assert_eq!(names, vec!["nine", "first_five", "second_five"]);
    let priorities: Vec<u8> = profile
        .row_type_definitions
        .iter()
        .map(|d| d.priority)
        .collect();
    assert_eq!(priorities, vec![9, 5, 5]);
}

#[test]
fn test_identify_row_project_number() {
    let profile = FileTypeProfile::cargo_analysis();
    let identifier = RowTypeIdentifier::new(profile);

    let row = RowData {
        row_index: 11,
        cells: vec![color_cell(
            "G00E-500009085-00011",
            Some(RgbColor::new(198, 239, 206)),
            Some(MergeInfo { start_col: 0, end_col: 10, start_row: 11, end_row: 11 }),
        )],
    };

    let result = identifier.identify_row(&row);
    assert_eq!(result.row_type, RowType::ProjectNumber);
    assert_eq!(result.row_index, 11);
}

#[test]
fn test_identify_row_header() {
    let profile = FileTypeProfile::cargo_analysis();
    let identifier = RowTypeIdentifier::new(profile);

    let row = RowData {
        row_index: 13,
        cells: vec![color_cell("序号", Some(RgbColor::new(217, 217, 217)), None)],
    };

    let result = identifier.identify_row(&row);
    assert_eq!(result.row_type, RowType::Header);
}

#[test]
fn test_identify_row_data() {
    let profile = FileTypeProfile::cargo_analysis();
    let identifier = RowTypeIdentifier::new(profile);

    let row = RowData {
        row_index: 14,
        cells: vec![color_cell("1", None, None)],
    };

    let result = identifier.identify_row(&row);
    assert_eq!(result.row_type, RowType::Data);
}

#[test]
fn test_identify_row_unknown() {
    let profile = FileTypeProfile::cargo_analysis();
    let identifier = RowTypeIdentifier::new(profile);

    let row = RowData {
        row_index: 0,
        cells: vec![color_cell("Test", Some(RgbColor::new(100, 100, 100)), None)],
    };

    let result = identifier.identify_row(&row);
    assert_eq!(result.row_type, RowType::Unknown);
    assert_eq!(result.confidence, 0);
    assert_eq!(result.matched_rule, "none");
}

#[test]
fn test_identify_all_rows() {
    let profile = FileTypeProfile::cargo_analysis();
    let identifier = RowTypeIdentifier::new(profile);

    let worksheet = WorksheetData {
        name: "Test".to_string(),
        rows: vec![
            RowData {
                row_index: 0,
                cells: vec![color_cell("序号", Some(RgbColor::new(217, 217, 217)), None)],
            },
            RowData {
                row_index: 1,
                cells: vec![color_cell("1", None, None)],
            },
        ],
    };

    let results = identifier.identify_all_rows(&worksheet);
    assert_eq!(results.len(), 2);
    assert_eq!(results[0].row_type, RowType::Header);
    assert_eq!(results[1].row_type, RowType::Data);
}

#[test]
fn test_get_statistics() {
    let profile = FileTypeProfile::cargo_analysis();
    let identifier = RowTypeIdentifier::new(profile);

    let results = vec![
        RowIdentificationResult {
            row_index: 0,
            row_type: RowType::Header,
            matched_rule: "test".to_string(),
            confidence: CONFIDENCE_UNIT,
        },
        RowIdentificationResult {
            row_index: 1,
            row_type: RowType::Data,
            matched_rule: "test".to_string(),
            confidence: CONFIDENCE_UNIT,
        },
        RowIdentificationResult {
            row_index: 2,
            row_type: RowType::Data,
            matched_rule: "test".to_string(),
            confidence: CONFIDENCE_UNIT,
        },
        RowIdentificationResult {
            row_index: 3,
            row_type: RowType::Unknown,
            matched_rule: "none".to_string(),
            confidence: 0,
        },
    ];

    let stats = identifier.get_statistics(&results);
    assert_eq!(stats.total_rows, 4);
    assert_eq!(stats.unknown_count, 1);
    // 0.75 of 1.0, in millionths.
    assert_eq!(stats.success_rate, 750_000);
    assert_eq!(stats.success_rate as f32 / 1_000_000.0, 0.75);
}

#[test]
fn test_statistics_count_table() {
    let identifier = RowTypeIdentifier::new(FileTypeProfile::cargo_analysis());
    let results = vec![
        RowIdentificationResult {
            row_index: 0,
            row_type: RowType::Data,
            matched_rule: "a".to_string(),
            confidence: CONFIDENCE_UNIT,
        },
        RowIdentificationResult {
            row_index: 1,
            row_type: RowType::Data,
            matched_rule: "a".to_string(),
            confidence: CONFIDENCE_UNIT,
        },
        RowIdentificationResult {
            row_index: 2,
            row_type: RowType::Header,
            matched_rule: "b".to_string(),
            confidence: CONFIDENCE_UNIT,
        },
    ];
    let stats = identifier.get_statistics(&results);
    assert_eq!(stats.row_type_counts.len(), 2);
    let mut data_count = 0;
    let mut header_count = 0;
    for (rt, n) in &stats.row_type_counts {
        if *rt == RowType::Data {
            data_count = *n;
        }
        if *rt == RowType::Header {
            header_count = *n;
        }
    }
    assert_eq!(data_count, 2);
    assert_eq!(header_count, 1);
    assert_eq!(stats.unknown_count, 0);
    assert_eq!(stats.success_rate, 1_000_000);
}

#[test]
fn test_empty_statistics() {
    let identifier = RowTypeIdentifier::new(FileTypeProfile::auxiliary_material());
    let results: Vec<RowIdentificationResult> = vec![];
    let stats = identifier.get_statistics(&results);
    assert_eq!(stats.total_rows, 0);
    assert_eq!(stats.unknown_count, 0);
    assert_eq!(stats.success_rate, 0);
}

#[test]
fn test_debug_mode() {
    let profile = FileTypeProfile::cargo_analysis();
    let identifier = RowTypeIdentifier::new(profile).with_debug(true);

    let row = RowData {
        row_index: 0,
        cells: vec![color_cell("Test", None, None)],
    };

    let _result = identifier.identify_row(&row);
}

#[test]
fn test_first_match_wins_on_priority() {
    // A row whose first non-empty cell is green matches both the green rule
    // (priority 9) and fails the white rule (priority 1); it must classify as
    // the priority-9 type.
    let mut profile = FileTypeProfile::new("scenario".to_string(), "".to_string());
    profile.add_row_type(RowTypeDefinition::new(
        RowType::Custom("green".to_string()),
        "green".to_string(),
        "".to_string(),
        RecognitionRule::Color(ColorRule::new(
            "green_rule".to_string(),
            RgbColor::new(198, 239, 206),
            None,
        )),
        9,
    ));
    profile.add_row_type(RowTypeDefinition::new(
        RowType::Custom("white".to_string()),
        "white".to_string(),
        "".to_string(),
        RecognitionRule::Color(ColorRule::new(
            "white_rule".to_string(),
            RgbColor::white(),
            None,
        )),
        1,
    ));
    let identifier = RowTypeIdentifier::new(profile);
    let row = RowData {
        row_index: 4,
        cells: vec![color_cell("x", Some(RgbColor::new(198, 239, 206)), None)],
    };
    let result = identifier.identify_row(&row);
    assert_eq!(result.row_type, RowType::Custom("green".to_string()));
    assert_eq!(result.matched_rule, "green_rule");
    assert_eq!(result.confidence, CONFIDENCE_UNIT);
}

#[test]
fn test_first_match_wins_same_matching_rules() {
    // Two definitions whose rules both match: the earlier (higher-priority)
    // definition's type wins even though the later also matches.
    let mut profile = FileTypeProfile::new("scenario2".to_string(), "".to_string());
    profile.add_row_type(RowTypeDefinition::new(
        RowType::SubTotal,
        "low".to_string(),
        "".to_string(),
        white_rule("low_rule"),
        2,
    ));
    profile.add_row_type(RowTypeDefinition::new(
        RowType::Header,
        "high".to_string(),
        "".to_string(),
        white_rule("high_rule"),
        8,
    ));
    let identifier = RowTypeIdentifier::new(profile);
    let row = RowData {
        row_index: 0,
        cells: vec![color_cell("v", None, None)],
    };
    let result = identifier.identify_row(&row);
    assert_eq!(result.row_type, RowType::Header);
    assert_eq!(result.matched_rule, "high_rule");
}

#[test]
fn test_check_priority_conflicts() {
    let mut profile = FileTypeProfile::new("conflicts".to_string(), "".to_string());
    profile.add_row_type(RowTypeDefinition::new(
        RowType::Header,
        "a".to_string(),
        "".to_string(),
        white_rule("a_rule"),
        5,
    ));
    profile.add_row_type(RowTypeDefinition::new(
        RowType::Data,
        "b".to_string(),
        "".to_string(),
        white_rule("b_rule"),
        5,
    ));
    profile.add_row_type(RowTypeDefinition::new(
        RowType::SubTotal,
        "c".to_string(),
        "".to_string(),
        white_rule("c_rule"),
        3,
    ));
    let identifier = RowTypeIdentifier::new(profile);
    let row = RowData {
        row_index: 0,
        cells: vec![color_cell("v", None, None)],
    };
    let conflicts = identifier.check_priority_conflicts(&row);
    // All three rules match, but only the two priority-5 definitions tie.
    assert_eq!(conflicts, vec![(0, 1)]);
    // The diagnostic does not change identification.
    let result = identifier.identify_row(&row);
    assert_eq!(result.row_type, RowType::Header);
}

#[test]
fn test_validate_rejects_invalid_regex_at_build_time() {
    let mut profile = FileTypeProfile::new("strict".to_string(), "".to_string());
    profile.add_row_type(RowTypeDefinition::new(
        RowType::Header,
        "h".to_string(),
        "".to_string(),
        RecognitionRule::TextPattern(TextPatternRule::new(
            "bad_pattern_rule".to_string(),
            0,
            TextPattern::Regex("[invalid(".to_string()),
            true,
        )),
        5,
    ));
    let err = profile.validate().unwrap_err();
    assert_eq!(err, "Invalid regex pattern in rule 'bad_pattern_rule': [invalid(");

    let mut good = FileTypeProfile::new("strict2".to_string(), "".to_string());
    good.add_row_type(RowTypeDefinition::new(
        RowType::Header,
        "h".to_string(),
        "".to_string(),
        RecognitionRule::TextPattern(TextPatternRule::new(
            "good_pattern_rule".to_string(),
            0,
            TextPattern::Regex("^h".to_string()),
            true,
        )),
        5,
    ));
    assert!(good.validate().is_ok());
}

#[test]
fn test_summarize_cargo_rows() {
    let identifier = RowTypeIdentifier::new(FileTypeProfile::cargo_analysis());
    let worksheet = WorksheetData {
        name: "货物".to_string(),
        rows: vec![
            RowData {
                row_index: 0,
                cells: vec![color_cell(
                    "G00E-500009085-00011",
                    Some(RgbColor::new(198, 239, 206)),
                    Some(MergeInfo { start_col: 0, end_col: 10, start_row: 0, end_row: 0 }),
                )],
            },
            RowData {
                row_index: 1,
                cells: vec![
                    color_cell("A", Some(RgbColor::new(127, 150, 152)), None),
                    color_cell("柜号: 1-1", None, None),
                ],
            },
            RowData {
                row_index: 2,
                cells: vec![color_cell("1", None, None)],
            },
            RowData {
                row_index: 3,
                cells: vec![color_cell("2", None, None)],
            },
        ],
    };
    let results = identifier.identify_all_rows(&worksheet);
    let grouped = summarize_cargo_rows(&worksheet, &results);
    assert_eq!(grouped.project_numbers, vec!["G00E-500009085-00011".to_string()]);
    assert_eq!(grouped.cabinet_numbers, vec!["柜号: 1-1".to_string()]);
    assert_eq!(grouped.data_row_count, 2);
}
