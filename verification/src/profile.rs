//! Row-type profiles: the prioritised bindings from recognition rules to row
//! types that describe one family of documents, kept sorted by priority.

use vstd::prelude::*;

use crate::identification_error::IdentificationError;
use crate::models::RgbColor;
use crate::models::RowType;
use crate::rules::ColorRule;
use crate::rules::CompositeLogic;
use crate::rules::CompositeRule;
use crate::rules::MergeRequirement;
use crate::rules::MergeStateRule;
use crate::rules::RecognitionRule;
use crate::rules::TextPattern;
use crate::rules::TextPatternRule;
use crate::rules::spec_invalid_regex_in_rule;
use crate::rules::spec_rule_regexes_valid;

verus! {

/// One row archetype: the row type to assign, display metadata, the rule that
/// recognises it, and its priority from 0 to 9 (9 highest).
#[derive(Debug)]
pub struct RowTypeDefinition {
    pub row_type: RowType,
    pub display_name: String,
    pub description: String,
    pub rule: RecognitionRule,
    pub priority: u8,
}

impl RowTypeDefinition {
    /// Builds a definition from its parts.
    pub fn new(
        row_type: RowType,
        display_name: String,
        description: String,
        rule: RecognitionRule,
        priority: u8,
    ) -> (r: RowTypeDefinition)
        ensures
            r.row_type == row_type,
            r.display_name == display_name,
            r.description == description,
            r.rule == rule,
            r.priority == priority,
    {
        RowTypeDefinition { row_type, display_name, description, rule, priority }
    }
}

/// The definitions are ordered by non-increasing priority.
pub open spec fn sorted_by_priority_desc(defs: Seq<RowTypeDefinition>) -> bool {
    forall|i: int, j: int|
        0 <= i < j < defs.len() ==> (#[trigger] defs[i]).priority >= (#[trigger] defs[j]).priority
}

/// Where a definition of priority `p` is inserted: directly after every
/// definition whose priority is at least `p`, so that insertion keeps the
/// list sorted and ties keep their insertion order.
pub open spec fn spec_insert_pos(defs: Seq<RowTypeDefinition>, p: u8) -> int
    decreases defs.len(),
{
    if defs.len() == 0 {
        0
    } else if defs[0].priority < p {
        0
    } else {
        1 + spec_insert_pos(defs.subrange(1, defs.len() as int), p)
    }
}

proof fn lemma_insert_pos_properties(defs: Seq<RowTypeDefinition>, p: u8)
    ensures
        0 <= spec_insert_pos(defs, p) <= defs.len(),
        forall|i: int|
            0 <= i < spec_insert_pos(defs, p) ==> (#[trigger] defs[i]).priority >= p,
        spec_insert_pos(defs, p) < defs.len() ==> defs[spec_insert_pos(defs, p)].priority < p,
    decreases defs.len(),
{
    if defs.len() > 0 && defs[0].priority >= p {
        let rest = defs.subrange(1, defs.len() as int);
        lemma_insert_pos_properties(rest, p);
        assert(forall|i: int| 0 <= i < rest.len() ==> rest[i] == defs[i + 1]);
        assert forall|i: int| 0 <= i < spec_insert_pos(defs, p) implies (#[trigger] defs[i]).priority
            >= p by {
            if i > 0 {
                assert(rest[i - 1] == defs[i]);
                assert(0 <= i - 1 < spec_insert_pos(rest, p));
            }
        }
    }
}

/// The project-number archetype: priority 9, an AND of the light-green
/// first-cell colour rule and the exact column-0-to-10 merge rule.
pub open spec fn spec_cargo_project_def(d: RowTypeDefinition) -> bool {
    &&& d.row_type == RowType::ProjectNumber
    &&& d.priority == 9
    &&& (d.rule matches RecognitionRule::Composite(c) && c.logic == CompositeLogic::And
        && c.name@ == "project_number_rule"@ && c.rules@.len() == 2 && (c.rules@[0]
        matches RecognitionRule::Color(cr) && cr.name@ == "green_background"@ && cr.target_color
        == (RgbColor { r: 198u8, g: 239u8, b: 206u8 }) && cr.column_index is None) && (c.rules@[1]
        matches RecognitionRule::MergeState(m) && m.name@ == "merged_across_columns"@
        && m.merge_requirement == (MergeRequirement::MergedAcross {
        start_col: 0usize,
        end_col: 10usize,
    })))
}

/// The cabinet-number archetype: priority 8, an OR of the grey-blue
/// first-cell colour rule and the case-insensitive cabinet label in column 1.
pub open spec fn spec_cargo_cabinet_def(d: RowTypeDefinition) -> bool {
    &&& d.row_type == RowType::CabinetNumber
    &&& d.priority == 8
    &&& (d.rule matches RecognitionRule::Composite(c) && c.logic == CompositeLogic::Or && c.name@
        == "cabinet_number_rule"@ && c.rules@.len() == 2 && (c.rules@[0]
        matches RecognitionRule::Color(cr) && cr.name@ == "gray_blue_background"@
        && cr.target_color == (RgbColor { r: 127u8, g: 150u8, b: 152u8 }) && cr.column_index
        is None) && (c.rules@[1] matches RecognitionRule::TextPattern(t) && t.name@
        == "cabinet_text"@ && t.column_index == 1 && !t.case_sensitive && (t.pattern
        matches TextPattern::Contains(s) && s@ == "柜号:"@)))
}

/// The header archetype: priority 7, the light-grey first-cell colour rule.
pub open spec fn spec_cargo_header_def(d: RowTypeDefinition) -> bool {
    &&& d.row_type == RowType::Header
    &&& d.priority == 7
    &&& (d.rule matches RecognitionRule::Color(cr) && cr.name@ == "gray_background"@
        && cr.target_color == (RgbColor { r: 217u8, g: 217u8, b: 217u8 }) && cr.column_index
        is None)
}

/// The unit-total archetype: priority 6, an AND of the pink first-cell
/// colour rule and the case-insensitive unit-total label in column 0.
pub open spec fn spec_cargo_unit_total_def(d: RowTypeDefinition) -> bool {
    &&& d.row_type == RowType::UnitTotal
    &&& d.priority == 6
    &&& (d.rule matches RecognitionRule::Composite(c) && c.logic == CompositeLogic::And
        && c.name@ == "unit_total_rule"@ && c.rules@.len() == 2 && (c.rules@[0]
        matches RecognitionRule::Color(cr) && cr.name@ == "pink_background"@ && cr.target_color
        == (RgbColor { r: 255u8, g: 204u8, b: 253u8 }) && cr.column_index is None) && (c.rules@[1]
        matches RecognitionRule::TextPattern(t) && t.name@ == "unit_total_text"@ && t.column_index
        == 0 && !t.case_sensitive && (t.pattern matches TextPattern::Contains(s) && s@
        == "单台合计"@)))
}

/// The subtotal archetype: priority 6, an AND of the pink first-cell colour
/// rule and the case-insensitive subtotal label in column 0.
pub open spec fn spec_cargo_subtotal_def(d: RowTypeDefinition) -> bool {
    &&& d.row_type == RowType::SubTotal
    &&& d.priority == 6
    &&& (d.rule matches RecognitionRule::Composite(c) && c.logic == CompositeLogic::And
        && c.name@ == "subtotal_rule"@ && c.rules@.len() == 2 && (c.rules@[0]
        matches RecognitionRule::Color(cr) && cr.name@ == "pink_background"@ && cr.target_color
        == (RgbColor { r: 255u8, g: 204u8, b: 253u8 }) && cr.column_index is None) && (c.rules@[1]
        matches RecognitionRule::TextPattern(t) && t.name@ == "subtotal_text"@ && t.column_index
        == 0 && !t.case_sensitive && (t.pattern matches TextPattern::Contains(s) && s@
        == "小计"@)))
}

/// The grand-total archetype: priority 5, an AND of the pink first-cell
/// colour rule and the case-insensitive grand-total label in column 0.
pub open spec fn spec_cargo_grand_total_def(d: RowTypeDefinition) -> bool {
    &&& d.row_type == RowType::GrandTotal
    &&& d.priority == 5
    &&& (d.rule matches RecognitionRule::Composite(c) && c.logic == CompositeLogic::And
        && c.name@ == "grand_total_rule"@ && c.rules@.len() == 2 && (c.rules@[0]
        matches RecognitionRule::Color(cr) && cr.name@ == "pink_background"@ && cr.target_color
        == (RgbColor { r: 255u8, g: 204u8, b: 253u8 }) && cr.column_index is None) && (c.rules@[1]
        matches RecognitionRule::TextPattern(t) && t.name@ == "grand_total_text"@
        && t.column_index == 0 && !t.case_sensitive && (t.pattern
        matches TextPattern::Contains(s) && s@ == "总计"@)))
}

/// The data archetype: priority 1, the white-or-unstyled first-cell colour
/// rule.
pub open spec fn spec_cargo_data_def(d: RowTypeDefinition) -> bool {
    &&& d.row_type == RowType::Data
    &&& d.priority == 1
    &&& (d.rule matches RecognitionRule::Color(cr) && cr.name@ == "white_or_no_background"@
        && cr.target_color == (RgbColor { r: 255u8, g: 255u8, b: 255u8 }) && cr.column_index
        is None)
}

/// The auxiliary-material default archetype: priority 1, the white-or-
/// unstyled first-cell colour rule under the default rule name.
pub open spec fn spec_auxiliary_default_def(d: RowTypeDefinition) -> bool {
    &&& d.row_type == RowType::Data
    &&& d.priority == 1
    &&& (d.rule matches RecognitionRule::Color(cr) && cr.name@ == "default_rule"@
        && cr.target_color == (RgbColor { r: 255u8, g: 255u8, b: 255u8 }) && cr.column_index
        is None)
}

/// Every regular expression held by any of the definitions' rules is
/// accepted by the regex engine.
pub open spec fn profile_regexes_valid(defs: Seq<RowTypeDefinition>) -> bool {
    forall|k: int| 0 <= k < defs.len() ==> spec_rule_regexes_valid((#[trigger] defs[k]).rule)
}

/// A named collection of row-type definitions for one document family,
/// sorted by non-increasing priority at all times.
#[derive(Debug)]
pub struct FileTypeProfile {
    pub name: String,
    pub description: String,
    pub row_type_definitions: Vec<RowTypeDefinition>,
}

impl FileTypeProfile {
    /// The profile's definitions are sorted by non-increasing priority.
    pub open spec fn wf(self) -> bool {
        sorted_by_priority_desc(self.row_type_definitions@)
    }

    /// Builds an empty profile, which is trivially sorted.
    pub fn new(name: String, description: String) -> (r: FileTypeProfile)
        ensures
            r.name == name,
            r.description == description,
            r.row_type_definitions@.len() == 0,
            r.wf(),
    {
        FileTypeProfile { name, description, row_type_definitions: Vec::new() }
    }

    /// Adds a definition, keeping the list sorted by non-increasing priority;
    /// a definition whose priority ties an existing one goes after it, as a
    /// stable sort would leave them.
    #[verifier::loop_isolation(false)]
    pub fn add_row_type(&mut self, definition: RowTypeDefinition)
        requires
            old(self).wf(),
        ensures
            final(self).wf(),
            final(self).name == old(self).name,
            final(self).description == old(self).description,
            final(self).row_type_definitions@ == old(self).row_type_definitions@.insert(
                spec_insert_pos(old(self).row_type_definitions@, definition.priority),
                definition,
            ),
    {
        let n = self.row_type_definitions.len();
        let p = definition.priority;
        let ghost old_defs = self.row_type_definitions@;
        let mut pos: usize = 0;
        while pos < n && self.row_type_definitions[pos].priority >= p
            invariant
                pos <= n,
                forall|i: int| 0 <= i < pos ==> (#[trigger] old_defs[i]).priority >= p,
            decreases n - pos,
        {
            pos += 1;
        }
        proof {
            lemma_insert_pos_properties(old_defs, p);
            if pos < n {
                assert(old_defs[pos as int].priority < p);
            }
            let ip = spec_insert_pos(old_defs, p);
            if ip < pos {
                assert(old_defs[ip].priority >= p);
            }
            if pos < ip {
                assert(old_defs[pos as int].priority >= p);
            }
            assert(pos as int == ip);
        }
        self.row_type_definitions.insert(pos, definition);
        proof {
            let new_defs = self.row_type_definitions@;
            assert forall|i: int, j: int|
                0 <= i < j < new_defs.len() implies (#[trigger] new_defs[i]).priority >= (
            #[trigger] new_defs[j]).priority by {
                lemma_insert_pos_properties(old_defs, p);
                if i < pos && j == pos {
                    assert(new_defs[i] == old_defs[i]);
                } else if i == pos && j > pos {
                    assert(new_defs[j] == old_defs[j - 1]);
                } else if i < pos && j > pos {
                    assert(new_defs[i] == old_defs[i]);
                    assert(new_defs[j] == old_defs[j - 1]);
                } else if i > pos && j > pos {
                    assert(new_defs[i] == old_defs[i - 1]);
                    assert(new_defs[j] == old_defs[j - 1]);
                } else if i < j && j < pos {
                    assert(new_defs[i] == old_defs[i]);
                    assert(new_defs[j] == old_defs[j]);
                }
            }
        }
    }

    /// Builds the profile for cargo analysis sheets, with seven row
    /// archetypes: a light-green merged project-number row (priority 9), a
    /// grey-blue or labelled cabinet-number row (8), a light-grey header row
    /// (7), pink unit-total and subtotal rows (both 6), a pink grand-total
    /// row (5), and a white or unstyled data row (1).
    pub fn cargo_analysis() -> (r: FileTypeProfile)
        ensures
            r.wf(),
            r.name@ == "cargo_analysis"@,
            r.row_type_definitions@.len() == 7,
            spec_cargo_project_def(r.row_type_definitions@[0]),
            spec_cargo_cabinet_def(r.row_type_definitions@[1]),
            spec_cargo_header_def(r.row_type_definitions@[2]),
            spec_cargo_unit_total_def(r.row_type_definitions@[3]),
            spec_cargo_subtotal_def(r.row_type_definitions@[4]),
            spec_cargo_grand_total_def(r.row_type_definitions@[5]),
            spec_cargo_data_def(r.row_type_definitions@[6]),
    {
        let mut profile = Self::new("cargo_analysis".to_owned(), "货物分析表配置".to_owned());

        let mut project_rules: Vec<RecognitionRule> = Vec::new();
        project_rules.push(
            RecognitionRule::Color(
                ColorRule::new("green_background".to_owned(), RgbColor::new(198, 239, 206), None),
            ),
        );
        project_rules.push(
            RecognitionRule::MergeState(
                MergeStateRule::new(
                    "merged_across_columns".to_owned(),
                    MergeRequirement::MergedAcross { start_col: 0, end_col: 10 },
                ),
            ),
        );
        let def_project = RowTypeDefinition::new(
            RowType::ProjectNumber,
            "项目编号行".to_owned(),
            "浅绿色背景，包含项目编号".to_owned(),
            RecognitionRule::Composite(
                CompositeRule::new(
                    "project_number_rule".to_owned(),
                    project_rules,
                    CompositeLogic::And,
                ),
            ),
            9,
        );
        let ghost v1 = def_project;
        profile.add_row_type(def_project);
        proof {
            reveal_with_fuel(spec_insert_pos, 10);
            assert(profile.row_type_definitions@ =~= seq![v1]);
        }

        let mut cabinet_rules: Vec<RecognitionRule> = Vec::new();
        cabinet_rules.push(
            RecognitionRule::Color(
                ColorRule::new(
                    "gray_blue_background".to_owned(),
                    RgbColor::new(127, 150, 152),
                    None,
                ),
            ),
        );
        cabinet_rules.push(
            RecognitionRule::TextPattern(
                TextPatternRule::new(
                    "cabinet_text".to_owned(),
                    1,
                    TextPattern::Contains("柜号:".to_owned()),
                    false,
                ),
            ),
        );
        let def_cabinet = RowTypeDefinition::new(
            RowType::CabinetNumber,
            "柜号行".to_owned(),
            "灰蓝色背景或B列包含'柜号:'".to_owned(),
            RecognitionRule::Composite(
                CompositeRule::new(
                    "cabinet_number_rule".to_owned(),
                    cabinet_rules,
                    CompositeLogic::Or,
                ),
            ),
            8,
        );
        let ghost v2 = def_cabinet;
        profile.add_row_type(def_cabinet);
        proof {
            reveal_with_fuel(spec_insert_pos, 10);
            assert(profile.row_type_definitions@ =~= seq![v1, v2]);
        }

        let def_header = RowTypeDefinition::new(
            RowType::Header,
            "表头行".to_owned(),
            "浅灰色背景".to_owned(),
            RecognitionRule::Color(
                ColorRule::new("gray_background".to_owned(), RgbColor::new(217, 217, 217), None),
            ),
            7,
        );
        let ghost v3 = def_header;
        profile.add_row_type(def_header);
        proof {
            reveal_with_fuel(spec_insert_pos, 10);
            assert(profile.row_type_definitions@ =~= seq![v1, v2, v3]);
        }

        let mut unit_total_rules: Vec<RecognitionRule> = Vec::new();
        unit_total_rules.push(
            RecognitionRule::Color(
                ColorRule::new("pink_background".to_owned(), RgbColor::new(255, 204, 253), None),
            ),
        );
        unit_total_rules.push(
            RecognitionRule::TextPattern(
                TextPatternRule::new(
                    "unit_total_text".to_owned(),
                    0,
                    TextPattern::Contains("单台合计".to_owned()),
                    false,
                ),
            ),
        );
        let def_unit_total = RowTypeDefinition::new(
            RowType::UnitTotal,
            "单台合计行".to_owned(),
            "浅粉色背景，包含'单台合计'".to_owned(),
            RecognitionRule::Composite(
                CompositeRule::new(
                    "unit_total_rule".to_owned(),
                    unit_total_rules,
                    CompositeLogic::And,
                ),
            ),
            6,
        );
        let ghost v4 = def_unit_total;
        profile.add_row_type(def_unit_total);
        proof {
            reveal_with_fuel(spec_insert_pos, 10);
            assert(profile.row_type_definitions@ =~= seq![v1, v2, v3, v4]);
        }

        let mut subtotal_rules: Vec<RecognitionRule> = Vec::new();
        subtotal_rules.push(
            RecognitionRule::Color(
                ColorRule::new("pink_background".to_owned(), RgbColor::new(255, 204, 253), None),
            ),
        );
        subtotal_rules.push(
            RecognitionRule::TextPattern(
                TextPatternRule::new(
                    "subtotal_text".to_owned(),
                    0,
                    TextPattern::Contains("小计".to_owned()),
                    false,
                ),
            ),
        );
        let def_subtotal = RowTypeDefinition::new(
            RowType::SubTotal,
            "小计行".to_owned(),
            "浅粉色背景，包含'小计'".to_owned(),
            RecognitionRule::Composite(
                CompositeRule::new("subtotal_rule".to_owned(), subtotal_rules, CompositeLogic::And),
            ),
            6,
        );
        let ghost v5 = def_subtotal;
        profile.add_row_type(def_subtotal);
        proof {
            reveal_with_fuel(spec_insert_pos, 10);
            assert(profile.row_type_definitions@ =~= seq![v1, v2, v3, v4, v5]);
        }

        let mut grand_total_rules: Vec<RecognitionRule> = Vec::new();
        grand_total_rules.push(
            RecognitionRule::Color(
                ColorRule::new("pink_background".to_owned(), RgbColor::new(255, 204, 253), None),
            ),
        );
        grand_total_rules.push(
            RecognitionRule::TextPattern(
                TextPatternRule::new(
                    "grand_total_text".to_owned(),
                    0,
                    TextPattern::Contains("总计".to_owned()),
                    false,
                ),
            ),
        );
        let def_grand_total = RowTypeDefinition::new(
            RowType::GrandTotal,
            "总计行".to_owned(),
            "浅粉色背景，包含'总计'".to_owned(),
            RecognitionRule::Composite(
                CompositeRule::new(
                    "grand_total_rule".to_owned(),
                    grand_total_rules,
                    CompositeLogic::And,
                ),
            ),
            5,
        );
        let ghost v6 = def_grand_total;
        profile.add_row_type(def_grand_total);
        proof {
            reveal_with_fuel(spec_insert_pos, 10);
            assert(profile.row_type_definitions@ =~= seq![v1, v2, v3, v4, v5, v6]);
        }

        let def_data = RowTypeDefinition::new(
            RowType::Data,
            "数据行".to_owned(),
            "无背景色或白色背景".to_owned(),
            RecognitionRule::Color(
                ColorRule::new("white_or_no_background".to_owned(), RgbColor::white(), None),
            ),
            1,
        );
        let ghost v7 = def_data;
        profile.add_row_type(def_data);
        proof {
            reveal_with_fuel(spec_insert_pos, 10);
            assert(profile.row_type_definitions@ =~= seq![v1, v2, v3, v4, v5, v6, v7]);
        }

        profile
    }

    /// Builds the auxiliary-material profile: for now a single default data
    /// row archetype at priority 1.
    pub fn auxiliary_material() -> (r: FileTypeProfile)
        ensures
            r.wf(),
            r.name@ == "auxiliary_material"@,
            r.row_type_definitions@.len() == 1,
            spec_auxiliary_default_def(r.row_type_definitions@[0]),
    {
        let mut profile = Self::new("auxiliary_material".to_owned(), "辅材配置（待实现）".to_owned());
        let def_data = RowTypeDefinition::new(
            RowType::Data,
            "数据行".to_owned(),
            "默认数据行".to_owned(),
            RecognitionRule::Color(
                ColorRule::new("default_rule".to_owned(), RgbColor::white(), None),
            ),
            1,
        );
        let ghost v1 = def_data;
        profile.add_row_type(def_data);
        proof {
            assert(profile.row_type_definitions@ =~= seq![v1]);
        }
        profile
    }

    /// Validates the profile: a profile with no definitions is rejected with
    /// a message naming it, and a profile holding a rule whose regular
    /// expression the regex engine rejects fails loudly at build time, with
    /// a message naming that rule and its pattern; any other profile is
    /// accepted.
    #[verifier::loop_isolation(false)]
    pub fn validate(&self) -> (r: Result<(), String>)
        ensures
            (r is Ok) == (self.row_type_definitions@.len() > 0 && profile_regexes_valid(
                self.row_type_definitions@,
            )),
            self.row_type_definitions@.len() == 0 ==> (r matches Err(m) && m@
                == "File type profile '"@ + self.name@ + "' has no row type definitions"@),
            self.row_type_definitions@.len() > 0 && r is Err ==> (r matches Err(m)
                && exists|k: int, rule_name: Seq<char>, pattern: Seq<char>|
                0 <= k < self.row_type_definitions@.len() && #[trigger] spec_invalid_regex_in_rule(
                    self.row_type_definitions@[k].rule,
                    rule_name,
                    pattern,
                ) && m@ == "Invalid regex pattern in rule '"@ + rule_name + "': "@ + pattern),
    {
        if self.row_type_definitions.len() == 0 {
            let mut message = "File type profile '".to_owned();
            message.append(self.name.as_str());
            message.append("' has no row type definitions");
            return Err(message);
        }
        let n = self.row_type_definitions.len();
        let mut i: usize = 0;
        while i < n
            invariant
                i <= n,
                n == self.row_type_definitions@.len(),
                forall|k: int|
                    0 <= k < i ==> spec_rule_regexes_valid(
                        (#[trigger] self.row_type_definitions@[k]).rule,
                    ),
            decreases n - i,
        {
            let found = self.row_type_definitions[i].rule.find_invalid_regex();
            match found {
                Some(pair) => {
                    let (rule_name, pattern) = pair;
                    proof {
                        assert(spec_invalid_regex_in_rule(
                            self.row_type_definitions@[i as int].rule,
                            rule_name@,
                            pattern@,
                        ));
                    }
                    let message = IdentificationError::invalid_regex_pattern(
                        rule_name.as_str(),
                        pattern.as_str(),
                    ).message();
                    return Err(message);
                },
                None => {},
            }
            i += 1;
        }
        Ok(())
    }
}

} // verus!
