//! The recognition rules: colour, text pattern and merge-state predicates over
//! one row, and their composition under AND/OR logic with confidence scores.
//!
//! Confidence is measured in millionths of 1.0: a plain rule reports
//! [`CONFIDENCE_UNIT`], an AND composite the arithmetic mean of its children,
//! an OR composite their maximum, and an empty composite 0.

use vstd::prelude::*;

use crate::models::CellData;
use crate::models::MergeInfo;
use crate::models::RgbColor;
use crate::models::RowData;
use crate::models::spec_first_non_blank;
use crate::text::lower_of;
use crate::text::regex_is_match;
use crate::text::regex_matched;
use crate::text::regex_valid;
use crate::text::spec_contains_seq;
use crate::text::spec_trim;
use crate::text::str_contains;
use crate::text::to_lowercase_str;
use crate::text::trim_chars;

verus! {

/// The confidence value that stands for certainty, 1.0, in millionths.
pub const CONFIDENCE_UNIT: u32 = 1000000;

/// A merge range with ordered bounds, as the data model requires of every
/// merge range attached to a cell.
pub open spec fn spec_merge_wf(m: MergeInfo) -> bool {
    m.start_col <= m.end_col && m.start_row <= m.end_row
}

/// Every merge range attached to a cell of the row has ordered bounds.
pub open spec fn row_merges_wf(row: RowData) -> bool {
    forall|i: int|
        0 <= i < row.cells@.len() ==> ((#[trigger] row.cells@[i]).merge_info matches Some(m)
            ==> spec_merge_wf(m))
}

/// The background colour a cell resolves to when rules compare colours:
/// its explicit background, or white when it has none.
pub open spec fn spec_background_of(cell: CellData) -> RgbColor {
    match cell.style.background_color {
        Some(c) => c,
        None => RgbColor { r: 255u8, g: 255u8, b: 255u8 },
    }
}

/// Matches a row by the background colour of one cell: the cell at
/// `column_index`, or, if that is `None`, the row's first non-empty cell.
/// Comparison is exact, and an absent background counts as white.
#[derive(Debug, Clone)]
pub struct ColorRule {
    pub name: String,
    pub target_color: RgbColor,
    pub column_index: Option<usize>,
}

impl ColorRule {
    /// Builds a colour rule from its parts.
    pub fn new(name: String, target_color: RgbColor, column_index: Option<usize>) -> (r: ColorRule)
        ensures
            r.name == name,
            r.target_color == target_color,
            r.column_index == column_index,
    {
        ColorRule { name, target_color, column_index }
    }

    /// Whether the rule matches: the selected cell exists and its resolved
    /// background equals the target exactly. With `column_index` of `None`,
    /// the selected cell is the first non-empty one, so the rule is false
    /// exactly when every cell is blank or that cell's colour differs.
    pub open spec fn spec_matches(self, row: RowData) -> bool {
        match self.column_index {
            Some(ci) => ci < row.cells@.len() && spec_background_of(row.cells@[ci as int])
                == self.target_color,
            None => spec_first_non_blank(row.cells@) matches Some(j) && spec_background_of(
                row.cells@[j],
            ) == self.target_color,
        }
    }

    /// Decides [`ColorRule::spec_matches`] on a concrete row.
    pub fn matches(&self, row_data: &RowData) -> (r: bool)
        ensures
            r == self.spec_matches(*row_data),
    {
        let cell_opt = match self.column_index {
            Some(ci) => row_data.get_cell(ci),
            None => row_data.first_non_empty_cell(),
        };
        let cell = match cell_opt {
            Some(c) => c,
            None => {
                return false;
            },
        };
        let cell_color = match &cell.style.background_color {
            Some(c) => *c,
            None => RgbColor::white(),
        };
        cell_color == self.target_color
    }
}

/// How a text pattern compares against a cell's trimmed content.
#[derive(Debug, Clone)]
pub enum TextPattern {
    /// The whole trimmed content equals the text.
    Exact(String),
    /// The trimmed content contains the text as a substring.
    Contains(String),
    /// The pattern, as a regular expression, matches somewhere in the
    /// trimmed content; an invalid pattern never matches.
    Regex(String),
}

/// Matches a row by the text of the cell at `column_index`; the content is
/// trimmed first, and `case_sensitive` selects whether both sides are
/// lowercased before comparing (for `Regex`, whether `(?i)` applies).
#[derive(Debug, Clone)]
pub struct TextPatternRule {
    pub name: String,
    pub column_index: usize,
    pub pattern: TextPattern,
    pub case_sensitive: bool,
}

impl TextPatternRule {
    /// Builds a text pattern rule from its parts.
    pub fn new(name: String, column_index: usize, pattern: TextPattern, case_sensitive: bool) -> (r:
        TextPatternRule)
        ensures
            r.name == name,
            r.column_index == column_index,
            r.pattern == pattern,
            r.case_sensitive == case_sensitive,
    {
        TextPatternRule { name, column_index, pattern, case_sensitive }
    }

    /// Whether the rule matches: the cell at `column_index` exists and its
    /// trimmed content satisfies the pattern. A `Regex` pattern that the
    /// regex engine rejects matches no row at all.
    pub open spec fn spec_matches(self, row: RowData) -> bool {
        self.column_index < row.cells@.len() && {
            let content = spec_trim(row.cells@[self.column_index as int].content@);
            match self.pattern {
                TextPattern::Exact(t) => if self.case_sensitive {
                    content == t@
                } else {
                    lower_of(content) == lower_of(t@)
                },
                TextPattern::Contains(t) => if self.case_sensitive {
                    spec_contains_seq(content, t@)
                } else {
                    spec_contains_seq(lower_of(content), lower_of(t@))
                },
                TextPattern::Regex(p) => regex_valid(p@, !self.case_sensitive) && regex_matched(
                    p@,
                    !self.case_sensitive,
                    content,
                ),
            }
        }
    }

    /// Decides [`TextPatternRule::spec_matches`] on a concrete row. In
    /// particular an invalid `Regex` pattern yields `false` and never panics.
    pub fn matches(&self, row_data: &RowData) -> (r: bool)
        ensures
            r == self.spec_matches(*row_data),
    {
        let cell = match row_data.get_cell(self.column_index) {
            Some(c) => c,
            None => {
                return false;
            },
        };
        let trimmed = trim_chars(cell.content.as_str());
        match &self.pattern {
            TextPattern::Exact(target) => {
                if self.case_sensitive {
                    trimmed == *target
                } else {
                    let lowered = to_lowercase_str(trimmed.as_str());
                    let target_lowered = to_lowercase_str(target.as_str());
                    lowered == target_lowered
                }
            },
            TextPattern::Contains(needle) => {
                if self.case_sensitive {
                    str_contains(trimmed.as_str(), needle.as_str())
                } else {
                    let lowered = to_lowercase_str(trimmed.as_str());
                    let needle_lowered = to_lowercase_str(needle.as_str());
                    str_contains(lowered.as_str(), needle_lowered.as_str())
                }
            },
            TextPattern::Regex(pattern) => {
                match regex_is_match(pattern.as_str(), !self.case_sensitive, trimmed.as_str()) {
                    Some(matched) => matched,
                    None => false,
                }
            },
        }
    }
}

/// What a merge-state rule asks of a row.
#[derive(Debug, Clone)]
pub enum MergeRequirement {
    /// Some cell's merge range covers exactly these columns.
    MergedAcross { start_col: usize, end_col: usize },
    /// Some cell's merge range spans at least this many columns.
    MergedMinColumns(usize),
    /// No cell of the row belongs to a merge.
    NotMerged,
}

/// Matches a row by the merge geometry of its cells.
#[derive(Debug, Clone)]
pub struct MergeStateRule {
    pub name: String,
    pub merge_requirement: MergeRequirement,
}

impl MergeStateRule {
    /// Builds a merge-state rule from its parts.
    pub fn new(name: String, merge_requirement: MergeRequirement) -> (r: MergeStateRule)
        ensures
            r.name == name,
            r.merge_requirement == merge_requirement,
    {
        MergeStateRule { name, merge_requirement }
    }

    /// Whether the rule matches: `MergedAcross` wants some cell merged over
    /// exactly the given column bounds, `MergedMinColumns` some cell whose
    /// merge spans at least the given width, and `NotMerged` wants every
    /// cell unmerged.
    pub open spec fn spec_matches(self, row: RowData) -> bool {
        match self.merge_requirement {
            MergeRequirement::MergedAcross { start_col, end_col } => exists|i: int|
                0 <= i < row.cells@.len() && ((#[trigger] row.cells@[i]).merge_info matches Some(m)
                    && m.start_col == start_col && m.end_col == end_col),
            MergeRequirement::MergedMinColumns(min_cols) => exists|i: int|
                0 <= i < row.cells@.len() && ((#[trigger] row.cells@[i]).merge_info matches Some(m)
                    && m.spec_column_span() >= min_cols),
            MergeRequirement::NotMerged => forall|i: int|
                0 <= i < row.cells@.len() ==> (#[trigger] row.cells@[i]).merge_info is None,
        }
    }

    /// Decides [`MergeStateRule::spec_matches`] on a concrete row.
    #[verifier::loop_isolation(false)]
    pub fn matches(&self, row_data: &RowData) -> (r: bool)
        requires
            row_merges_wf(*row_data),
        ensures
            r == self.spec_matches(*row_data),
    {
        let n = row_data.cells.len();
        match &self.merge_requirement {
            MergeRequirement::MergedAcross { start_col, end_col } => {
                let mut i: usize = 0;
                while i < n
                    invariant
                        n == row_data.cells@.len(),
                        i <= n,
                        forall|k: int|
                            0 <= k < i ==> !((#[trigger] row_data.cells@[k]).merge_info
                                matches Some(m) && m.start_col == *start_col && m.end_col
                                == *end_col),
                    decreases n - i,
                {
                    match &row_data.cells[i].merge_info {
                        Some(m) => {
                            if m.start_col == *start_col && m.end_col == *end_col {
                                proof {
                                    assert(row_data.cells@[i as int].merge_info matches Some(mm)
                                        && mm.start_col == *start_col && mm.end_col == *end_col);
                                }
                                return true;
                            }
                        },
                        None => {},
                    }
                    i += 1;
                }
                false
            },
            MergeRequirement::MergedMinColumns(min_cols) => {
                let mut i: usize = 0;
                while i < n
                    invariant
                        n == row_data.cells@.len(),
                        i <= n,
                        row_merges_wf(*row_data),
                        forall|k: int|
                            0 <= k < i ==> !((#[trigger] row_data.cells@[k]).merge_info
                                matches Some(m) && m.spec_column_span() >= *min_cols),
                    decreases n - i,
                {
                    match &row_data.cells[i].merge_info {
                        Some(m) => {
                            if *min_cols == 0 || m.end_col - m.start_col >= *min_cols - 1 {
                                proof {
                                    assert(row_data.cells@[i as int].merge_info matches Some(mm)
                                        && mm.spec_column_span() >= *min_cols);
                                }
                                return true;
                            }
                        },
                        None => {},
                    }
                    i += 1;
                }
                false
            },
            MergeRequirement::NotMerged => {
                let mut i: usize = 0;
                while i < n
                    invariant
                        n == row_data.cells@.len(),
                        i <= n,
                        forall|k: int| 0 <= k < i ==> (#[trigger] row_data.cells@[k]).merge_info
                            is None,
                    decreases n - i,
                {
                    match &row_data.cells[i].merge_info {
                        Some(_) => {
                            proof {
                                assert(!(row_data.cells@[i as int].merge_info is None));
                            }
                            return false;
                        },
                        None => {},
                    }
                    i += 1;
                }
                true
            },
        }
    }
}

/// How a composite rule combines its children.
#[derive(Debug, Clone, Copy, PartialEq, Eq, Structural)]
pub enum CompositeLogic {
    /// Every child must match; vacuously true with no children.
    And,
    /// At least one child must match; vacuously false with no children.
    Or,
}

/// A closed union over the rule variants, so that rule trees can be built
/// and matched without trait objects.
#[derive(Debug)]
pub enum RecognitionRule {
    Color(ColorRule),
    TextPattern(TextPatternRule),
    MergeState(MergeStateRule),
    Composite(CompositeRule),
}

/// A rule combining child rules under AND or OR logic; children nest
/// arbitrarily.
#[derive(Debug)]
pub struct CompositeRule {
    pub name: String,
    pub rules: Vec<RecognitionRule>,
    pub logic: CompositeLogic,
}

impl CompositeRule {
    /// Builds a composite rule from its parts.
    pub fn new(name: String, rules: Vec<RecognitionRule>, logic: CompositeLogic) -> (r:
        CompositeRule)
        ensures
            r.name == name,
            r.rules == rules,
            r.logic == logic,
    {
        CompositeRule { name, rules, logic }
    }

    /// Builds an AND composite.
    pub fn and(name: String, rules: Vec<RecognitionRule>) -> (r: CompositeRule)
        ensures
            r.name == name,
            r.rules == rules,
            r.logic == CompositeLogic::And,
    {
        CompositeRule { name, rules, logic: CompositeLogic::And }
    }

    /// Builds an OR composite.
    pub fn or(name: String, rules: Vec<RecognitionRule>) -> (r: CompositeRule)
        ensures
            r.name == name,
            r.rules == rules,
            r.logic == CompositeLogic::Or,
    {
        CompositeRule { name, rules, logic: CompositeLogic::Or }
    }
}

impl RecognitionRule {
    /// The rule's diagnostic name.
    pub open spec fn spec_name(self) -> Seq<char> {
        match self {
            RecognitionRule::Color(c) => c.name@,
            RecognitionRule::TextPattern(t) => t.name@,
            RecognitionRule::MergeState(m) => m.name@,
            RecognitionRule::Composite(c) => c.name@,
        }
    }

    /// Returns the rule's diagnostic name.
    pub fn name(&self) -> (r: &str)
        ensures
            r@ == self.spec_name(),
    {
        match self {
            RecognitionRule::Color(c) => c.name.as_str(),
            RecognitionRule::TextPattern(t) => t.name.as_str(),
            RecognitionRule::MergeState(m) => m.name.as_str(),
            RecognitionRule::Composite(c) => c.name.as_str(),
        }
    }

    /// Whether the rule matches a row. An AND composite matches when every
    /// child does (so with no children it matches every row); an OR composite
    /// when some child does (so with no children it matches no row).
    pub open spec fn spec_matches(self, row: RowData) -> bool
        decreases self,
    {
        match self {
            RecognitionRule::Color(c) => c.spec_matches(row),
            RecognitionRule::TextPattern(t) => t.spec_matches(row),
            RecognitionRule::MergeState(m) => m.spec_matches(row),
            RecognitionRule::Composite(c) => match c.logic {
                CompositeLogic::And => forall|i: int|
                    0 <= i < c.rules@.len() ==> (#[trigger] c.rules@[i]).spec_matches(row),
                CompositeLogic::Or => exists|i: int|
                    0 <= i < c.rules@.len() && (#[trigger] c.rules@[i]).spec_matches(row),
            },
        }
    }

    /// Decides [`RecognitionRule::spec_matches`] on a concrete row.
    #[verifier::loop_isolation(false)]
    pub fn matches(&self, row_data: &RowData) -> (r: bool)
        requires
            row_merges_wf(*row_data),
        ensures
            r == self.spec_matches(*row_data),
        decreases *self,
    {
        match self {
            RecognitionRule::Color(c) => c.matches(row_data),
            RecognitionRule::TextPattern(t) => t.matches(row_data),
            RecognitionRule::MergeState(m) => m.matches(row_data),
            RecognitionRule::Composite(c) => {
                let n = c.rules.len();
                match c.logic {
                    CompositeLogic::And => {
                        let mut i: usize = 0;
                        while i < n
                            invariant
                                n == c.rules@.len(),
                                i <= n,
                                row_merges_wf(*row_data),
                                *self == RecognitionRule::Composite(*c),
                                forall|k: int|
                                    0 <= k < i ==> (#[trigger] c.rules@[k]).spec_matches(
                                        *row_data,
                                    ),
                            decreases n - i,
                        {
                            proof {
                                assert(decreases_to!(*self => (*self)->Composite_0));
                                assert(decreases_to!(*c => c.rules));
                                assert(decreases_to!(c.rules => c.rules@));
                                assert(decreases_to!(c.rules@ => c.rules@[i as int]));
                                assert(decreases_to!(*self => c.rules@[i as int]));
                            }
                            if !c.rules[i].matches(row_data) {
                                return false;
                            }
                            i += 1;
                        }
                        true
                    },
                    CompositeLogic::Or => {
                        let mut i: usize = 0;
                        while i < n
                            invariant
                                n == c.rules@.len(),
                                i <= n,
                                row_merges_wf(*row_data),
                                *self == RecognitionRule::Composite(*c),
                                forall|k: int|
                                    0 <= k < i ==> !(#[trigger] c.rules@[k]).spec_matches(
                                        *row_data,
                                    ),
                            decreases n - i,
                        {
                            proof {
                                assert(decreases_to!(*self => (*self)->Composite_0));
                                assert(decreases_to!(*c => c.rules));
                                assert(decreases_to!(c.rules => c.rules@));
                                assert(decreases_to!(c.rules@ => c.rules@[i as int]));
                                assert(decreases_to!(*self => c.rules@[i as int]));
                            }
                            if c.rules[i].matches(row_data) {
                                return true;
                            }
                            i += 1;
                        }
                        false
                    },
                }
            },
        }
    }

    /// The rule's confidence, in millionths of 1.0: a plain rule is fully
    /// confident; an AND composite reports the arithmetic mean of its
    /// children, an OR composite their maximum, and either reports 0 with no
    /// children.
    pub open spec fn spec_confidence(self) -> int
        decreases self, 0int,
    {
        match self {
            RecognitionRule::Color(_) => CONFIDENCE_UNIT as int,
            RecognitionRule::TextPattern(_) => CONFIDENCE_UNIT as int,
            RecognitionRule::MergeState(_) => CONFIDENCE_UNIT as int,
            RecognitionRule::Composite(c) => {
                let n = c.rules@.len() as int;
                if n == 0 {
                    0
                } else {
                    match c.logic {
                        CompositeLogic::And => spec_sum_confidence(c.rules@, n) / n,
                        CompositeLogic::Or => spec_max_confidence(c.rules@, n),
                    }
                }
            },
        }
    }
}

/// The sum of the confidences of the first `n` rules.
pub open spec fn spec_sum_confidence(rules: Seq<RecognitionRule>, n: int) -> int
    decreases rules, n,
{
    if n <= 0 || n > rules.len() {
        0
    } else {
        spec_sum_confidence(rules, n - 1) + rules[n - 1].spec_confidence()
    }
}

/// The maximum of the confidences of the first `n` rules, 0 with none.
pub open spec fn spec_max_confidence(rules: Seq<RecognitionRule>, n: int) -> int
    decreases rules, n,
{
    if n <= 0 || n > rules.len() {
        0
    } else {
        let prior = spec_max_confidence(rules, n - 1);
        let here = rules[n - 1].spec_confidence();
        if here > prior {
            here
        } else {
            prior
        }
    }
}

/// Every regular expression held anywhere in the rule tree is accepted by
/// the regex engine.
pub open spec fn spec_rule_regexes_valid(rule: RecognitionRule) -> bool
    decreases rule,
{
    match rule {
        RecognitionRule::TextPattern(t) => match t.pattern {
            TextPattern::Regex(p) => regex_valid(p@, !t.case_sensitive),
            _ => true,
        },
        RecognitionRule::Composite(c) => forall|i: int|
            0 <= i < c.rules@.len() ==> spec_rule_regexes_valid(#[trigger] c.rules@[i]),
        _ => true,
    }
}

/// The rule tree holds, under the given rule name, a regular expression with
/// the given pattern that the regex engine rejects.
pub open spec fn spec_invalid_regex_in_rule(
    rule: RecognitionRule,
    name: Seq<char>,
    pattern: Seq<char>,
) -> bool
    decreases rule,
{
    match rule {
        RecognitionRule::TextPattern(t) => t.name@ == name && (t.pattern
            matches TextPattern::Regex(p) && p@ == pattern && !regex_valid(
            p@,
            !t.case_sensitive,
        )),
        RecognitionRule::Composite(c) => exists|i: int|
            0 <= i < c.rules@.len() && spec_invalid_regex_in_rule(
                #[trigger] c.rules@[i],
                name,
                pattern,
            ),
        _ => false,
    }
}

impl RecognitionRule {
    /// Finds a rule in the tree whose regular expression the regex engine
    /// rejects, if any, returning that rule's name and the rejected pattern;
    /// `None` exactly when every regular expression in the tree is accepted.
    #[verifier::loop_isolation(false)]
    pub fn find_invalid_regex(&self) -> (r: Option<(String, String)>)
        ensures
            (r is None) == spec_rule_regexes_valid(*self),
            r matches Some(found) ==> spec_invalid_regex_in_rule(*self, found.0@, found.1@),
        decreases *self,
    {
        match self {
            RecognitionRule::TextPattern(t) => {
                match &t.pattern {
                    TextPattern::Regex(p) => {
                        match regex_is_match(p.as_str(), !t.case_sensitive, "") {
                            Some(_) => None,
                            None => Some((t.name.clone(), p.clone())),
                        }
                    },
                    _ => None,
                }
            },
            RecognitionRule::Composite(c) => {
                let n = c.rules.len();
                let mut i: usize = 0;
                while i < n
                    invariant
                        i <= n,
                        n == c.rules@.len(),
                        *self == RecognitionRule::Composite(*c),
                        forall|k: int|
                            0 <= k < i ==> spec_rule_regexes_valid(#[trigger] c.rules@[k]),
                    decreases n - i,
                {
                    proof {
                        assert(decreases_to!(*self => (*self)->Composite_0));
                        assert(decreases_to!(*c => c.rules));
                        assert(decreases_to!(c.rules => c.rules@));
                        assert(decreases_to!(c.rules@ => c.rules@[i as int]));
                        assert(decreases_to!(*self => c.rules@[i as int]));
                    }
                    let found = c.rules[i].find_invalid_regex();
                    match found {
                        Some(pair) => {
                            proof {
                                assert(spec_invalid_regex_in_rule(
                                    c.rules@[i as int],
                                    pair.0@,
                                    pair.1@,
                                ));
                            }
                            return Some(pair);
                        },
                        None => {},
                    }
                    i += 1;
                }
                None
            },
            _ => None,
        }
    }
}

/// A colour rule aimed at the first non-empty cell matches no row whose
/// cells are all blank; on a row with a first non-empty cell, it matches
/// exactly when that cell's resolved background equals the target.
pub proof fn lemma_color_rule_first_cell(rule: ColorRule, row: RowData)
    requires
        rule.column_index is None,
    ensures
        (forall|i: int| 0 <= i < row.cells@.len() ==> row.cells@[i].spec_is_empty())
            ==> !rule.spec_matches(row),
        spec_first_non_blank(row.cells@) matches Some(j) ==> (rule.spec_matches(row)
            <==> spec_background_of(row.cells@[j]) == rule.target_color),
{
    crate::models::lemma_first_non_blank_properties(row.cells@);
    if forall|i: int| 0 <= i < row.cells@.len() ==> row.cells@[i].spec_is_empty() {
        match spec_first_non_blank(row.cells@) {
            Some(j) => {
                assert(!row.cells@[j].spec_is_empty());
                assert(row.cells@[j].spec_is_empty());
            },
            None => {},
        }
    }
}

/// A text rule whose regular expression the regex engine rejects matches no
/// row at all.
pub proof fn lemma_invalid_regex_never_matches(rule: TextPatternRule, row: RowData)
    requires
        rule.pattern matches TextPattern::Regex(p) && !regex_valid(p@, !rule.case_sensitive),
    ensures
        !rule.spec_matches(row),
{
}

/// A composite with no children matches every row under AND logic, no row
/// under OR logic, and reports confidence 0 either way.
pub proof fn lemma_empty_composite(c: CompositeRule, row: RowData)
    requires
        c.rules@.len() == 0,
    ensures
        c.logic == CompositeLogic::And ==> RecognitionRule::Composite(c).spec_matches(row),
        c.logic == CompositeLogic::Or ==> !RecognitionRule::Composite(c).spec_matches(row),
        RecognitionRule::Composite(c).spec_confidence() == 0,
{
}

/// Every confidence lies between 0 and [`CONFIDENCE_UNIT`].
pub proof fn lemma_confidence_bounds(rule: RecognitionRule)
    ensures
        0 <= rule.spec_confidence() <= CONFIDENCE_UNIT as int,
    decreases rule, 0int,
{
    match rule {
        RecognitionRule::Composite(c) => {
            let n = c.rules@.len() as int;
            if n > 0 {
                lemma_sum_confidence_bounds(c.rules@, n);
                lemma_max_confidence_bounds(c.rules@, n);
                match c.logic {
                    CompositeLogic::And => {
                        assert(0 <= spec_sum_confidence(c.rules@, n) / n <= CONFIDENCE_UNIT as int)
                            by (nonlinear_arith)
                            requires
                                n > 0,
                                0 <= spec_sum_confidence(c.rules@, n) <= n * (
                                CONFIDENCE_UNIT as int),
                        ;
                    },
                    CompositeLogic::Or => {},
                }
            }
        },
        _ => {},
    }
}

proof fn lemma_sum_confidence_bounds(rules: Seq<RecognitionRule>, n: int)
    requires
        0 <= n <= rules.len(),
    ensures
        0 <= spec_sum_confidence(rules, n) <= n * (CONFIDENCE_UNIT as int),
    decreases rules, n,
{
    if n > 0 {
        lemma_sum_confidence_bounds(rules, n - 1);
        lemma_confidence_bounds(rules[n - 1]);
        assert((n - 1) * (CONFIDENCE_UNIT as int) + CONFIDENCE_UNIT as int == n * (
        CONFIDENCE_UNIT as int)) by (nonlinear_arith);
    }
}

proof fn lemma_max_confidence_bounds(rules: Seq<RecognitionRule>, n: int)
    requires
        0 <= n <= rules.len(),
    ensures
        0 <= spec_max_confidence(rules, n) <= CONFIDENCE_UNIT as int,
    decreases rules, n,
{
    if n > 0 {
        lemma_max_confidence_bounds(rules, n - 1);
        lemma_confidence_bounds(rules[n - 1]);
    }
}

impl RecognitionRule {
    /// Computes [`RecognitionRule::spec_confidence`]; the result never
    /// exceeds [`CONFIDENCE_UNIT`].
    #[verifier::loop_isolation(false)]
    pub fn confidence(&self) -> (r: u32)
        ensures
            r == self.spec_confidence(),
            r <= CONFIDENCE_UNIT,
        decreases *self,
    {
        proof {
            lemma_confidence_bounds(*self);
        }
        match self {
            RecognitionRule::Color(_) => CONFIDENCE_UNIT,
            RecognitionRule::TextPattern(_) => CONFIDENCE_UNIT,
            RecognitionRule::MergeState(_) => CONFIDENCE_UNIT,
            RecognitionRule::Composite(c) => {
                let n = c.rules.len();
                if n == 0 {
                    return 0;
                }
                match c.logic {
                    CompositeLogic::And => {
                        let mut total: u128 = 0;
                        let mut i: usize = 0;
                        while i < n
                            invariant
                                n == c.rules@.len(),
                                n >= 1,
                                i <= n,
                                *self == RecognitionRule::Composite(*c),
                                total == spec_sum_confidence(c.rules@, i as int),
                                total <= (i as int) * (CONFIDENCE_UNIT as int),
                            decreases n - i,
                        {
                            proof {
                                assert(decreases_to!(*self => (*self)->Composite_0));
                                assert(decreases_to!(*c => c.rules));
                                assert(decreases_to!(c.rules => c.rules@));
                                assert(decreases_to!(c.rules@ => c.rules@[i as int]));
                                assert(decreases_to!(*self => c.rules@[i as int]));
                                lemma_confidence_bounds(c.rules@[i as int]);
                                assert((i as int) * (CONFIDENCE_UNIT as int) + (
                                CONFIDENCE_UNIT as int) == (i + 1) * (CONFIDENCE_UNIT as int))
                                    by (nonlinear_arith);
                            }
                            let child = c.rules[i].confidence();
                            total = total + (child as u128);
                            i += 1;
                        }
                        proof {
                            assert((n as int) * (CONFIDENCE_UNIT as int) < u128::MAX)
                                by (nonlinear_arith)
                                requires
                                    n <= usize::MAX,
                            ;
                            assert(spec_sum_confidence(c.rules@, n as int) / (n as int) <= (
                            CONFIDENCE_UNIT as int)) by (nonlinear_arith)
                                requires
                                    n > 0,
                                    0 <= spec_sum_confidence(c.rules@, n as int) <= (n as int) * (
                                    CONFIDENCE_UNIT as int),
                            ;
                        }
                        let mean: u128 = total / (n as u128);
                        mean as u32
                    },
                    CompositeLogic::Or => {
                        let mut best: u32 = 0;
                        let mut i: usize = 0;
                        while i < n
                            invariant
                                n == c.rules@.len(),
                                n >= 1,
                                i <= n,
                                *self == RecognitionRule::Composite(*c),
                                best == spec_max_confidence(c.rules@, i as int),
                                best <= CONFIDENCE_UNIT,
                            decreases n - i,
                        {
                            proof {
                                assert(decreases_to!(*self => (*self)->Composite_0));
                                assert(decreases_to!(*c => c.rules));
                                assert(decreases_to!(c.rules => c.rules@));
                                assert(decreases_to!(c.rules@ => c.rules@[i as int]));
                                assert(decreases_to!(*self => c.rules@[i as int]));
                                lemma_confidence_bounds(c.rules@[i as int]);
                            }
                            let child = c.rules[i].confidence();
                            if child > best {
                                best = child;
                            }
                            i += 1;
                        }
                        best
                    },
                }
            },
        }
    }
}

} // verus!
