//! The row-type identifier: applies a profile to a row or to a whole
//! worksheet under a first-match-wins policy, derives statistics, and
//! surfaces same-priority ambiguities.

use vstd::prelude::*;

use crate::models::IdentificationStatistics;
use crate::models::RowData;
use crate::models::RowIdentificationResult;
use crate::models::RowType;
use crate::models::WorksheetData;
use crate::models::spec_count_type;
use crate::models::spec_success_rate;
use crate::profile::FileTypeProfile;
use crate::profile::RowTypeDefinition;
use crate::rules::row_merges_wf;

verus! {

/// The position of the first definition whose rule matches the row, if any.
pub open spec fn spec_first_match(defs: Seq<RowTypeDefinition>, row: RowData) -> Option<int>
    decreases defs.len(),
{
    if defs.len() == 0 {
        None
    } else if defs[0].rule.spec_matches(row) {
        Some(0int)
    } else {
        match spec_first_match(defs.subrange(1, defs.len() as int), row) {
            Some(j) => Some(j + 1),
            None => None,
        }
    }
}

/// What [`spec_first_match`] returns: `None` exactly when no rule matches,
/// and otherwise the least index of a matching definition.
pub proof fn lemma_first_match_properties(defs: Seq<RowTypeDefinition>, row: RowData)
    ensures
        spec_first_match(defs, row) is None ==> forall|i: int|
            0 <= i < defs.len() ==> !(#[trigger] defs[i]).rule.spec_matches(row),
        spec_first_match(defs, row) matches Some(j) ==> 0 <= j < defs.len()
            && defs[j].rule.spec_matches(row) && forall|k: int|
            0 <= k < j ==> !(#[trigger] defs[k]).rule.spec_matches(row),
    decreases defs.len(),
{
    if defs.len() > 0 && !defs[0].rule.spec_matches(row) {
        let rest = defs.subrange(1, defs.len() as int);
        lemma_first_match_properties(rest, row);
        assert(forall|i: int| 0 <= i < rest.len() ==> rest[i] == defs[i + 1]);
        match spec_first_match(defs, row) {
            None => {
                assert forall|i: int|
                    0 <= i < defs.len() implies !(#[trigger] defs[i]).rule.spec_matches(row) by {
                    if i > 0 {
                        assert(rest[i - 1] == defs[i]);
                    }
                }
            },
            Some(j) => {
                assert(spec_first_match(rest, row) == Some(j - 1));
                assert(defs[j] == rest[j - 1]);
                assert forall|k: int|
                    0 <= k < j implies !(#[trigger] defs[k]).rule.spec_matches(row) by {
                    if k > 0 {
                        assert(rest[k - 1] == defs[k]);
                    }
                }
            },
        }
    }
}

proof fn lemma_first_match_at(defs: Seq<RowTypeDefinition>, row: RowData, i: int)
    requires
        0 <= i < defs.len(),
        forall|k: int| 0 <= k < i ==> !(#[trigger] defs[k]).rule.spec_matches(row),
        defs[i].rule.spec_matches(row),
    ensures
        spec_first_match(defs, row) == Some(i),
    decreases i,
{
    if i > 0 {
        let rest = defs.subrange(1, defs.len() as int);
        assert(forall|k: int| 0 <= k < i - 1 ==> rest[k] == defs[k + 1]);
        lemma_first_match_at(rest, row, i - 1);
    }
}

proof fn lemma_first_match_none(defs: Seq<RowTypeDefinition>, row: RowData)
    requires
        forall|k: int| 0 <= k < defs.len() ==> !(#[trigger] defs[k]).rule.spec_matches(row),
    ensures
        spec_first_match(defs, row) is None,
    decreases defs.len(),
{
    if defs.len() > 0 {
        let rest = defs.subrange(1, defs.len() as int);
        assert(forall|k: int| 0 <= k < rest.len() ==> rest[k] == defs[k + 1]);
        lemma_first_match_none(rest, row);
    }
}

/// What one classification result must say of one row: the row's index, and
/// either the first matching definition's row type, rule name and confidence,
/// or `Unknown`, `"none"` and confidence 0 when no rule matches.
pub open spec fn result_for_row(
    defs: Seq<RowTypeDefinition>,
    row: RowData,
    r: RowIdentificationResult,
) -> bool {
    r.row_index == row.row_index && match spec_first_match(defs, row) {
        Some(i) => r.row_type == defs[i].row_type && r.matched_rule@ == defs[i].rule.spec_name()
            && r.confidence == defs[i].rule.spec_confidence(),
        None => r.row_type == RowType::Unknown && r.matched_rule@ == "none"@ && r.confidence == 0,
    }
}

/// First-match-wins agrees with priority order: in a sorted profile, the
/// definition that wins has a priority at least that of every other matching
/// definition. In particular, of two matching definitions with different
/// priorities, the higher-priority one supplies the row type.
pub proof fn lemma_first_match_wins(profile: FileTypeProfile, row: RowData)
    requires
        profile.wf(),
    ensures
        spec_first_match(profile.row_type_definitions@, row) matches Some(i) ==> forall|j: int|
            0 <= j < profile.row_type_definitions@.len()
                && (#[trigger] profile.row_type_definitions@[j]).rule.spec_matches(row)
                ==> profile.row_type_definitions@[i].priority
                >= profile.row_type_definitions@[j].priority,
{
    let defs = profile.row_type_definitions@;
    lemma_first_match_properties(defs, row);
    match spec_first_match(defs, row) {
        Some(i) => {
            assert forall|j: int|
                0 <= j < defs.len() && (#[trigger] defs[j]).rule.spec_matches(row) implies defs[i].priority
                >= defs[j].priority by {
                if j < i {
                    assert(!defs[j].rule.spec_matches(row));
                }
            }
        },
        None => {},
    }
}

/// Every merge range in every row of the worksheet has ordered bounds.
pub open spec fn worksheet_merges_wf(ws: WorksheetData) -> bool {
    forall|i: int| 0 <= i < ws.rows@.len() ==> row_merges_wf(#[trigger] ws.rows@[i])
}

/// Classifies rows by applying an owned profile; the debug flag only selects
/// diagnostic verbosity and never changes any result.
#[derive(Debug)]
pub struct RowTypeIdentifier {
    pub profile: FileTypeProfile,
    pub debug_mode: bool,
}

impl RowTypeIdentifier {
    /// Builds an identifier over the given profile, with diagnostics off.
    pub fn new(profile: FileTypeProfile) -> (r: RowTypeIdentifier)
        ensures
            r.profile == profile,
            !r.debug_mode,
    {
        RowTypeIdentifier { profile, debug_mode: false }
    }

    /// Selects diagnostic verbosity; classification results are unaffected.
    pub fn with_debug(self, debug: bool) -> (r: RowTypeIdentifier)
        ensures
            r.profile == self.profile,
            r.debug_mode == debug,
    {
        RowTypeIdentifier { profile: self.profile, debug_mode: debug }
    }

    /// Classifies one row: walks the definitions in their sorted order and
    /// returns the first whose rule matches, or an `Unknown` result with
    /// rule name `"none"` and confidence 0 when none does.
    #[verifier::loop_isolation(false)]
    pub fn identify_row(&self, row_data: &RowData) -> (r: RowIdentificationResult)
        requires
            row_merges_wf(*row_data),
        ensures
            result_for_row(self.profile.row_type_definitions@, *row_data, r),
    {
        let n = self.profile.row_type_definitions.len();
        let mut i: usize = 0;
        while i < n
            invariant
                i <= n,
                forall|k: int|
                    0 <= k < i ==> !(
                    #[trigger] self.profile.row_type_definitions@[k]).rule.spec_matches(*row_data),
            decreases n - i,
        {
            let definition = &self.profile.row_type_definitions[i];
            if definition.rule.matches(row_data) {
                proof {
                    lemma_first_match_at(
                        self.profile.row_type_definitions@,
                        *row_data,
                        i as int,
                    );
                }
                return RowIdentificationResult {
                    row_index: row_data.row_index,
                    row_type: definition.row_type.duplicate(),
                    matched_rule: definition.rule.name().to_owned(),
                    confidence: definition.rule.confidence(),
                };
            }
            i += 1;
        }
        proof {
            lemma_first_match_none(self.profile.row_type_definitions@, *row_data);
        }
        RowIdentificationResult {
            row_index: row_data.row_index,
            row_type: RowType::Unknown,
            matched_rule: "none".to_owned(),
            confidence: 0,
        }
    }

    /// Classifies every row of the worksheet in order, producing exactly one
    /// result per row, each as [`result_for_row`] states.
    #[verifier::loop_isolation(false)]
    pub fn identify_all_rows(&self, worksheet_data: &WorksheetData) -> (results: Vec<
        RowIdentificationResult,
    >)
        requires
            worksheet_merges_wf(*worksheet_data),
        ensures
            results@.len() == worksheet_data.rows@.len(),
            forall|i: int|
                0 <= i < results@.len() ==> result_for_row(
                    self.profile.row_type_definitions@,
                    worksheet_data.rows@[i],
                    #[trigger] results@[i],
                ),
    {
        let n = worksheet_data.rows.len();
        let mut results: Vec<RowIdentificationResult> = Vec::new();
        let mut i: usize = 0;
        while i < n
            invariant
                i <= n,
                results@.len() == i,
                forall|k: int|
                    0 <= k < i ==> result_for_row(
                        self.profile.row_type_definitions@,
                        worksheet_data.rows@[k],
                        #[trigger] results@[k],
                    ),
            decreases n - i,
        {
            let row_result = self.identify_row(&worksheet_data.rows[i]);
            results.push(row_result);
            i += 1;
        }
        results
    }

    /// Derives the aggregate statistics of a result list, as
    /// [`IdentificationStatistics::from_results`] states them.
    pub fn get_statistics(&self, results: &Vec<RowIdentificationResult>) -> (stats:
        IdentificationStatistics)
        ensures
            stats.total_rows == results@.len(),
            stats.unknown_count == spec_count_type(results@, RowType::Unknown),
            stats.success_rate == spec_success_rate(
                results@.len() as int,
                stats.unknown_count as int,
            ),
            stats.counts_exact(results@),
    {
        IdentificationStatistics::from_results(results)
    }

    /// A pair of definition positions that both match the row with the same
    /// priority: an authoring ambiguity that first-match-wins resolves by
    /// order alone.
    pub open spec fn is_conflict(
        defs: Seq<RowTypeDefinition>,
        row: RowData,
        i: int,
        j: int,
    ) -> bool {
        0 <= i < j < defs.len() && defs[i].rule.spec_matches(row) && defs[j].rule.spec_matches(row)
            && defs[i].priority == defs[j].priority
    }

    /// Reports every same-priority pair of definitions that both match the
    /// row, in lexicographic order of positions; this diagnostic never
    /// changes what [`RowTypeIdentifier::identify_row`] returns.
    #[verifier::loop_isolation(false)]
    pub fn check_priority_conflicts(&self, row_data: &RowData) -> (conflicts: Vec<(usize, usize)>)
        requires
            row_merges_wf(*row_data),
        ensures
            forall|k: int|
                0 <= k < conflicts@.len() ==> Self::is_conflict(
                    self.profile.row_type_definitions@,
                    *row_data,
                    (#[trigger] conflicts@[k]).0 as int,
                    conflicts@[k].1 as int,
                ),
            forall|i: int, j: int|
                Self::is_conflict(self.profile.row_type_definitions@, *row_data, i, j)
                    ==> conflicts@.contains((i as usize, j as usize)),
    {
        let ghost defs = self.profile.row_type_definitions@;
        let n = self.profile.row_type_definitions.len();
        let mut conflicts: Vec<(usize, usize)> = Vec::new();
        let mut a: usize = 0;
        while a < n
            invariant
                a <= n,
                forall|k: int|
                    0 <= k < conflicts@.len() ==> Self::is_conflict(
                        defs,
                        *row_data,
                        (#[trigger] conflicts@[k]).0 as int,
                        conflicts@[k].1 as int,
                    ),
                forall|i: int, j: int|
                    Self::is_conflict(defs, *row_data, i, j) && i < a ==> conflicts@.contains(
                        (i as usize, j as usize),
                    ),
            decreases n - a,
        {
            let mut b: usize = a + 1;
            while b < n
                invariant
                    a < b <= n || (a + 1 > n && b == a + 1),
                    a < n,
                    forall|k: int|
                        0 <= k < conflicts@.len() ==> Self::is_conflict(
                            defs,
                            *row_data,
                            (#[trigger] conflicts@[k]).0 as int,
                            conflicts@[k].1 as int,
                        ),
                    forall|i: int, j: int|
                        Self::is_conflict(defs, *row_data, i, j) && i < a ==> conflicts@.contains(
                            (i as usize, j as usize),
                        ),
                    forall|j: int|
                        Self::is_conflict(defs, *row_data, a as int, j) && j < b
                            ==> conflicts@.contains((a, j as usize)),
                decreases n - b,
            {
                let def_a = &self.profile.row_type_definitions[a];
                let def_b = &self.profile.row_type_definitions[b];
                if def_a.priority == def_b.priority && def_a.rule.matches(row_data)
                    && def_b.rule.matches(row_data) {
                    let ghost old_conflicts = conflicts@;
                    conflicts.push((a, b));
                    proof {
                        assert(conflicts@[conflicts@.len() - 1] == (a, b));
                        assert forall|i: int, j: int|
                            Self::is_conflict(defs, *row_data, i, j) && i < a implies conflicts@
                            .contains((i as usize, j as usize)) by {
                            let idx = choose|idx: int|
                                0 <= idx < old_conflicts.len() && old_conflicts[idx] == (
                                i as usize,
                                j as usize,
                                );
                            assert(conflicts@[idx] == (i as usize, j as usize));
                        }
                        assert forall|j: int|
                            Self::is_conflict(defs, *row_data, a as int, j) && j < b
                                + 1 implies conflicts@.contains((a, j as usize)) by {
                            if j < b {
                                let idx = choose|idx: int|
                                    0 <= idx < old_conflicts.len() && old_conflicts[idx] == (
                                    a,
                                    j as usize,
                                    );
                                assert(conflicts@[idx] == (a, j as usize));
                            } else {
                                assert(conflicts@[conflicts@.len() - 1] == (a, j as usize));
                            }
                        }
                    }
                }
                b += 1;
            }
            a += 1;
        }
        conflicts
    }
}

} // verus!
