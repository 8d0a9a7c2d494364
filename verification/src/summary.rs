//! The computational core of the cargo-analysis transformation: grouping one
//! classification pass's results into the values the summary report carries.

use vstd::prelude::*;

use crate::models::RowIdentificationResult;
use crate::models::RowType;
use crate::models::WorksheetData;
use crate::models::lemma_count_type_le_len;
use crate::models::row_type_eq_spec;
use crate::models::spec_count_type;
use crate::models::spec_first_non_blank;
use crate::pipeline::views_of;

verus! {

/// The project numbers of the classified rows: for each result classified as
/// a project-number row, in order, the content of that row's first non-empty
/// cell; a project-number row whose cells are all blank contributes nothing.
pub open spec fn spec_project_number_texts(
    ws: WorksheetData,
    results: Seq<RowIdentificationResult>,
) -> Seq<Seq<char>>
    decreases results.len(),
{
    if results.len() == 0 {
        Seq::empty()
    } else {
        let rest = spec_project_number_texts(ws, results.drop_last());
        let last = results.last();
        if row_type_eq_spec(last.row_type, RowType::ProjectNumber) && last.row_index
            < ws.rows@.len() {
            match spec_first_non_blank(ws.rows@[last.row_index as int].cells@) {
                Some(j) => rest + seq![ws.rows@[last.row_index as int].cells@[j].content@],
                None => rest,
            }
        } else {
            rest
        }
    }
}

/// The cabinet numbers of the classified rows: for each result classified as
/// a cabinet-number row, in order, the content of that row's second cell; a
/// cabinet-number row without a second cell contributes nothing.
pub open spec fn spec_cabinet_number_texts(
    ws: WorksheetData,
    results: Seq<RowIdentificationResult>,
) -> Seq<Seq<char>>
    decreases results.len(),
{
    if results.len() == 0 {
        Seq::empty()
    } else {
        let rest = spec_cabinet_number_texts(ws, results.drop_last());
        let last = results.last();
        if row_type_eq_spec(last.row_type, RowType::CabinetNumber) && last.row_index
            < ws.rows@.len() && ws.rows@[last.row_index as int].cells@.len() > 1 {
            rest + seq![ws.rows@[last.row_index as int].cells@[1].content@]
        } else {
            rest
        }
    }
}

/// What the cargo-analysis report summarises: the project numbers and
/// cabinet numbers found, and how many rows classified as plain data rows.
#[derive(Debug)]
pub struct CargoAnalysisSummary {
    pub project_numbers: Vec<String>,
    pub cabinet_numbers: Vec<String>,
    pub data_row_count: usize,
}

/// Groups one classification pass's results: collects each project-number
/// row's first non-empty cell, each cabinet-number row's second cell, and
/// counts the data rows. Every result must point at a row of the worksheet.
#[verifier::loop_isolation(false)]
pub fn summarize_cargo_rows(
    worksheet: &WorksheetData,
    results: &Vec<RowIdentificationResult>,
) -> (s: CargoAnalysisSummary)
    requires
        forall|i: int|
            0 <= i < results@.len() ==> (#[trigger] results@[i]).row_index
                < worksheet.rows@.len(),
    ensures
        views_of(s.project_numbers@) == spec_project_number_texts(*worksheet, results@),
        views_of(s.cabinet_numbers@) == spec_cabinet_number_texts(*worksheet, results@),
        s.data_row_count == spec_count_type(results@, RowType::Data),
{
    let n = results.len();
    let mut project_numbers: Vec<String> = Vec::new();
    let mut cabinet_numbers: Vec<String> = Vec::new();
    let mut data_row_count: usize = 0;
    let mut k: usize = 0;
    proof {
        assert(results@.subrange(0, 0) =~= Seq::<RowIdentificationResult>::empty());
        assert(views_of(project_numbers@) =~= spec_project_number_texts(
            *worksheet,
            results@.subrange(0, 0),
        ));
        assert(views_of(cabinet_numbers@) =~= spec_cabinet_number_texts(
            *worksheet,
            results@.subrange(0, 0),
        ));
    }
    while k < n
        invariant
            k <= n,
            n == results@.len(),
            views_of(project_numbers@) == spec_project_number_texts(
                *worksheet,
                results@.subrange(0, k as int),
            ),
            views_of(cabinet_numbers@) == spec_cabinet_number_texts(
                *worksheet,
                results@.subrange(0, k as int),
            ),
            data_row_count == spec_count_type(results@.subrange(0, k as int), RowType::Data),
        decreases n - k,
    {
        let ghost pre = results@.subrange(0, k as int);
        let ghost post = results@.subrange(0, k as int + 1);
        proof {
            assert(post.drop_last() =~= pre);
            assert(post.last() == results@[k as int]);
            lemma_count_type_le_len(pre, RowType::Data);
        }
        let result = &results[k];
        let row = &worksheet.rows[result.row_index];
        if result.row_type == RowType::ProjectNumber {
            match row.first_non_empty_cell() {
                Some(cell) => {
                    let ghost old_views = views_of(project_numbers@);
                    project_numbers.push(cell.content.clone());
                    proof {
                        assert(views_of(project_numbers@) =~= old_views.push(cell.content@));
                        assert(views_of(project_numbers@) =~= spec_project_number_texts(
                            *worksheet,
                            post,
                        ));
                    }
                },
                None => {},
            }
        } else if result.row_type == RowType::CabinetNumber {
            match row.get_cell(1) {
                Some(cell) => {
                    let ghost old_views = views_of(cabinet_numbers@);
                    cabinet_numbers.push(cell.content.clone());
                    proof {
                        assert(views_of(cabinet_numbers@) =~= old_views.push(cell.content@));
                        assert(views_of(cabinet_numbers@) =~= spec_cabinet_number_texts(
                            *worksheet,
                            post,
                        ));
                    }
                },
                None => {},
            }
        } else if result.row_type == RowType::Data {
            data_row_count += 1;
        }
        k += 1;
    }
    proof {
        assert(results@.subrange(0, n as int) =~= results@);
    }
    CargoAnalysisSummary { project_numbers, cabinet_numbers, data_row_count }
}

} // verus!
