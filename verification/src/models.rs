//! Value types describing spreadsheet cells, rows and worksheets, the row-type
//! vocabulary, and the result and statistics types of a classification pass.

use vstd::prelude::*;

use crate::text::is_ws;
use crate::text::is_ws_char;
use crate::text::spec_is_blank;

verus! {

/// An exact RGB colour value; equality is exact, with no tolerance.
#[derive(Debug, Clone, Copy, PartialEq, Eq, Structural)]
pub struct RgbColor {
    pub r: u8,
    pub g: u8,
    pub b: u8,
}

impl RgbColor {
    /// Builds a colour from its three channels.
    pub fn new(r: u8, g: u8, b: u8) -> (c: RgbColor)
        ensures
            c == (RgbColor { r, g, b }),
    {
        RgbColor { r, g, b }
    }

    /// Pure white, the colour a cell without an explicit background resolves to.
    pub fn white() -> (c: RgbColor)
        ensures
            c == (RgbColor { r: 255u8, g: 255u8, b: 255u8 }),
    {
        RgbColor { r: 255, g: 255, b: 255 }
    }
}

/// Styling of one cell: background and font colour, bold and italic flags.
/// An absent background colour is distinct from white at this level; the
/// recognition rules resolve absence to white when they match.
#[derive(Debug, Clone)]
pub struct CellStyle {
    pub background_color: Option<RgbColor>,
    pub font_color: Option<RgbColor>,
    pub bold: bool,
    pub italic: bool,
}

impl Default for CellStyle {
    /// A plain style: no colours, not bold, not italic.
    fn default() -> (s: CellStyle)
        ensures
            s.background_color is None,
            s.font_color is None,
            !s.bold,
            !s.italic,
    {
        CellStyle { background_color: None, font_color: None, bold: false, italic: false }
    }
}

/// The rectangular range of a merged cell group, with inclusive bounds.
#[derive(Debug, Clone)]
pub struct MergeInfo {
    pub start_col: usize,
    pub end_col: usize,
    pub start_row: usize,
    pub end_row: usize,
}

impl MergeInfo {
    /// The number of columns the merge covers.
    pub open spec fn spec_column_span(self) -> int {
        self.end_col - self.start_col + 1
    }

    /// The number of rows the merge covers.
    pub open spec fn spec_row_span(self) -> int {
        self.end_row - self.start_row + 1
    }

    /// The number of columns the merge covers, `end_col - start_col + 1`.
    pub fn column_span(&self) -> (n: usize)
        requires
            self.start_col <= self.end_col,
            self.end_col - self.start_col < usize::MAX,
        ensures
            n == self.spec_column_span(),
    {
        self.end_col - self.start_col + 1
    }

    /// The number of rows the merge covers, `end_row - start_row + 1`.
    pub fn row_span(&self) -> (n: usize)
        requires
            self.start_row <= self.end_row,
            self.end_row - self.start_row < usize::MAX,
        ensures
            n == self.spec_row_span(),
    {
        self.end_row - self.start_row + 1
    }
}

/// One spreadsheet cell: its column, flattened text content, style and, if it
/// belongs to a merged group, that group's range.
#[derive(Debug, Clone)]
pub struct CellData {
    pub column_index: usize,
    pub content: String,
    pub style: CellStyle,
    pub merge_info: Option<MergeInfo>,
}

impl CellData {
    /// The cell's content is blank: empty once whitespace is trimmed away.
    pub open spec fn spec_is_empty(self) -> bool {
        spec_is_blank(self.content@)
    }

    /// Whether the trimmed content is empty.
    pub fn is_empty(&self) -> (r: bool)
        ensures
            r == self.spec_is_empty(),
    {
        let s = self.content.as_str();
        let n = s.unicode_len();
        let mut i: usize = 0;
        while i < n
            invariant
                n == s@.len(),
                s@ == self.content@,
                i <= n,
                forall|k: int| 0 <= k < i ==> is_ws_char(s@[k]),
            decreases n - i,
        {
            if !is_ws(s.get_char(i)) {
                return false;
            }
            i += 1;
        }
        true
    }
}

/// The position of the first cell with non-blank content, if any.
pub open spec fn spec_first_non_blank(cells: Seq<CellData>) -> Option<int>
    decreases cells.len(),
{
    if cells.len() == 0 {
        None
    } else if !cells[0].spec_is_empty() {
        Some(0int)
    } else {
        match spec_first_non_blank(cells.subrange(1, cells.len() as int)) {
            Some(j) => Some(j + 1),
            None => None,
        }
    }
}

/// What [`spec_first_non_blank`] returns: `None` exactly when every cell is
/// blank, and otherwise the least index of a non-blank cell.
pub proof fn lemma_first_non_blank_properties(cells: Seq<CellData>)
    ensures
        spec_first_non_blank(cells) is None ==> forall|i: int|
            0 <= i < cells.len() ==> cells[i].spec_is_empty(),
        spec_first_non_blank(cells) matches Some(j) ==> 0 <= j < cells.len()
            && !cells[j].spec_is_empty() && forall|k: int| 0 <= k < j ==> cells[k].spec_is_empty(),
    decreases cells.len(),
{
    if cells.len() > 0 && cells[0].spec_is_empty() {
        let rest = cells.subrange(1, cells.len() as int);
        lemma_first_non_blank_properties(rest);
        assert(forall|i: int| 0 <= i < rest.len() ==> rest[i] == cells[i + 1]);
        match spec_first_non_blank(cells) {
            None => {
                assert(spec_first_non_blank(rest) is None);
                assert forall|i: int| 0 <= i < cells.len() implies cells[i].spec_is_empty() by {
                    if i > 0 {
                        assert(rest[i - 1] == cells[i]);
                    }
                }
            },
            Some(j) => {
                assert(spec_first_non_blank(rest) == Some(j - 1));
                assert(cells[j] == rest[j - 1]);
                assert forall|k: int| 0 <= k < j implies cells[k].spec_is_empty() by {
                    if k > 0 {
                        assert(rest[k - 1] == cells[k]);
                    }
                }
            },
        }
    }
}

proof fn lemma_first_non_blank_at(cells: Seq<CellData>, i: int)
    requires
        0 <= i < cells.len(),
        forall|k: int| 0 <= k < i ==> cells[k].spec_is_empty(),
        !cells[i].spec_is_empty(),
    ensures
        spec_first_non_blank(cells) == Some(i),
    decreases i,
{
    if i > 0 {
        let rest = cells.subrange(1, cells.len() as int);
        assert(forall|k: int| 0 <= k < i - 1 ==> rest[k] == cells[k + 1]);
        lemma_first_non_blank_at(rest, i - 1);
    }
}

proof fn lemma_first_non_blank_none(cells: Seq<CellData>)
    requires
        forall|k: int| 0 <= k < cells.len() ==> cells[k].spec_is_empty(),
    ensures
        spec_first_non_blank(cells) is None,
    decreases cells.len(),
{
    if cells.len() > 0 {
        let rest = cells.subrange(1, cells.len() as int);
        assert(forall|k: int| 0 <= k < rest.len() ==> rest[k] == cells[k + 1]);
        lemma_first_non_blank_none(rest);
    }
}

/// One spreadsheet row: its index and its cells, ordered by column index
/// starting at zero, contiguous for the row's populated width.
#[derive(Debug, Clone)]
pub struct RowData {
    pub row_index: usize,
    pub cells: Vec<CellData>,
}

impl RowData {
    /// The cell at the given column, or `None` past the populated width.
    pub fn get_cell(&self, column_index: usize) -> (r: Option<&CellData>)
        ensures
            (r is Some) == (column_index < self.cells@.len()),
            r matches Some(c) ==> *c == self.cells@[column_index as int],
    {
        if column_index < self.cells.len() {
            Some(&self.cells[column_index])
        } else {
            None
        }
    }

    /// The first cell, in column order, whose trimmed content is non-empty.
    pub fn first_non_empty_cell(&self) -> (r: Option<&CellData>)
        ensures
            (r is Some) == (spec_first_non_blank(self.cells@) is Some),
            r matches Some(c) ==> spec_first_non_blank(self.cells@) matches Some(j) && *c
                == self.cells@[j],
    {
        let n = self.cells.len();
        let mut i: usize = 0;
        while i < n
            invariant
                n == self.cells@.len(),
                i <= n,
                forall|k: int| 0 <= k < i ==> self.cells@[k].spec_is_empty(),
            decreases n - i,
        {
            let cell = &self.cells[i];
            if !cell.is_empty() {
                proof {
                    lemma_first_non_blank_at(self.cells@, i as int);
                }
                return Some(cell);
            }
            i += 1;
        }
        proof {
            lemma_first_non_blank_none(self.cells@);
        }
        None
    }
}

/// One worksheet: its name and all of its rows, in sheet order.
#[derive(Debug, Clone)]
pub struct WorksheetData {
    pub name: String,
    pub rows: Vec<RowData>,
}

impl WorksheetData {
    /// The row at the given index, or `None` out of range.
    pub fn get_row(&self, row_index: usize) -> (r: Option<&RowData>)
        ensures
            (r is Some) == (row_index < self.rows@.len()),
            r matches Some(row) ==> *row == self.rows@[row_index as int],
    {
        if row_index < self.rows.len() {
            Some(&self.rows[row_index])
        } else {
            None
        }
    }

    /// The number of rows in the worksheet.
    pub fn row_count(&self) -> (n: usize)
        ensures
            n == self.rows@.len(),
    {
        self.rows.len()
    }
}

/// The semantic category assigned to one spreadsheet row. `Unknown` is the
/// universal fallback and never a configured rule's declared type; `Custom`
/// carries a caller-chosen category name.
#[derive(Debug, Clone)]
pub enum RowType {
    ProjectNumber,
    CabinetNumber,
    Header,
    Data,
    SubTotal,
    UnitTotal,
    GrandTotal,
    Unknown,
    Custom(String),
}

/// Equality of row types: same variant, and for `Custom` the same name.
pub open spec fn row_type_eq_spec(a: RowType, b: RowType) -> bool {
    match (a, b) {
        (RowType::ProjectNumber, RowType::ProjectNumber) => true,
        (RowType::CabinetNumber, RowType::CabinetNumber) => true,
        (RowType::Header, RowType::Header) => true,
        (RowType::Data, RowType::Data) => true,
        (RowType::SubTotal, RowType::SubTotal) => true,
        (RowType::UnitTotal, RowType::UnitTotal) => true,
        (RowType::GrandTotal, RowType::GrandTotal) => true,
        (RowType::Unknown, RowType::Unknown) => true,
        (RowType::Custom(x), RowType::Custom(y)) => x@ == y@,
        _ => false,
    }
}

impl PartialEq for RowType {
    fn eq(&self, other: &RowType) -> (r: bool) {
        match (self, other) {
            (RowType::ProjectNumber, RowType::ProjectNumber) => true,
            (RowType::CabinetNumber, RowType::CabinetNumber) => true,
            (RowType::Header, RowType::Header) => true,
            (RowType::Data, RowType::Data) => true,
            (RowType::SubTotal, RowType::SubTotal) => true,
            (RowType::UnitTotal, RowType::UnitTotal) => true,
            (RowType::GrandTotal, RowType::GrandTotal) => true,
            (RowType::Unknown, RowType::Unknown) => true,
            (RowType::Custom(x), RowType::Custom(y)) => *x == *y,
            _ => false,
        }
    }
}

impl vstd::std_specs::cmp::PartialEqSpecImpl for RowType {
    open spec fn obeys_eq_spec() -> bool {
        true
    }

    open spec fn eq_spec(&self, other: &RowType) -> bool {
        row_type_eq_spec(*self, *other)
    }
}

impl RowType {
    /// A structurally equal copy of this row type.
    pub fn duplicate(&self) -> (r: RowType)
        ensures
            r == *self,
    {
        match self {
            RowType::ProjectNumber => RowType::ProjectNumber,
            RowType::CabinetNumber => RowType::CabinetNumber,
            RowType::Header => RowType::Header,
            RowType::Data => RowType::Data,
            RowType::SubTotal => RowType::SubTotal,
            RowType::UnitTotal => RowType::UnitTotal,
            RowType::GrandTotal => RowType::GrandTotal,
            RowType::Unknown => RowType::Unknown,
            RowType::Custom(name) => RowType::Custom(name.clone()),
        }
    }
}

/// The outcome of classifying one row: the row's index, the category assigned,
/// the name of the rule that matched (`"none"` when none did), and that rule's
/// confidence in millionths of 1.0.
#[derive(Debug, Clone)]
pub struct RowIdentificationResult {
    pub row_index: usize,
    pub row_type: RowType,
    pub matched_rule: String,
    pub confidence: u32,
}

/// How many results carry a row type equal to `rt`.
pub open spec fn spec_count_type(results: Seq<RowIdentificationResult>, rt: RowType) -> nat
    decreases results.len(),
{
    if results.len() == 0 {
        0
    } else {
        spec_count_type(results.drop_last(), rt) + (if row_type_eq_spec(
            results.last().row_type,
            rt,
        ) {
            1nat
        } else {
            0nat
        })
    }
}

/// A type never occurs more often than there are results.
pub proof fn lemma_count_type_le_len(results: Seq<RowIdentificationResult>, rt: RowType)
    ensures
        spec_count_type(results, rt) <= results.len(),
    decreases results.len(),
{
    if results.len() > 0 {
        lemma_count_type_le_len(results.drop_last(), rt);
    }
}

/// Equal row types are counted alike.
proof fn lemma_count_type_respects_eq(
    results: Seq<RowIdentificationResult>,
    a: RowType,
    b: RowType,
)
    requires
        row_type_eq_spec(a, b),
    ensures
        spec_count_type(results, a) == spec_count_type(results, b),
    decreases results.len(),
{
    if results.len() > 0 {
        lemma_count_type_respects_eq(results.drop_last(), a, b);
    }
}

proof fn lemma_count_type_zero_when_none_eq(results: Seq<RowIdentificationResult>, rt: RowType)
    requires
        forall|j: int| 0 <= j < results.len() ==> !row_type_eq_spec(
            (#[trigger] results[j]).row_type,
            rt,
        ),
    ensures
        spec_count_type(results, rt) == 0,
    decreases results.len(),
{
    if results.len() > 0 {
        assert(results.last() == results[results.len() - 1]);
        lemma_count_type_zero_when_none_eq(results.drop_last(), rt);
    }
}

proof fn lemma_count_type_step(results: Seq<RowIdentificationResult>, k: int, rt: RowType)
    requires
        0 <= k < results.len(),
    ensures
        spec_count_type(results.subrange(0, k + 1), rt) == spec_count_type(
            results.subrange(0, k),
            rt,
        ) + (if row_type_eq_spec(results[k].row_type, rt) {
            1nat
        } else {
            0nat
        }),
{
    let pre = results.subrange(0, k + 1);
    assert(pre.drop_last() =~= results.subrange(0, k));
    assert(pre.last() == results[k]);
}

/// The success rate in millionths of 1.0: the share of rows that were not
/// classified `Unknown`, or 0 when there are no rows.
pub open spec fn spec_success_rate(total: int, unknown: int) -> int {
    if total == 0 {
        0
    } else {
        ((total - unknown) * 1000000) / total
    }
}

/// Some entry of the count table has a key equal to `rt`.
pub open spec fn has_type_key(counts: Seq<(RowType, usize)>, rt: RowType) -> bool {
    exists|i: int| 0 <= i < counts.len() && row_type_eq_spec(rt, (#[trigger] counts[i]).0)
}

/// Aggregate statistics over one classification pass: the number of rows, how
/// often each row type occurred, how many rows stayed `Unknown`, and the
/// success rate in millionths of 1.0.
#[derive(Debug, Clone)]
pub struct IdentificationStatistics {
    pub total_rows: usize,
    pub row_type_counts: Vec<(RowType, usize)>,
    pub unknown_count: usize,
    pub success_rate: u32,
}

impl IdentificationStatistics {
    /// The count table carries each row type that occurs in `results`, exactly
    /// once, with its exact number of occurrences, and nothing else.
    pub open spec fn counts_exact(self, results: Seq<RowIdentificationResult>) -> bool {
        &&& forall|i: int|
            0 <= i < self.row_type_counts@.len() ==> (#[trigger] self.row_type_counts@[i]).1
                == spec_count_type(results, self.row_type_counts@[i].0)
                && self.row_type_counts@[i].1 >= 1
        &&& forall|k: int|
            0 <= k < results.len() ==> has_type_key(
                self.row_type_counts@,
                (#[trigger] results[k]).row_type,
            )
        &&& forall|i: int, j: int|
            0 <= i < j < self.row_type_counts@.len() ==> !row_type_eq_spec(
                (#[trigger] self.row_type_counts@[i]).0,
                (#[trigger] self.row_type_counts@[j]).0,
            )
    }

    /// Derives the statistics of a result list: `total_rows` is its length,
    /// `unknown_count` the number of `Unknown` results, the count table is
    /// exact, and `success_rate == (total - unknown) / total` in millionths,
    /// 0 for an empty list.
    pub fn from_results(results: &Vec<RowIdentificationResult>) -> (stats:
        IdentificationStatistics)
        ensures
            stats.total_rows == results@.len(),
            stats.unknown_count == spec_count_type(results@, RowType::Unknown),
            stats.success_rate == spec_success_rate(
                results@.len() as int,
                stats.unknown_count as int,
            ),
            stats.counts_exact(results@),
    {
        let total_rows = results.len();
        let mut row_type_counts: Vec<(RowType, usize)> = Vec::new();
        let mut unknown_count: usize = 0;
        let mut k: usize = 0;
        while k < total_rows
            invariant
                total_rows == results@.len(),
                k <= total_rows,
                unknown_count == spec_count_type(results@.subrange(0, k as int), RowType::Unknown),
                forall|i: int|
                    0 <= i < row_type_counts@.len() ==> (#[trigger] row_type_counts@[i]).1
                        == spec_count_type(
                        results@.subrange(0, k as int),
                        row_type_counts@[i].0,
                    ) && row_type_counts@[i].1 >= 1,
                forall|j: int|
                    0 <= j < k ==> has_type_key(
                        row_type_counts@,
                        (#[trigger] results@[j]).row_type,
                    ),
                forall|i: int, j: int|
                    0 <= i < j < row_type_counts@.len() ==> !row_type_eq_spec(
                        (#[trigger] row_type_counts@[i]).0,
                        (#[trigger] row_type_counts@[j]).0,
                    ),
            decreases total_rows - k,
        {
            let result = &results[k];
            proof {
                lemma_count_type_le_len(results@.subrange(0, k as int), RowType::Unknown);
                assert(results@.subrange(0, k as int).len() == k);
            }
            if result.row_type == RowType::Unknown {
                unknown_count += 1;
            }
            let mut idx: usize = 0;
            let n_counts = row_type_counts.len();
            let mut found: bool = false;
            while idx < n_counts && !found
                invariant
                    n_counts == row_type_counts@.len(),
                    idx <= n_counts,
                    k < total_rows,
                    total_rows == results@.len(),
                    !found ==> forall|i: int|
                        0 <= i < idx ==> !row_type_eq_spec(
                            (#[trigger] row_type_counts@[i]).0,
                            results@[k as int].row_type,
                        ),
                    found ==> idx < n_counts && row_type_eq_spec(
                        row_type_counts@[idx as int].0,
                        results@[k as int].row_type,
                    ),
                decreases n_counts - idx, (if found { 0int } else { 1int }),
            {
                if row_type_counts[idx].0 == results[k].row_type {
                    found = true;
                } else {
                    idx += 1;
                }
            }
            proof {
                lemma_count_type_step(results@, k as int, RowType::Unknown);
            }
            if found {
                let ghost old_counts = row_type_counts@;
                let ghost pre = results@.subrange(0, k as int);
                proof {
                    lemma_count_type_le_len(pre, old_counts[idx as int].0);
                    lemma_count_type_step(results@, k as int, old_counts[idx as int].0);
                    lemma_count_type_respects_eq(
                        pre,
                        old_counts[idx as int].0,
                        results@[k as int].row_type,
                    );
                }
                let entry = &mut row_type_counts[idx];
                entry.1 = entry.1 + 1;
                proof {
                    assert(row_type_counts@.len() == old_counts.len());
                    assert(forall|i: int|
                        0 <= i < old_counts.len() ==> (#[trigger] row_type_counts@[i]).0
                            == old_counts[i].0);
                    assert forall|i: int|
                        0 <= i < row_type_counts@.len() implies (#[trigger] row_type_counts@[i]).1
                        == spec_count_type(
                        results@.subrange(0, k as int + 1),
                        row_type_counts@[i].0,
                    ) && row_type_counts@[i].1 >= 1 by {
                        lemma_count_type_step(results@, k as int, row_type_counts@[i].0);
                        if i != idx as int {
                            assert(row_type_counts@[i] == old_counts[i]);
                        }
                    }
                    assert forall|j: int| 0 <= j < k + 1 implies has_type_key(
                        row_type_counts@,
                        (#[trigger] results@[j]).row_type,
                    ) by {
                        if j < k {
                            let i0 = choose|i: int|
                                0 <= i < old_counts.len() && row_type_eq_spec(
                                    results@[j].row_type,
                                    (#[trigger] old_counts[i]).0,
                                );
                            assert(0 <= i0 < row_type_counts@.len() && row_type_eq_spec(
                                results@[j].row_type,
                                row_type_counts@[i0].0,
                            ));
                        } else {
                            assert(0 <= idx < row_type_counts@.len() && row_type_eq_spec(
                                results@[j].row_type,
                                row_type_counts@[idx as int].0,
                            ));
                        }
                    }
                }
            } else {
                let ghost old_counts = row_type_counts@;
                let ghost pre = results@.subrange(0, k as int);
                let ghost rt_new = results@[k as int].row_type;
                proof {
                    assert forall|j: int| 0 <= j < pre.len() implies !row_type_eq_spec(
                        (#[trigger] pre[j]).row_type,
                        rt_new,
                    ) by {
                        assert(pre[j] == results@[j]);
                        if row_type_eq_spec(results@[j].row_type, rt_new) {
                            let i = choose|i: int|
                                0 <= i < old_counts.len() && row_type_eq_spec(
                                    results@[j].row_type,
                                    old_counts[i].0,
                                );
                            assert(row_type_eq_spec(old_counts[i].0, rt_new));
                        }
                    }
                    lemma_count_type_zero_when_none_eq(pre, rt_new);
                    lemma_count_type_step(results@, k as int, rt_new);
                }
                row_type_counts.push((result.row_type.duplicate(), 1));
                proof {
                    let new_len = row_type_counts@.len() as int;
                    assert forall|i: int|
                        0 <= i < new_len implies (#[trigger] row_type_counts@[i]).1
                        == spec_count_type(
                        results@.subrange(0, k as int + 1),
                        row_type_counts@[i].0,
                    ) && row_type_counts@[i].1 >= 1 by {
                        lemma_count_type_step(results@, k as int, row_type_counts@[i].0);
                        if i < new_len - 1 {
                            assert(row_type_counts@[i] == old_counts[i]);
                            assert(!row_type_eq_spec(old_counts[i].0, rt_new));
                        } else {
                            lemma_count_type_respects_eq(pre, rt_new, row_type_counts@[i].0);
                            lemma_count_type_zero_when_none_eq(pre, rt_new);
                        }
                    }
                    assert forall|j: int| 0 <= j < k + 1 implies has_type_key(
                        row_type_counts@,
                        (#[trigger] results@[j]).row_type,
                    ) by {
                        if j < k {
                            let i0 = choose|i: int|
                                0 <= i < old_counts.len() && row_type_eq_spec(
                                    results@[j].row_type,
                                    (#[trigger] old_counts[i]).0,
                                );
                            assert(row_type_counts@[i0] == old_counts[i0]);
                            assert(0 <= i0 < row_type_counts@.len() && row_type_eq_spec(
                                results@[j].row_type,
                                row_type_counts@[i0].0,
                            ));
                        } else {
                            assert(row_type_counts@[new_len - 1].0 == rt_new);
                            assert(0 <= new_len - 1 < row_type_counts@.len() && row_type_eq_spec(
                                results@[j].row_type,
                                row_type_counts@[new_len - 1].0,
                            ));
                        }
                    }
                }
            }
            k += 1;
        }
        proof {
            assert(results@.subrange(0, total_rows as int) =~= results@);
            lemma_count_type_le_len(results@, RowType::Unknown);
        }
        let success_rate: u32 = if total_rows > 0 {
            let scaled: u128 = ((total_rows - unknown_count) as u128) * 1000000u128 / (
            total_rows as u128);
            proof {
                assert(((total_rows - unknown_count) as int) * 1000000 / (total_rows as int)
                    <= 1000000) by (nonlinear_arith)
                    requires
                        0 < total_rows,
                        unknown_count <= total_rows,
                ;
            }
            scaled as u32
        } else {
            0
        };
        IdentificationStatistics { total_rows, row_type_counts, unknown_count, success_rate }
    }
}

} // verus!
