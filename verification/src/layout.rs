//! The column layout of a listing: which column holds the name, which the
//! size and which the date, as the header row says, and which cell of a data
//! row lies over a given column. Cells may span several columns.

use crate::text::{
    chars_of, decimal_of, eq_ignore_ascii_case, option_text, parse_decimal, same_ignoring_case,
};
use vstd::prelude::*;
use vstd::slice::slice_subrange;

verus! {

/// The number of column positions that can be told apart. A running column
/// index never goes beyond it, and no column is recorded or found at it.
pub const COLUMN_LIMIT: u8 = 255;

/// The fields of an entry that the header row can name.
#[derive(Clone, Copy, Debug, PartialEq, Eq, Structural)]
pub enum Field {
    Name,
    Size,
    LastModified,
}

/// What kind of table cell an element is.
#[derive(Clone, Copy, Debug, PartialEq, Eq, Structural)]
pub enum CellKind {
    /// A `th` element.
    Header,
    /// A `td` element.
    Data,
    /// Any other element.
    Other,
}

/// One cell of a row, as far as the listing is concerned.
#[derive(Clone, Copy, Debug)]
pub struct Cell<'a> {
    pub kind: CellKind,
    /// The `colspan` attribute, where it is there and is a number.
    pub colspan: Option<u32>,
    /// The first piece of text inside the cell.
    pub text: Option<&'a str>,
}

/// The mathematical value of a cell.
pub struct CellModel {
    pub kind: CellKind,
    pub colspan: Option<u32>,
    pub text: Option<Seq<char>>,
}

/// The positions of the three columns, each one known or absent.
#[derive(Clone, Copy, Debug, PartialEq, Eq)]
pub struct ColumnLayout {
    pub link_position: Option<u8>,
    pub size_position: Option<u8>,
    pub date_position: Option<u8>,
}

impl<'a> View for Cell<'a> {
    type V = CellModel;

    open spec fn view(&self) -> CellModel {
        CellModel { kind: self.kind, colspan: self.colspan, text: option_text(self.text) }
    }
}

/// The values of a row of cells.
pub open spec fn models(cells: Seq<Cell>) -> Seq<CellModel> {
    Seq::new(cells.len(), |i: int| cells[i]@)
}

/// The number that an unsigned decimal numeral denotes: an optional plus
/// sign, then at least one digit, with a value that fits into 64 bits.
pub open spec fn unsigned_of(s: Seq<char>) -> Option<u64> {
    if s.len() > 0 && s[0] == '+' {
        decimal_of(s.skip(1))
    } else {
        decimal_of(s)
    }
}

/// The number that a `colspan` attribute holds, if it is there and is an
/// unsigned decimal numeral of at most 32 bits.
pub open spec fn colspan_of(attr: Option<Seq<char>>) -> Option<u32> {
    match attr {
        None => None,
        Some(s) => match unsigned_of(s) {
            Some(n) => if n <= u32::MAX {
                Some(n as u32)
            } else {
                None
            },
            None => None,
        },
    }
}

/// The kind of cell that a tag name stands for, whatever its case.
pub open spec fn kind_of_tag(tag: Seq<char>) -> CellKind {
    if same_ignoring_case(tag, "th"@) {
        CellKind::Header
    } else if same_ignoring_case(tag, "td"@) {
        CellKind::Data
    } else {
        CellKind::Other
    }
}

/// The field that a header text names, whatever its case.
pub open spec fn field_of_text(text: Seq<char>) -> Option<Field> {
    if same_ignoring_case(text, "Name"@) {
        Some(Field::Name)
    } else if same_ignoring_case(text, "Size"@) {
        Some(Field::Size)
    } else if same_ignoring_case(text, "Last modified"@) {
        Some(Field::LastModified)
    } else {
        None
    }
}

/// The value of the cell that an element with this tag, this `colspan`
/// attribute and this first text makes.
pub open spec fn cell_model(
    tag: Seq<char>,
    colspan: Option<Seq<char>>,
    text: Option<Seq<char>>,
) -> CellModel {
    CellModel { kind: kind_of_tag(tag), colspan: colspan_of(colspan), text }
}

/// The number of columns that a cell takes up: its `colspan`, one where it
/// has none, never less than one and never more than the column limit.
pub open spec fn width(cell: CellModel) -> int {
    match cell.colspan {
        None => 1,
        Some(n) => if n == 0 {
            1
        } else if n > COLUMN_LIMIT {
            COLUMN_LIMIT as int
        } else {
            n as int
        },
    }
}

/// The column at which the cell with index `k` starts, counting the cells of
/// one kind only: the sum of the widths of the cells of that kind before it.
pub open spec fn column_start(cells: Seq<CellModel>, kind: CellKind, k: int) -> int
    decreases k,
{
    if k <= 0 || k > cells.len() {
        0
    } else if cells[k - 1].kind == kind {
        column_start(cells, kind, k - 1) + width(cells[k - 1])
    } else {
        column_start(cells, kind, k - 1)
    }
}

/// The cell is a header cell whose text names the field.
pub open spec fn names_field(cell: CellModel, field: Field) -> bool {
    &&& cell.kind == CellKind::Header
    &&& cell.text matches Some(text)
    &&& field_of_text(text) == Some(field)
}

/// The cell with index `k` gives the field its column: it names the field
/// and starts below the column limit.
pub open spec fn records(cells: Seq<CellModel>, k: int, field: Field) -> bool {
    &&& 0 <= k < cells.len()
    &&& names_field(cells[k], field)
    &&& column_start(cells, CellKind::Header, k) < COLUMN_LIMIT
}

/// The column that the first `n` cells of a header row give a field: the
/// start of the last of them that records it.
pub open spec fn position_within(cells: Seq<CellModel>, field: Field, n: int) -> Option<u8>
    decreases n,
{
    if n <= 0 {
        None
    } else if records(cells, n - 1, field) {
        Some(column_start(cells, CellKind::Header, n - 1) as u8)
    } else {
        position_within(cells, field, n - 1)
    }
}

/// The column that a header row gives a field.
pub open spec fn position_of(cells: Seq<CellModel>, field: Field) -> Option<u8> {
    position_within(cells, field, cells.len() as int)
}

/// The layout that a header row describes.
pub open spec fn layout_of(cells: Seq<CellModel>) -> ColumnLayout {
    ColumnLayout {
        link_position: position_of(cells, Field::Name),
        size_position: position_of(cells, Field::Size),
        date_position: position_of(cells, Field::LastModified),
    }
}

/// The data cell with index `k` lies over column `p`.
pub open spec fn covers(cells: Seq<CellModel>, k: int, p: int) -> bool {
    &&& 0 <= k < cells.len()
    &&& cells[k].kind == CellKind::Data
    &&& column_start(cells, CellKind::Data, k) <= p < column_start(cells, CellKind::Data, k)
        + width(cells[k])
}

/// The first cell at or after `from` that lies over column `p`.
pub open spec fn covering_from(cells: Seq<CellModel>, p: int, from: int) -> Option<int>
    decreases cells.len() - from,
{
    if from < 0 || from >= cells.len() {
        None
    } else if covers(cells, from, p) {
        Some(from)
    } else {
        covering_from(cells, p, from + 1)
    }
}

/// The index of the data cell of a row that lies over a column of the
/// layout. An absent position finds nothing, and neither does the column
/// limit itself.
pub open spec fn located(cells: Seq<CellModel>, position: Option<u8>) -> Option<int> {
    match position {
        None => None,
        Some(p) => if p >= COLUMN_LIMIT {
            None
        } else {
            covering_from(cells, p as int, 0)
        },
    }
}

/// A row counts as a data row when it holds at least one data cell.
pub open spec fn is_data_row(cells: Seq<CellModel>) -> bool {
    exists|k: int| 0 <= k < cells.len() && (#[trigger] cells[k]).kind == CellKind::Data
}

/// A cell that is found lies inside the row, is a data cell and lies over
/// the column that was asked for.
pub proof fn law_located_cell_covers_the_column(cells: Seq<CellModel>, position: Option<u8>)
    ensures
        located(cells, position) matches Some(k) ==> position is Some && covers(
            cells,
            k,
            position->0 as int,
        ),
{
    if position is Some {
        lemma_covering_from(cells, position->0 as int, 0);
    }
}

/// What `covering_from` finds covers the position, and nothing between the
/// start of the search and the cell found does.
pub proof fn lemma_covering_from(cells: Seq<CellModel>, p: int, from: int)
    requires
        0 <= from,
    ensures
        covering_from(cells, p, from) matches Some(k) ==> from <= k && covers(cells, k, p)
            && forall|j: int| from <= j < k ==> !covers(cells, j, p),
        covering_from(cells, p, from) is None ==> forall|j: int| from <= j ==> !covers(cells, j, p),
    decreases cells.len() - from,
{
    if from < cells.len() && !covers(cells, from, p) {
        lemma_covering_from(cells, p, from + 1);
    }
}

/// No cell starts before column zero.
pub proof fn lemma_column_start_nonnegative(cells: Seq<CellModel>, kind: CellKind, k: int)
    ensures
        0 <= column_start(cells, kind, k),
    decreases k,
{
    if 0 < k <= cells.len() {
        lemma_column_start_nonnegative(cells, kind, k - 1);
    }
}

/// Columns only grow from one cell to the next.
pub proof fn lemma_column_start_grows(cells: Seq<CellModel>, kind: CellKind, j: int, k: int)
    requires
        0 <= j <= k <= cells.len(),
    ensures
        0 <= column_start(cells, kind, j) <= column_start(cells, kind, k),
        j < k && cells[j].kind == kind ==> column_start(cells, kind, j) + width(cells[j])
            <= column_start(cells, kind, k),
    decreases k - j,
{
    if j == k {
        lemma_column_start_nonnegative(cells, kind, j);
    } else {
        lemma_column_start_grows(cells, kind, j, k - 1);
    }
}

/// Behind the last cell that names a field, the header row gives the field
/// that cell's column, whatever follows.
proof fn lemma_position_behind_last_naming(cells: Seq<CellModel>, field: Field, k: int, n: int)
    requires
        records(cells, k, field),
        k < n <= cells.len(),
        forall|j: int| k < j < cells.len() ==> !names_field(#[trigger] cells[j], field),
    ensures
        position_within(cells, field, n) == Some(column_start(cells, CellKind::Header, k) as u8),
    decreases n - k,
{
    if n > k + 1 {
        lemma_position_behind_last_naming(cells, field, k, n - 1);
    }
}

/// The column of a field is the sum of the widths of the header cells that
/// stand before the last cell that names the field, as long as that sum
/// stays below the column limit.
pub proof fn law_position_is_sum_of_widths_before(cells: Seq<CellModel>, field: Field, k: int)
    requires
        0 <= k < cells.len(),
        names_field(cells[k], field),
        forall|j: int| k < j < cells.len() ==> !names_field(#[trigger] cells[j], field),
        column_start(cells, CellKind::Header, k) < COLUMN_LIMIT,
    ensures
        position_of(cells, field) == Some(column_start(cells, CellKind::Header, k) as u8),
        layout_of(cells).spec_position(field) == position_of(cells, field),
{
    lemma_position_behind_last_naming(cells, field, k, cells.len() as int);
}

/// A header cell with `colspan` 2 between the name and the size moves the
/// size two columns further: the size column lies at the column of the wide
/// cell plus two, plus the widths of the header cells between the two.
pub proof fn law_colspan_shifts_later_columns(
    cells: Seq<CellModel>,
    name_at: int,
    wide_at: int,
    size_at: int,
)
    requires
        0 <= name_at < wide_at < size_at < cells.len(),
        names_field(cells[name_at], Field::Name),
        forall|j: int| name_at < j < cells.len() ==> !names_field(#[trigger] cells[j], Field::Name),
        cells[wide_at].kind == CellKind::Header,
        cells[wide_at].colspan == Some(2u32),
        names_field(cells[size_at], Field::Size),
        forall|j: int| size_at < j < cells.len() ==> !names_field(#[trigger] cells[j], Field::Size),
        column_start(cells, CellKind::Header, size_at) < COLUMN_LIMIT,
    ensures
        layout_of(cells).link_position == Some(column_start(cells, CellKind::Header, name_at) as u8),
        layout_of(cells).size_position == Some(column_start(cells, CellKind::Header, size_at) as u8),
        column_start(cells, CellKind::Header, wide_at + 1) == column_start(
            cells,
            CellKind::Header,
            wide_at,
        ) + 2,
        column_start(cells, CellKind::Header, size_at) >= column_start(
            cells,
            CellKind::Header,
            name_at,
        ) + width(cells[name_at]) + 2,
{
    lemma_column_start_grows(cells, CellKind::Header, name_at, wide_at);
    lemma_column_start_grows(cells, CellKind::Header, wide_at, size_at);
    lemma_column_start_grows(cells, CellKind::Header, name_at, size_at);
    law_position_is_sum_of_widths_before(cells, Field::Name, name_at);
    law_position_is_sum_of_widths_before(cells, Field::Size, size_at);
}

/// A header row in which no cell names a field leaves that field without a
/// column.
pub proof fn law_unnamed_field_has_no_column(cells: Seq<CellModel>, field: Field)
    requires
        forall|k: int| 0 <= k < cells.len() ==> !names_field(#[trigger] cells[k], field),
    ensures
        position_of(cells, field) is None,
        layout_of(cells).spec_position(field) is None,
{
    lemma_unnamed_within(cells, field, cells.len() as int);
}

proof fn lemma_unnamed_within(cells: Seq<CellModel>, field: Field, n: int)
    requires
        n <= cells.len(),
        forall|k: int| 0 <= k < cells.len() ==> !names_field(#[trigger] cells[k], field),
    ensures
        position_within(cells, field, n) is None,
    decreases n,
{
    if n > 0 {
        lemma_unnamed_within(cells, field, n - 1);
    }
}

/// A column that a header row gives lies below the column limit.
pub proof fn law_positions_stay_below_the_limit(cells: Seq<CellModel>, field: Field)
    ensures
        position_of(cells, field) matches Some(p) ==> p < COLUMN_LIMIT,
        position_of(cells, field) matches Some(p) ==> exists|k: int|
            records(cells, k, field) && p == column_start(cells, CellKind::Header, k),
{
    lemma_position_is_recorded(cells, field, cells.len() as int);
}

proof fn lemma_position_is_recorded(cells: Seq<CellModel>, field: Field, n: int)
    requires
        n <= cells.len(),
    ensures
        position_within(cells, field, n) matches Some(p) ==> p < COLUMN_LIMIT && exists|k: int|
            records(cells, k, field) && p == column_start(cells, CellKind::Header, k),
    decreases n,
{
    if n > 0 {
        if records(cells, n - 1, field) {
            lemma_column_start_nonnegative(cells, CellKind::Header, n - 1);
        } else {
            lemma_position_is_recorded(cells, field, n - 1);
        }
    }
}

/// At most one data cell of a row lies over a column, and `located` finds
/// it: a cell that covers a position below the column limit is the one found.
pub proof fn law_covering_cell_is_found(cells: Seq<CellModel>, k: int, p: u8)
    requires
        covers(cells, k, p as int),
        p < COLUMN_LIMIT,
    ensures
        located(cells, Some(p)) == Some(k),
{
    lemma_covering_from(cells, p as int, 0);
    let found = covering_from(cells, p as int, 0);
    assert(found is Some);
    let j = found->0;
    if j < k {
        lemma_column_start_grows(cells, CellKind::Data, j, k);
    }
}

impl ColumnLayout {
    /// The layout in which no column is known.
    pub fn absent() -> (layout: ColumnLayout)
        ensures
            layout == (ColumnLayout {
                link_position: None,
                size_position: None,
                date_position: None,
            }),
    {
        ColumnLayout { link_position: None, size_position: None, date_position: None }
    }

    /// The position of a field's column.
    pub open spec fn spec_position(self, field: Field) -> Option<u8> {
        match field {
            Field::Name => self.link_position,
            Field::Size => self.size_position,
            Field::LastModified => self.date_position,
        }
    }

    /// The position of a field's column.
    #[verifier::when_used_as_spec(spec_position)]
    pub fn position(self, field: Field) -> (p: Option<u8>)
        ensures
            p == self.spec_position(field),
    {
        match field {
            Field::Name => self.link_position,
            Field::Size => self.size_position,
            Field::LastModified => self.date_position,
        }
    }
}

/// Reads a `colspan` attribute as a number.
pub fn parse_colspan(attr: Option<&str>) -> (colspan: Option<u32>)
    ensures
        colspan == colspan_of(option_text(attr)),
{
    let text = match attr {
        Some(text) => text,
        None => {
            return None;
        },
    };
    let chars = chars_of(text);
    let digits = if chars.len() > 0 && chars[0] == '+' {
        assert(chars@.subrange(1, chars@.len() as int) =~= chars@.skip(1));
        slice_subrange(chars.as_slice(), 1, chars.len())
    } else {
        chars.as_slice()
    };
    match parse_decimal(digits) {
        Some(n) => if n <= 0xFFFF_FFFF {
            Some(n as u32)
        } else {
            None
        },
        None => None,
    }
}

/// Tells the kind of cell from a tag name.
pub fn cell_kind(tag: &str) -> (kind: CellKind)
    ensures
        kind == kind_of_tag(tag@),
{
    if eq_ignore_ascii_case(tag, "th") {
        CellKind::Header
    } else if eq_ignore_ascii_case(tag, "td") {
        CellKind::Data
    } else {
        CellKind::Other
    }
}

/// Tells which field a header text names.
pub fn named_field(text: &str) -> (field: Option<Field>)
    ensures
        field == field_of_text(text@),
{
    if eq_ignore_ascii_case(text, "Name") {
        Some(Field::Name)
    } else if eq_ignore_ascii_case(text, "Size") {
        Some(Field::Size)
    } else if eq_ignore_ascii_case(text, "Last modified") {
        Some(Field::LastModified)
    } else {
        None
    }
}

impl<'a> Cell<'a> {
    /// The cell that an element with this tag name, this `colspan` attribute
    /// and this first text makes.
    pub fn new(tag: &str, colspan: Option<&str>, text: Option<&'a str>) -> (cell: Cell<'a>)
        ensures
            cell@ == cell_model(tag@, option_text(colspan), option_text(text)),
    {
        Cell { kind: cell_kind(tag), colspan: parse_colspan(colspan), text }
    }

    /// The number of columns that the cell takes up.
    pub fn width(&self) -> (w: u8)
        ensures
            w == width(self@),
            1 <= w,
    {
        match self.colspan {
            None => 1,
            Some(n) => if n == 0 {
                1
            } else if n > 255 {
                255
            } else {
                n as u8
            },
        }
    }
}

/// Finds the columns of the three fields in a header row.
///
/// The cells are read from left to right. Only header cells count. A cell
/// that names a field gives that field the column at which the cell starts;
/// where several cells name one field, the last of them decides. A cell that
/// starts at the column limit or beyond gives no column.
pub fn detect_layout(cells: &[Cell]) -> (layout: ColumnLayout)
    ensures
        layout == layout_of(models(cells@)),
{
    let ghost row = models(cells@);
    let mut layout = ColumnLayout::absent();
    let mut column: u8 = 0;
    let mut k: usize = 0;
    while k < cells.len()
        invariant
            k <= cells@.len(),
            row == models(cells@),
            0 <= column_start(row, CellKind::Header, k as int),
            column == if column_start(row, CellKind::Header, k as int) < COLUMN_LIMIT {
                column_start(row, CellKind::Header, k as int)
            } else {
                COLUMN_LIMIT as int
            },
            layout.link_position == position_within(row, Field::Name, k as int),
            layout.size_position == position_within(row, Field::Size, k as int),
            layout.date_position == position_within(row, Field::LastModified, k as int),
        decreases cells@.len() - k,
    {
        let cell = &cells[k];
        assert(row[k as int] == cell@);
        if cell.kind == CellKind::Header {
            if column < COLUMN_LIMIT {
                if let Some(text) = cell.text {
                    match named_field(text) {
                        Some(Field::Name) => {
                            layout.link_position = Some(column);
                        },
                        Some(Field::Size) => {
                            layout.size_position = Some(column);
                        },
                        Some(Field::LastModified) => {
                            layout.date_position = Some(column);
                        },
                        None => {},
                    }
                }
            }
            column = column.saturating_add(cell.width());
        }
        k += 1;
    }
    layout
}

/// Finds the data cell of a row that lies over a column.
///
/// The cells are read from left to right. Only data cells count. The result
/// is the index of the cell whose columns include the position.
pub fn locate_column(cells: &[Cell], position: Option<u8>) -> (found: Option<usize>)
    ensures
        match found {
            Some(k) => k < cells@.len() && located(models(cells@), position) == Some(k as int),
            None => located(models(cells@), position) is None,
        },
{
    let p = match position {
        Some(p) => p,
        None => {
            return None;
        },
    };
    if p >= COLUMN_LIMIT {
        return None;
    }
    let ghost row = models(cells@);
    let mut column: u8 = 0;
    let mut k: usize = 0;
    while k < cells.len()
        invariant
            k <= cells@.len(),
            p < COLUMN_LIMIT,
            position == Some(p),
            row == models(cells@),
            0 <= column_start(row, CellKind::Data, k as int),
            column == if column_start(row, CellKind::Data, k as int) < COLUMN_LIMIT {
                column_start(row, CellKind::Data, k as int)
            } else {
                COLUMN_LIMIT as int
            },
            covering_from(row, p as int, k as int) == covering_from(row, p as int, 0),
        decreases cells@.len() - k,
    {
        let cell = &cells[k];
        assert(row[k as int] == cell@);
        if cell.kind == CellKind::Data {
            let next = column.saturating_add(cell.width());
            if column <= p && p < next {
                return Some(k);
            }
            column = next;
        }
        k += 1;
    }
    None
}

/// Tells whether a row holds a data cell.
pub fn has_data_cell(cells: &[Cell]) -> (r: bool)
    ensures
        r == is_data_row(models(cells@)),
{
    let ghost row = models(cells@);
    let mut k: usize = 0;
    while k < cells.len()
        invariant
            k <= cells@.len(),
            row == models(cells@),
            forall|j: int| 0 <= j < k ==> (#[trigger] row[j]).kind != CellKind::Data,
        decreases cells@.len() - k,
    {
        assert(row[k as int] == cells@[k as int]@);
        if cells[k].kind == CellKind::Data {
            return true;
        }
        k += 1;
    }
    false
}

} // verus!
