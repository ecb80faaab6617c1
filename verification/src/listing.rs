//! The listing itself: from a parsed document to its entries, and from an
//! entry to its link, its size and its date.

use crate::dom::{
    attr_of, attribute, child_elements, children_of, first_match, first_match_of, first_text,
    first_text_of, tag_name, tag_of,
};
use crate::layout::{
    cell_model, detect_layout, has_data_cell, is_data_row, law_unnamed_field_has_no_column,
    layout_of, locate_column, located, models, names_field, Cell, CellModel, ColumnLayout, Field,
};
use crate::size::{decode_size, decoded_size};
use crate::text::trimmed;
use crate::timestamp::{
    decode_timestamp, decoded_timestamp, is_timestamp_text, timestamp_fields, Timestamp,
};
use scraper::{ElementRef, Html};
use vstd::prelude::*;

verus! {

/// One entry of a listing: a data row of the table, together with the layout
/// that the header row gave.
pub struct Element<'a> {
    pub element: ElementRef<'a>,
    pub layout: ColumnLayout,
}

/// The table body that holds the listing: the first element of the document
/// that the selector `tbody` matches.
pub open spec fn table_body_of(html: &Html) -> Option<ElementRef> {
    first_match_of(html, "tbody"@)
}

/// The cell that an element of a row makes.
pub open spec fn cell_of(element: ElementRef) -> CellModel {
    cell_model(tag_of(element), attr_of(element, "colspan"@), first_text_of(element))
}

/// The cells of a row: one for each of its child elements, in order.
pub open spec fn cells_of(row: ElementRef) -> Seq<CellModel> {
    Seq::new(children_of(row).len(), |i: int| cell_of(children_of(row)[i]))
}

/// The first child element of an element, if it has one.
pub open spec fn first_child_of(element: ElementRef) -> Option<ElementRef> {
    if children_of(element).len() > 0 {
        Some(children_of(element)[0])
    } else {
        None
    }
}

/// The data cell of a row that lies over a column.
pub open spec fn column_of(row: ElementRef, position: Option<u8>) -> Option<ElementRef> {
    match located(cells_of(row), position) {
        Some(k) => Some(children_of(row)[k]),
        None => None,
    }
}

/// The first text of the data cell of a row that lies over a column.
pub open spec fn text_at(row: ElementRef, position: Option<u8>) -> Option<Seq<char>> {
    match column_of(row, position) {
        Some(cell) => first_text_of(cell),
        None => None,
    }
}

/// The link of a row: the first child element of its name cell.
pub open spec fn link_of(row: ElementRef, layout: ColumnLayout) -> Option<ElementRef> {
    match column_of(row, layout.link_position) {
        Some(cell) => first_child_of(cell),
        None => None,
    }
}

/// The size of a row: what the text of its size cell decodes to.
pub open spec fn size_of(row: ElementRef, layout: ColumnLayout) -> Option<u64> {
    match text_at(row, layout.size_position) {
        Some(text) => decoded_size(text),
        None => None,
    }
}

/// The date of a row: what the text of its date cell decodes to.
pub open spec fn date_of(row: ElementRef, layout: ColumnLayout) -> Option<Timestamp> {
    match text_at(row, layout.date_position) {
        Some(text) => decoded_timestamp(text),
        None => None,
    }
}

/// The entries that a sequence of rows gives: the rows that hold a data
/// cell, in their order, each with the layout.
pub open spec fn entries_of(rows: Seq<ElementRef>, layout: ColumnLayout) -> Seq<Element>
    decreases rows.len(),
{
    if rows.len() == 0 {
        Seq::empty()
    } else if is_data_row(cells_of(rows.last())) {
        entries_of(rows.drop_last(), layout).push(Element { element: rows.last(), layout })
    } else {
        entries_of(rows.drop_last(), layout)
    }
}

/// The listing of a document: nothing where the document has no table body
/// or the table body has no row; otherwise the entries of the rows behind
/// the first, under the layout that the first row describes.
pub open spec fn listing_of(html: &Html) -> Option<Seq<Element>> {
    match table_body_of(html) {
        Some(body) => {
            let rows = children_of(body);
            if rows.len() > 0 {
                Some(entries_of(rows.skip(1), layout_of(cells_of(rows[0]))))
            } else {
                None
            }
        },
        None => None,
    }
}

/// The entries of a sequence of rows are its data rows and nothing else:
/// every entry is one of the rows, holds a data cell and carries the layout;
/// and every row that holds a data cell is an entry.
pub proof fn law_entries_are_the_data_rows(rows: Seq<ElementRef>, layout: ColumnLayout)
    ensures
        entries_of(rows, layout).len() <= rows.len(),
        forall|i: int|
            0 <= i < entries_of(rows, layout).len() ==> {
                let entry = #[trigger] entries_of(rows, layout)[i];
                &&& entry.layout == layout
                &&& is_data_row(cells_of(entry.element))
                &&& rows.contains(entry.element)
            },
        forall|j: int|
            0 <= j < rows.len() && is_data_row(cells_of(#[trigger] rows[j])) ==> exists|i: int|
                0 <= i < entries_of(rows, layout).len() && (#[trigger] entries_of(
                    rows,
                    layout,
                )[i]).element == rows[j],
    decreases rows.len(),
{
    if rows.len() > 0 {
        let front = rows.drop_last();
        let before = entries_of(front, layout);
        let all = entries_of(rows, layout);
        law_entries_are_the_data_rows(front, layout);
        assert forall|i: int| 0 <= i < all.len() implies {
            let entry = #[trigger] all[i];
            &&& entry.layout == layout
            &&& is_data_row(cells_of(entry.element))
            &&& rows.contains(entry.element)
        } by {
            if i < before.len() {
                assert(all[i] == before[i]);
                let k = choose|k: int| 0 <= k < front.len() && front[k] == before[i].element;
                assert(rows[k] == before[i].element);
            } else {
                assert(rows[rows.len() - 1] == rows.last());
            }
        }
        assert forall|j: int|
            0 <= j < rows.len() && is_data_row(cells_of(#[trigger] rows[j])) implies exists|i: int|
            0 <= i < all.len() && (#[trigger] all[i]).element == rows[j] by {
            if j < front.len() {
                assert(front[j] == rows[j]);
                let i = choose|i: int|
                    0 <= i < before.len() && (#[trigger] before[i]).element == front[j];
                assert(all[i] == before[i]);
            } else {
                assert(all[before.len() as int].element == rows[j]);
            }
        }
    }
}

/// An entry has a date only where its date cell holds a text that, once
/// trimmed, has the fixed pattern; the date is then what that text spells
/// out.
pub proof fn law_date_needs_the_pattern(row: ElementRef, layout: ColumnLayout)
    ensures
        date_of(row, layout) matches Some(stamp) ==> text_at(row, layout.date_position) matches Some(
            text,
        ) && is_timestamp_text(trimmed(text)) && stamp == timestamp_fields(trimmed(text)),
{
}

/// An entry has a size only where its size cell holds a text, and the size
/// is then what that text decodes to.
pub proof fn law_size_is_decoded_cell_text(row: ElementRef, layout: ColumnLayout)
    ensures
        size_of(row, layout) matches Some(bytes) ==> text_at(row, layout.size_position) matches Some(
            text,
        ) && decoded_size(text) == Some(bytes),
{
}

/// Where the header row names no size column, no row has a size, while link
/// and date are what they would be under any other size column.
pub proof fn law_missing_size_column(header: Seq<CellModel>, row: ElementRef, other: Option<u8>)
    requires
        forall|k: int| 0 <= k < header.len() ==> !names_field(#[trigger] header[k], Field::Size),
    ensures
        layout_of(header).size_position is None,
        size_of(row, layout_of(header)) is None,
        link_of(row, layout_of(header)) == link_of(
            row,
            ColumnLayout { size_position: other, ..layout_of(header) },
        ),
        date_of(row, layout_of(header)) == date_of(
            row,
            ColumnLayout { size_position: other, ..layout_of(header) },
        ),
{
    law_unnamed_field_has_no_column(header, Field::Size);
}

/// A column that the layout does not know gives no value in any row.
pub proof fn law_absent_column_gives_nothing(row: ElementRef, layout: ColumnLayout)
    ensures
        layout.link_position is None ==> link_of(row, layout) is None,
        layout.size_position is None ==> size_of(row, layout) is None,
        layout.date_position is None ==> date_of(row, layout) is None,
{
}

/// Reads one child element of a row as a cell.
pub fn read_cell<'a>(element: ElementRef<'a>) -> (cell: Cell<'a>)
    ensures
        cell@ == cell_of(element),
{
    Cell::new(tag_name(element), attribute(element, "colspan"), first_text(element))
}

/// Reads the child elements of a row, and the cell that each of them makes.
pub fn read_row<'a>(row: ElementRef<'a>) -> (read: (Vec<ElementRef<'a>>, Vec<Cell<'a>>))
    ensures
        read.0@ == children_of(row),
        models(read.1@) == cells_of(row),
{
    let children = child_elements(row);
    let mut cells: Vec<Cell<'a>> = Vec::new();
    let mut i: usize = 0;
    while i < children.len()
        invariant
            i <= children@.len(),
            children@ == children_of(row),
            cells@.len() == i,
            forall|j: int| 0 <= j < i ==> (#[trigger] cells@[j])@ == cell_of(children@[j]),
        decreases children@.len() - i,
    {
        cells.push(read_cell(children[i]));
        i += 1;
    }
    assert(models(cells@) =~= cells_of(row));
    (children, cells)
}

/// Reads an Apache-style directory listing out of a parsed document.
///
/// The listing is the first table body of the document. Its first row is the
/// header row, which decides the layout. Every later row that holds a data
/// cell is an entry. A document without a table body, or with an empty one,
/// is no listing.
pub fn apache_grzyby_index_iter<'a>(html: &'a Html) -> (entries: Option<Vec<Element<'a>>>)
    ensures
        match entries {
            Some(found) => listing_of(html) == Some(found@),
            None => listing_of(html) is None,
        },
        table_body_of(html) is None ==> entries is None,
{
    let body = match first_match(html, "tbody") {
        Some(body) => body,
        None => {
            return None;
        },
    };
    let rows = child_elements(body);
    if rows.len() == 0 {
        return None;
    }
    let (_, header) = read_row(rows[0]);
    let layout = detect_layout(header.as_slice());
    let mut found: Vec<Element<'a>> = Vec::new();
    let mut i: usize = 1;
    assert(rows@.subrange(1, 1) =~= Seq::empty());
    while i < rows.len()
        invariant
            1 <= i <= rows@.len(),
            found@ == entries_of(rows@.subrange(1, i as int), layout),
        decreases rows@.len() - i,
    {
        let row = rows[i];
        let (_, cells) = read_row(row);
        assert(rows@.subrange(1, i + 1).drop_last() =~= rows@.subrange(1, i as int));
        assert(rows@.subrange(1, i + 1).last() == row);
        if has_data_cell(cells.as_slice()) {
            found.push(Element { element: row, layout });
        }
        i += 1;
    }
    assert(rows@.subrange(1, rows@.len() as int) =~= rows@.skip(1));
    Some(found)
}

impl<'a> Element<'a> {
    /// The data cell of the row that lies over a column of the layout.
    pub fn nth_column(&self, position: Option<u8>) -> (cell: Option<ElementRef<'a>>)
        ensures
            cell == column_of(self.element, position),
    {
        let (children, cells) = read_row(self.element);
        match locate_column(cells.as_slice(), position) {
            Some(k) => {
                assert(models(cells@).len() == children@.len());
                Some(children[k])
            },
            None => None,
        }
    }

    /// The link of the entry: the first child element of its name cell.
    pub fn get_link(&self) -> (link: Option<ElementRef<'a>>)
        ensures
            link == link_of(self.element, self.layout),
            self.layout.link_position is None ==> link is None,
    {
        let cell = match self.nth_column(self.layout.link_position) {
            Some(cell) => cell,
            None => {
                return None;
            },
        };
        let inside = child_elements(cell);
        if inside.len() > 0 {
            Some(inside[0])
        } else {
            None
        }
    }

    /// The date of the entry: what the text of its date cell decodes to.
    pub fn get_date(&self) -> (date: Option<Timestamp>)
        ensures
            date == date_of(self.element, self.layout),
            self.layout.date_position is None ==> date is None,
            date matches Some(stamp) ==> text_at(self.element, self.layout.date_position) matches Some(
                text,
            ) && is_timestamp_text(trimmed(text)) && stamp == timestamp_fields(trimmed(text)),
    {
        let cell = match self.nth_column(self.layout.date_position) {
            Some(cell) => cell,
            None => {
                return None;
            },
        };
        match first_text(cell) {
            Some(text) => decode_timestamp(text),
            None => None,
        }
    }

    /// The size of the entry in bytes: what the text of its size cell
    /// decodes to.
    pub fn get_size(&self) -> (size: Option<u64>)
        ensures
            size == size_of(self.element, self.layout),
            self.layout.size_position is None ==> size is None,
    {
        let cell = match self.nth_column(self.layout.size_position) {
            Some(cell) => cell,
            None => {
                return None;
            },
        };
        match first_text(cell) {
            Some(text) => decode_size(text),
            None => None,
        }
    }
}

} // verus!
