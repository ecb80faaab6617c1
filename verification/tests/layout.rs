use autoindex_listing::layout::{
    cell_kind, detect_layout, has_data_cell, locate_column, named_field, parse_colspan,
};
use autoindex_listing::{Cell, CellKind, ColumnLayout, Field};

fn th<'a>(text: &'a str, colspan: Option<&str>) -> Cell<'a> {
    Cell::new("th", colspan, Some(text))
}

fn td<'a>(text: &'a str, colspan: Option<&str>) -> Cell<'a> {
    Cell::new("td", colspan, Some(text))
}

#[test]
fn wide_icon_cell_shifts_the_columns() {
    let header = [
        th("Icon", Some("2")),
        th("Name", None),
        th("Size", None),
        th("Last modified", None),
    ];
    assert_eq!(
        detect_layout(&header),
        ColumnLayout { link_position: Some(2), size_position: Some(3), date_position: Some(4) }
    );
}

#[test]
fn wide_cell_between_name_and_size_shifts_the_size() {
    let header = [th("Name", None), th("Last modified", Some("2")), th("Size", None)];
    assert_eq!(
        detect_layout(&header),
        ColumnLayout { link_position: Some(0), size_position: Some(3), date_position: Some(1) }
    );
}

#[test]
fn columns_that_are_not_named_are_absent() {
    let header = [th("Name", None), th("Last modified", None), th("Description", None)];
    assert_eq!(
        detect_layout(&header),
        ColumnLayout { link_position: Some(0), size_position: None, date_position: Some(1) }
    );
    assert_eq!(detect_layout(&[]), ColumnLayout::absent());
}

#[test]
fn only_header_cells_count_in_the_header_row() {
    let header = [td("Name", None), th("Size", None), Cell::new("span", None, Some("x"))];
    assert_eq!(
        detect_layout(&header),
        ColumnLayout { link_position: None, size_position: Some(0), date_position: None }
    );
}

#[test]
fn header_text_is_matched_without_case() {
    let header = [th("NAME", None), th("size", None), th("LAST MODIFIED", None)];
    assert_eq!(
        detect_layout(&header),
        ColumnLayout { link_position: Some(0), size_position: Some(1), date_position: Some(2) }
    );
    let spaced = [th(" Name", None), th("Size ", None), th("Last  modified", None)];
    assert_eq!(detect_layout(&spaced), ColumnLayout::absent());
}

#[test]
fn last_cell_that_names_a_field_decides() {
    let header = [th("Name", None), th("Size", None), th("Name", None)];
    assert_eq!(
        detect_layout(&header),
        ColumnLayout { link_position: Some(2), size_position: Some(1), date_position: None }
    );
}

#[test]
fn header_cell_without_text_still_takes_its_columns() {
    let header = [Cell::new("th", Some("3"), None), th("Name", None)];
    assert_eq!(detect_layout(&header).link_position, Some(3));
}

#[test]
fn columns_stop_at_the_limit() {
    let header = [th("Name", Some("254")), th("Size", None), th("Last modified", None)];
    assert_eq!(
        detect_layout(&header),
        ColumnLayout { link_position: Some(0), size_position: Some(254), date_position: None }
    );
    let wide = [th("Icon", Some("4000000000")), th("Name", None)];
    assert_eq!(detect_layout(&wide), ColumnLayout::absent());
    let two = [th("Icon", Some("200")), th("Name", Some("200")), th("Size", None)];
    assert_eq!(
        detect_layout(&two),
        ColumnLayout { link_position: Some(200), size_position: None, date_position: None }
    );
}

#[test]
fn colspan_attribute_values() {
    assert_eq!(parse_colspan(None), None);
    assert_eq!(parse_colspan(Some("2")), Some(2));
    assert_eq!(parse_colspan(Some("+2")), Some(2));
    assert_eq!(parse_colspan(Some("002")), Some(2));
    assert_eq!(parse_colspan(Some("0")), Some(0));
    assert_eq!(parse_colspan(Some("4294967295")), Some(u32::MAX));
    assert_eq!(parse_colspan(Some("4294967296")), None);
    assert_eq!(parse_colspan(Some("99999999999999999999999")), None);
    assert_eq!(parse_colspan(Some("")), None);
    assert_eq!(parse_colspan(Some("+")), None);
    assert_eq!(parse_colspan(Some("-2")), None);
    assert_eq!(parse_colspan(Some(" 2")), None);
    assert_eq!(parse_colspan(Some("2 ")), None);
    assert_eq!(parse_colspan(Some("two")), None);
    assert_eq!(parse_colspan(Some("++2")), None);
}

#[test]
fn colspan_attribute_agrees_with_the_standard_library() {
    for text in ["0", "1", "+7", "-7", "", "+", "255", "256", "4294967295", "4294967296", "1 ", "0x10", "１"] {
        assert_eq!(parse_colspan(Some(text)), text.parse::<u32>().ok());
    }
}

#[test]
fn width_is_at_least_one_and_at_most_the_limit() {
    assert_eq!(Cell::new("td", None, None).width(), 1);
    assert_eq!(Cell::new("td", Some("junk"), None).width(), 1);
    assert_eq!(Cell::new("td", Some("0"), None).width(), 1);
    assert_eq!(Cell::new("td", Some("1"), None).width(), 1);
    assert_eq!(Cell::new("td", Some("7"), None).width(), 7);
    assert_eq!(Cell::new("td", Some("255"), None).width(), 255);
    assert_eq!(Cell::new("td", Some("256"), None).width(), 255);
    assert_eq!(Cell::new("td", Some("4294967295"), None).width(), 255);
}

#[test]
fn tag_names_give_the_kind() {
    assert_eq!(cell_kind("th"), CellKind::Header);
    assert_eq!(cell_kind("TH"), CellKind::Header);
    assert_eq!(cell_kind("td"), CellKind::Data);
    assert_eq!(cell_kind("Td"), CellKind::Data);
    assert_eq!(cell_kind("tr"), CellKind::Other);
    assert_eq!(cell_kind("thead"), CellKind::Other);
    assert_eq!(cell_kind(""), CellKind::Other);
}

#[test]
fn header_texts_give_the_field() {
    assert_eq!(named_field("Name"), Some(Field::Name));
    assert_eq!(named_field("nAME"), Some(Field::Name));
    assert_eq!(named_field("Size"), Some(Field::Size));
    assert_eq!(named_field("Last modified"), Some(Field::LastModified));
    assert_eq!(named_field("last MODIFIED"), Some(Field::LastModified));
    assert_eq!(named_field("Last-modified"), None);
    assert_eq!(named_field("Description"), None);
    assert_eq!(named_field(""), None);
}

#[test]
fn layout_gives_the_position_of_each_field() {
    let layout =
        ColumnLayout { link_position: Some(1), size_position: None, date_position: Some(3) };
    assert_eq!(layout.position(Field::Name), Some(1));
    assert_eq!(layout.position(Field::Size), None);
    assert_eq!(layout.position(Field::LastModified), Some(3));
}

#[test]
fn cell_is_found_by_the_column_it_starts_at() {
    let row = [td("a", None), td("b", None), td("c", None)];
    assert_eq!(locate_column(&row, Some(0)), Some(0));
    assert_eq!(locate_column(&row, Some(1)), Some(1));
    assert_eq!(locate_column(&row, Some(2)), Some(2));
    assert_eq!(locate_column(&row, Some(3)), None);
    assert_eq!(locate_column(&row, None), None);
    assert_eq!(locate_column(&[], Some(0)), None);
}

#[test]
fn cell_is_found_by_any_column_it_spans() {
    let row = [td("icon", Some("2")), td("name", None), td("size", Some("3"))];
    assert_eq!(locate_column(&row, Some(0)), Some(0));
    assert_eq!(locate_column(&row, Some(1)), Some(0));
    assert_eq!(locate_column(&row, Some(2)), Some(1));
    assert_eq!(locate_column(&row, Some(3)), Some(2));
    assert_eq!(locate_column(&row, Some(5)), Some(2));
    assert_eq!(locate_column(&row, Some(6)), None);
}

#[test]
fn only_data_cells_count_in_a_data_row() {
    let row = [th("head", Some("4")), td("a", None), Cell::new("div", None, None), td("b", None)];
    assert_eq!(locate_column(&row, Some(0)), Some(1));
    assert_eq!(locate_column(&row, Some(1)), Some(3));
    assert_eq!(locate_column(&row, Some(2)), None);
}

#[test]
fn nothing_is_found_at_the_column_limit() {
    let row = [td("a", Some("254")), td("b", Some("5")), td("c", None)];
    assert_eq!(locate_column(&row, Some(253)), Some(0));
    assert_eq!(locate_column(&row, Some(254)), Some(1));
    assert_eq!(locate_column(&row, Some(255)), None);
    let wide = [td("a", Some("300"))];
    assert_eq!(locate_column(&wide, Some(254)), Some(0));
    assert_eq!(locate_column(&wide, Some(255)), None);
}

#[test]
fn data_row_needs_a_data_cell() {
    assert!(has_data_cell(&[th("x", None), td("y", None)]));
    assert!(!has_data_cell(&[th("x", None), th("y", None)]));
    assert!(!has_data_cell(&[Cell::new("div", None, None)]));
    assert!(!has_data_cell(&[]));
}
