use autoindex_listing::listing::{read_cell, read_row};
use autoindex_listing::{
    apache_grzyby_index_iter, CellKind, ColumnLayout, Element, Timestamp,
};
use scraper::Html;

fn page(rows: &str) -> Html {
    Html::parse_document(&format!(
        "<!DOCTYPE html><html><head><title>Index of /foto</title></head><body>\
         <h1>Index of /foto</h1><table>{}</table></body></html>",
        rows
    ))
}

fn entries(html: &Html) -> Vec<Element<'_>> {
    apache_grzyby_index_iter(html).expect("a listing")
}

#[test]
fn end_to_end_listing_with_one_folder() {
    let html = page(
        "<tr><th>Name</th><th colspan=\"1\">Size</th><th>Last modified</th></tr>\
         <tr><td><a href=\"sub1/\">sub1/</a></td><td>-</td><td>2024-03-07 13:45</td></tr>",
    );
    let found = entries(&html);
    assert_eq!(found.len(), 1);
    let link = found[0].get_link().expect("a link");
    assert_eq!(link.value().name(), "a");
    assert_eq!(link.attr("href"), Some("sub1/"));
    assert_eq!(found[0].get_size(), None);
    assert_eq!(
        found[0].get_date(),
        Some(Timestamp { year: 2024, month: 3, day: 7, hour: 13, minute: 45 })
    );
}

#[test]
fn document_without_table_body_is_no_listing() {
    let html = Html::parse_document("<html><body><p>403 Forbidden</p></body></html>");
    assert!(apache_grzyby_index_iter(&html).is_none());
    assert!(apache_grzyby_index_iter(&Html::parse_document("")).is_none());
    let list = Html::parse_document("<ul><li><a href=\"a/\">a/</a></li></ul>");
    assert!(apache_grzyby_index_iter(&list).is_none());
}

#[test]
fn empty_table_body_is_no_listing() {
    let html = Html::parse_document("<table><tbody></tbody></table>");
    assert!(apache_grzyby_index_iter(&html).is_none());
}

#[test]
fn header_row_alone_is_an_empty_listing() {
    let html = page("<tr><th>Name</th><th>Size</th></tr>");
    assert_eq!(entries(&html).len(), 0);
}

#[test]
fn apache_markup_with_icons_and_rules() {
    let html = page(
        "<tr><th valign=\"top\"><img src=\"/icons/blank.gif\" alt=\"[ICO]\"></th>\
         <th><a href=\"?C=N;O=D\">Name</a></th><th><a href=\"?C=M;O=A\">Last modified</a></th>\
         <th><a href=\"?C=S;O=A\">Size</a></th><th><a href=\"?C=D;O=A\">Description</a></th></tr>\n\
         <tr><th colspan=\"5\"><hr></th></tr>\n\
         <tr><td valign=\"top\"><img src=\"/icons/back.gif\" alt=\"[PARENTDIR]\"></td>\
         <td><a href=\"/\">Parent Directory</a></td><td>&nbsp;</td><td align=\"right\">  - </td>\
         <td>&nbsp;</td></tr>\n\
         <tr><td valign=\"top\"><img src=\"/icons/image2.gif\" alt=\"[IMG]\"></td>\
         <td><a href=\"borowik.jpg\">borowik.jpg</a></td><td align=\"right\">2023-10-01 08:05  </td>\
         <td align=\"right\">1.2M</td><td>&nbsp;</td></tr>\n\
         <tr><td valign=\"top\"><img src=\"/icons/image2.gif\" alt=\"[IMG]\"></td>\
         <td><a href=\"kurka.png\">kurka.png</a></td><td align=\"right\">2023-10-02 18:30  </td>\
         <td align=\"right\"> 87K</td><td>&nbsp;</td></tr>\n\
         <tr><th colspan=\"5\"><hr></th></tr>\n",
    );
    let found = entries(&html);
    assert_eq!(found.len(), 3);
    for entry in &found {
        assert_eq!(
            entry.layout,
            ColumnLayout { link_position: Some(1), size_position: Some(3), date_position: Some(2) }
        );
    }
    assert_eq!(found[0].get_link().unwrap().attr("href"), Some("/"));
    assert_eq!(found[0].get_date(), None);
    assert_eq!(found[0].get_size(), None);
    assert_eq!(found[1].get_link().unwrap().attr("href"), Some("borowik.jpg"));
    assert_eq!(
        found[1].get_date(),
        Some(Timestamp { year: 2023, month: 10, day: 1, hour: 8, minute: 5 })
    );
    assert_eq!(found[1].get_size(), None);
    assert_eq!(found[2].get_link().unwrap().attr("href"), Some("kurka.png"));
    assert_eq!(
        found[2].get_date(),
        Some(Timestamp { year: 2023, month: 10, day: 2, hour: 18, minute: 30 })
    );
    assert_eq!(found[2].get_size(), Some(87 * 1024));
}

#[test]
fn wide_header_cell_shifts_the_columns_of_the_document() {
    let html = page(
        "<tr><th colspan=2>Icon</th><th>Name</th><th>Size</th><th>Last modified</th></tr>\
         <tr><td>i</td><td>j</td><td><a href=\"a.png\">a.png</a></td><td>3k</td>\
         <td>2024-03-07 13:45</td></tr>\
         <tr><td colspan=2>i</td><td><a href=\"b.png\">b.png</a></td><td>4</td>\
         <td>2024-03-08 13:45</td></tr>",
    );
    let found = entries(&html);
    assert_eq!(found.len(), 2);
    assert_eq!(
        found[0].layout,
        ColumnLayout { link_position: Some(2), size_position: Some(3), date_position: Some(4) }
    );
    assert_eq!(found[0].get_link().unwrap().attr("href"), Some("a.png"));
    assert_eq!(found[0].get_size(), Some(3072));
    assert_eq!(found[1].get_link().unwrap().attr("href"), Some("b.png"));
    assert_eq!(found[1].get_size(), Some(4));
    assert_eq!(
        found[1].get_date(),
        Some(Timestamp { year: 2024, month: 3, day: 8, hour: 13, minute: 45 })
    );
}

#[test]
fn wide_data_cell_covers_every_column_it_spans() {
    let html = page(
        "<tr><th>Icon</th><th>Name</th><th>Size</th></tr>\
         <tr><td colspan=2><a href=\"x/\">x/</a></td><td>12</td></tr>",
    );
    let found = entries(&html);
    assert_eq!(found.len(), 1);
    assert_eq!(found[0].layout.link_position, Some(1));
    assert_eq!(found[0].get_link().unwrap().attr("href"), Some("x/"));
    assert_eq!(found[0].get_size(), Some(12));
}

#[test]
fn row_with_link_but_without_date_cell() {
    let html = page(
        "<tr><th>Name</th><th>Size</th><th>Last modified</th></tr>\
         <tr><td><a href=\"short/\">short/</a></td><td>1K</td></tr>",
    );
    let found = entries(&html);
    assert_eq!(found.len(), 1);
    assert_eq!(found[0].get_link().unwrap().attr("href"), Some("short/"));
    assert_eq!(found[0].get_size(), Some(1024));
    assert_eq!(found[0].get_date(), None);
}

#[test]
fn header_without_size_column() {
    let html = page(
        "<tr><th>Name</th><th>Last modified</th></tr>\
         <tr><td><a href=\"a/\">a/</a></td><td>2024-03-07 13:45</td><td>12K</td></tr>\
         <tr><td><a href=\"b/\">b/</a></td><td>2024-03-08 13:45</td></tr>",
    );
    let found = entries(&html);
    assert_eq!(found.len(), 2);
    for entry in &found {
        assert_eq!(entry.layout.size_position, None);
        assert_eq!(entry.get_size(), None);
        assert!(entry.get_link().is_some());
        assert!(entry.get_date().is_some());
    }
}

#[test]
fn header_without_any_known_column() {
    let html = page("<tr><th>File</th><th>Bytes</th></tr><tr><td><a href=\"a\">a</a></td><td>1</td></tr>");
    let found = entries(&html);
    assert_eq!(found.len(), 1);
    assert_eq!(found[0].layout, ColumnLayout::absent());
    assert!(found[0].get_link().is_none());
    assert_eq!(found[0].get_size(), None);
    assert_eq!(found[0].get_date(), None);
}

#[test]
fn rows_without_data_cells_are_dropped() {
    let html = page(
        "<tr><th>Name</th></tr>\
         <tr><th colspan=\"3\"><hr></th></tr>\
         <tr></tr>\
         <tr><td><a href=\"one\">one</a></td></tr>\
         <tr><th>Name</th></tr>\
         <tr><td><a href=\"two\">two</a></td></tr>",
    );
    let found = entries(&html);
    assert_eq!(found.len(), 2);
    assert_eq!(found[0].get_link().unwrap().attr("href"), Some("one"));
    assert_eq!(found[1].get_link().unwrap().attr("href"), Some("two"));
}

#[test]
fn name_cell_without_child_element_has_no_link() {
    let html = page("<tr><th>Name</th><th>Size</th></tr><tr><td>plain</td><td>5</td></tr>");
    let found = entries(&html);
    assert_eq!(found.len(), 1);
    assert!(found[0].get_link().is_none());
    assert_eq!(found[0].get_size(), Some(5));
}

#[test]
fn cell_without_text_has_no_value() {
    let html = page(
        "<tr><th>Name</th><th>Size</th><th>Last modified</th></tr>\
         <tr><td><a href=\"a\">a</a></td><td></td><td><br></td></tr>",
    );
    let found = entries(&html);
    assert_eq!(found.len(), 1);
    assert_eq!(found[0].get_size(), None);
    assert_eq!(found[0].get_date(), None);
}

#[test]
fn only_the_first_table_body_is_read() {
    let html = Html::parse_document(
        "<table><tr><th>Name</th></tr><tr><td><a href=\"first\">first</a></td></tr></table>\
         <table><tr><th>Name</th></tr><tr><td><a href=\"second\">second</a></td></tr></table>",
    );
    let found = entries(&html);
    assert_eq!(found.len(), 1);
    assert_eq!(found[0].get_link().unwrap().attr("href"), Some("first"));
}

#[test]
fn columns_are_found_again_on_every_call() {
    let html = page(
        "<tr><th>Name</th><th>Size</th></tr><tr><td><a href=\"a\">a</a></td><td>2K</td></tr>",
    );
    let found = entries(&html);
    assert_eq!(found[0].get_size(), Some(2048));
    assert_eq!(found[0].get_size(), Some(2048));
    let cell = found[0].nth_column(Some(1)).expect("a cell");
    assert_eq!(cell.value().name(), "td");
    assert_eq!(cell.text().next(), Some("2K"));
    assert!(found[0].nth_column(Some(2)).is_none());
    assert!(found[0].nth_column(None).is_none());
}

#[test]
fn entry_under_another_layout() {
    let html = page(
        "<tr><th>Name</th><th>Size</th></tr><tr><td><a href=\"a\">a</a></td><td>2K</td></tr>",
    );
    let found = entries(&html);
    let swapped = Element {
        element: found[0].element,
        layout: ColumnLayout { link_position: None, size_position: Some(0), date_position: Some(1) },
    };
    assert!(swapped.get_link().is_none());
    assert_eq!(swapped.get_size(), None);
    assert_eq!(swapped.get_date(), None);
}

#[test]
fn rows_are_read_as_cells() {
    let html = page("<tr><TH ColSpan=\"+3\">Name <b>x</b></TH><td colspan=\"no\"><i></i></td></tr>");
    let body = html.select(&scraper::Selector::parse("tbody").unwrap()).next().unwrap();
    let row = body.child_elements().next().unwrap();
    let (children, cells) = read_row(row);
    assert_eq!(children.len(), 2);
    assert_eq!(cells.len(), 2);
    assert_eq!(cells[0].kind, CellKind::Header);
    assert_eq!(cells[0].colspan, Some(3));
    assert_eq!(cells[0].text, Some("Name "));
    assert_eq!(cells[1].kind, CellKind::Data);
    assert_eq!(cells[1].colspan, None);
    assert_eq!(cells[1].text, None);
    assert_eq!(children[1].value().name(), "td");
    let again = read_cell(children[0]);
    assert_eq!(again.width(), 3);
}
