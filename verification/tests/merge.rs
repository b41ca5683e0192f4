use xlsx2csv::merge::merge_sheets;
use xlsx2csv::sheet::SheetData;

fn grid(rows: &[&[&str]]) -> Vec<Vec<String>> {
    rows.iter()
        .map(|cells| cells.iter().map(|cell| cell.to_string()).collect())
        .collect()
}

fn sheet(name: &str, rows: &[&[&str]]) -> SheetData {
    SheetData::new(name.to_string(), grid(rows))
}

#[test]
fn a_sheet_holds_its_name_and_rows() {
    let data = sheet("S", &[&["a"], &["b", "c"]]);
    assert_eq!(data.name, "S");
    assert_eq!(data.rows, grid(&[&["a"], &["b", "c"]]));
}

#[test]
fn merging_no_sheets_gives_no_rows() {
    assert_eq!(merge_sheets(&vec![], true), grid(&[]));
    assert_eq!(merge_sheets(&vec![], false), grid(&[]));
}

#[test]
fn merging_one_sheet_keeps_its_header() {
    let sheets = vec![sheet("A", &[&["h1", "h2"], &["1", "2"]])];
    assert_eq!(merge_sheets(&sheets, true), grid(&[&["h1", "h2"], &["1", "2"]]));
    assert_eq!(merge_sheets(&sheets, false), grid(&[&["h1", "h2"], &["1", "2"]]));
}

#[test]
fn merging_keeps_every_header_by_default() {
    let sheets = vec![
        sheet("A", &[&["h1", "h2"], &["1", "2"]]),
        sheet("B", &[&["h1", "h2"], &["3", "4"]]),
    ];
    assert_eq!(
        merge_sheets(&sheets, false),
        grid(&[&["h1", "h2"], &["1", "2"], &["h1", "h2"], &["3", "4"]])
    );
}

#[test]
fn merging_with_first_line_only_once_drops_later_headers() {
    let sheets = vec![
        sheet("A", &[&["h1", "h2"], &["1", "2"]]),
        sheet("B", &[&["h1", "h2"], &["3", "4"]]),
        sheet("C", &[&["other"], &["5", "6"], &["7"]]),
    ];
    assert_eq!(
        merge_sheets(&sheets, true),
        grid(&[&["h1", "h2"], &["1", "2"], &["3", "4"], &["5", "6"], &["7"]])
    );
}

#[test]
fn merging_follows_the_order_of_the_sheets() {
    let a = || sheet("A", &[&["a1"], &["a2"]]);
    let b = || sheet("B", &[&["b1"], &["b2"]]);
    assert_eq!(
        merge_sheets(&vec![a(), b()], false),
        grid(&[&["a1"], &["a2"], &["b1"], &["b2"]])
    );
    assert_eq!(
        merge_sheets(&vec![b(), a()], false),
        grid(&[&["b1"], &["b2"], &["a1"], &["a2"]])
    );
}

#[test]
fn merging_drops_blank_rows() {
    let sheets = vec![
        sheet("A", &[&["h"], &[""], &["1"], &[]]),
        sheet("B", &[&["h"], &[" ", "\t"], &["2"]]),
    ];
    assert_eq!(merge_sheets(&sheets, false), grid(&[&["h"], &["1"], &["h"], &["2"]]));
    assert_eq!(merge_sheets(&sheets, true), grid(&[&["h"], &["1"], &["2"]]));
}

#[test]
fn merging_does_not_trim_or_pad() {
    let sheets = vec![sheet("A", &[&[" a ", "b"], &["c "]])];
    assert_eq!(merge_sheets(&sheets, true), grid(&[&[" a ", "b"], &["c "]]));
}

#[test]
fn merged_row_count_with_first_line_only_once() {
    // 3 + 4 + 2 rows, two later headers dropped, one blank row among the rest.
    let sheets = vec![
        sheet("A", &[&["h"], &["1"], &["2"]]),
        sheet("B", &[&["h"], &["3"], &[""], &["4"]]),
        sheet("C", &[&["h"], &["5"]]),
    ];
    assert_eq!(merge_sheets(&sheets, true).len(), 3 + 4 + 2 - 2 - 1);
    assert_eq!(merge_sheets(&sheets, false).len(), 3 + 4 + 2 - 1);
}

#[test]
fn a_later_sheet_without_rows_has_no_header_to_drop() {
    let sheets = vec![sheet("A", &[&["h"]]), sheet("B", &[])];
    assert_eq!(merge_sheets(&sheets, true), grid(&[&["h"]]));
}

#[test]
fn a_first_sheet_without_rows_still_counts_as_the_first() {
    let sheets = vec![sheet("A", &[]), sheet("B", &[&["h"], &["1"]])];
    assert_eq!(merge_sheets(&sheets, true), grid(&[&["1"]]));
    assert_eq!(merge_sheets(&sheets, false), grid(&[&["h"], &["1"]]));
}

#[test]
fn the_first_row_of_a_later_sheet_is_dropped_even_when_blank() {
    let sheets = vec![sheet("A", &[&["h"], &["1"]]), sheet("B", &[&[""], &["h"], &["2"]])];
    assert_eq!(merge_sheets(&sheets, true), grid(&[&["h"], &["1"], &["h"], &["2"]]));
}
