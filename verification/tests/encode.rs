use xlsx2csv::encode::{csv_write_all, csv_writer, write_rows, WriteError};
use xlsx2csv::rows::normalize_rows;
use xlsx2csv::sheet::SheetData;

fn grid(rows: &[&[&str]]) -> Vec<Vec<String>> {
    rows.iter()
        .map(|cells| cells.iter().map(|cell| cell.to_string()).collect())
        .collect()
}

fn sheet(name: &str, rows: &[&[&str]]) -> SheetData {
    SheetData::new(name.to_string(), grid(rows))
}

fn text(bytes: Vec<u8>) -> String {
    String::from_utf8(bytes).unwrap()
}

/// What one writer of the `csv` crate gives for the same records.
fn written_directly(rows: &[Vec<String>]) -> Vec<u8> {
    let mut writer = csv::Writer::from_writer(Vec::new());
    for record in rows {
        writer.write_record(record).unwrap();
    }
    writer.into_inner().unwrap()
}

/// The records that the `csv` crate reads back from the text.
fn read_back(bytes: &[u8]) -> Vec<Vec<String>> {
    let mut reader = csv::ReaderBuilder::new()
        .has_headers(false)
        .flexible(true)
        .from_reader(bytes);
    reader
        .records()
        .map(|record| record.unwrap().iter().map(|field| field.to_string()).collect())
        .collect()
}

#[test]
fn single_sheet_is_padded_to_the_widest_row() {
    let data = grid(&[&["a", "b"], &["c"]]);
    assert_eq!(text(csv_writer(&data)), "a,b\nc,\n");
}

#[test]
fn write_rows_writes_one_record_for_each_row() {
    let rows = grid(&[&["a", "b", "c"], &["x", "y", "z"]]);
    assert_eq!(text(write_rows(&rows).unwrap()), "a,b,c\nx,y,z\n");
}

#[test]
fn write_rows_of_no_rows_gives_no_bytes() {
    assert_eq!(write_rows(&grid(&[])), Ok(Vec::new()));
}

#[test]
fn write_rows_quotes_fields_that_need_it() {
    let rows = grid(&[&["a,b", "say \"hi\"", "two\nlines", "cr\rhere", "plain"]]);
    assert_eq!(
        text(write_rows(&rows).unwrap()),
        "\"a,b\",\"say \"\"hi\"\"\",\"two\nlines\",\"cr\rhere\",plain\n"
    );
}

#[test]
fn write_rows_writes_text_as_utf8() {
    let rows = grid(&[&["\u{00E9}t\u{00E9}", "\u{65E5}\u{672C}"]]);
    assert_eq!(
        write_rows(&rows).unwrap(),
        "\u{00E9}t\u{00E9},\u{65E5}\u{672C}\n".as_bytes().to_vec()
    );
}

#[test]
fn write_rows_keeps_empty_fields() {
    let rows = grid(&[&["", "a", ""], &["", "", ""]]);
    assert_eq!(text(write_rows(&rows).unwrap()), ",a,\n,,\n");
}

#[test]
fn write_rows_refuses_rows_of_unequal_widths() {
    let rows = grid(&[&["a", "b"], &["c", "d"], &["e"], &["f", "g", "h"]]);
    assert_eq!(
        write_rows(&rows),
        Err(WriteError::UnequalLengths { record: 2, expected_len: 2, len: 1 })
    );
}

#[test]
fn write_rows_reports_the_first_row_that_differs() {
    let rows = grid(&[&[], &["a"]]);
    assert_eq!(
        write_rows(&rows),
        Err(WriteError::UnequalLengths { record: 1, expected_len: 0, len: 1 })
    );
}

#[test]
fn write_rows_gives_what_the_csv_writer_gives() {
    let samples = [
        grid(&[]),
        grid(&[&["a"]]),
        grid(&[&["a", "b"], &["1", "2"], &["", ""]]),
        grid(&[&["x,y", "\"", "\n"], &["", " ", "\r\n"], &["#", "'", "\\"]]),
        grid(&[&["\u{00E9}", "\u{1F600},"]]),
    ];
    for rows in &samples {
        assert_eq!(write_rows(rows).unwrap(), written_directly(rows));
    }
}

#[test]
fn write_rows_handles_text_longer_than_a_buffer() {
    let long = "ab,\"".repeat(10_000);
    let rows = vec![vec![long.clone(), "x".to_string()], vec!["y".to_string(), long]];
    let bytes = write_rows(&rows).unwrap();
    assert_eq!(bytes, written_directly(&rows));
    assert_eq!(read_back(&bytes), rows);
}

#[test]
fn csv_writer_of_no_rows_gives_no_bytes() {
    assert_eq!(csv_writer(&grid(&[])), Vec::<u8>::new());
}

#[test]
fn csv_writer_of_blank_rows_gives_no_bytes() {
    assert_eq!(csv_writer(&grid(&[&["", " "], &[], &["\t"]])), Vec::<u8>::new());
}

#[test]
fn csv_writer_drops_blank_rows_and_trims_cells() {
    let data = grid(&[&[" name ", "value"], &["", ""], &["a", " 1"], &[], &["b"]]);
    assert_eq!(text(csv_writer(&data)), "name,value\na,1\nb,\n");
}

#[test]
fn csv_writer_pads_to_the_width_of_a_blank_row() {
    let data = grid(&[&["a"], &["", "", ""]]);
    assert_eq!(text(csv_writer(&data)), "a,,\n");
}

#[test]
fn csv_writer_reads_back_as_the_normal_form() {
    let data = grid(&[
        &[" h1", "h2 ", "h,3"],
        &[],
        &["1", "say \"x\""],
        &[" ", ""],
        &["multi\nline", "", "", "4"],
    ]);
    assert_eq!(read_back(&csv_writer(&data)), normalize_rows(&data, true));
}

#[test]
fn csv_writer_gives_what_the_csv_writer_gives_for_the_normal_form() {
    let data = grid(&[&["a", " b "], &[""], &["c,", "\"d\"", "e"]]);
    assert_eq!(csv_writer(&data), written_directly(&normalize_rows(&data, true)));
}

#[test]
fn csv_write_all_of_no_sheets_gives_no_bytes() {
    assert_eq!(csv_write_all(&vec![], true), Vec::<u8>::new());
    assert_eq!(csv_write_all(&vec![], false), Vec::<u8>::new());
}

#[test]
fn csv_write_all_writes_the_header_once() {
    let sheets = vec![
        sheet("A", &[&["h1", "h2"], &["1", "2"]]),
        sheet("B", &[&["h1", "h2"], &["3", "4"]]),
    ];
    assert_eq!(text(csv_write_all(&sheets, true)), "h1,h2\n1,2\n3,4\n");
}

#[test]
fn csv_write_all_repeats_headers_by_default() {
    let sheets = vec![
        sheet("A", &[&["h1", "h2"], &["1", "2"]]),
        sheet("B", &[&["h1", "h2"], &["3", "4"]]),
    ];
    assert_eq!(text(csv_write_all(&sheets, false)), "h1,h2\n1,2\nh1,h2\n3,4\n");
}

#[test]
fn csv_write_all_pads_to_the_widest_row_of_all_sheets() {
    let sheets = vec![
        sheet("A", &[&["h"], &["1"]]),
        sheet("B", &[&["h", "i", "j"], &["2", "3"]]),
    ];
    assert_eq!(text(csv_write_all(&sheets, false)), "h,,\n1,,\nh,i,j\n2,3,\n");
    assert_eq!(text(csv_write_all(&sheets, true)), "h,\n1,\n2,3\n");
}

#[test]
fn csv_write_all_ignores_blank_rows_for_the_width() {
    let sheets = vec![sheet("A", &[&["a"], &["", "", ""], &["b", "c"]])];
    assert_eq!(text(csv_write_all(&sheets, false)), "a,\nb,c\n");
}

#[test]
fn csv_write_all_writes_cells_as_they_are() {
    let sheets = vec![sheet("A", &[&[" a ", "b"]])];
    assert_eq!(text(csv_write_all(&sheets, false)), " a ,b\n");
}

#[test]
fn csv_write_all_follows_the_order_of_the_sheets() {
    let a = || sheet("A", &[&["a"]]);
    let b = || sheet("B", &[&["b"]]);
    assert_eq!(text(csv_write_all(&vec![a(), b()], false)), "a\nb\n");
    assert_eq!(text(csv_write_all(&vec![b(), a()], false)), "b\na\n");
}
