use nearest_label::dataset::{
    load_primary, load_reference, primary_table, reference_points, PrimaryTable, ReferencePoint,
};
use nearest_label::error::LabelError;
use nearest_label::table::{encode_table, parse_table, DEFAULT_DELIMITER};

fn row(fields: &[&str]) -> Vec<String> {
    fields.iter().map(|f| f.to_string()).collect()
}

fn rows(table: &[&[&str]]) -> Vec<Vec<String>> {
    table.iter().map(|r| row(r)).collect()
}

fn point_fields(p: &ReferencePoint) -> (String, String, String) {
    (p.x.clone(), p.y.clone(), p.designator.clone())
}

fn triple(x: &str, y: &str, d: &str) -> (String, String, String) {
    (x.to_string(), y.to_string(), d.to_string())
}

#[test]
fn default_delimiter_is_a_comma() {
    assert_eq!(DEFAULT_DELIMITER, b',');
}

#[test]
fn parse_table_splits_rows_and_fields() {
    let table = parse_table(b"a,b\nc,d\n", b',').unwrap();
    assert_eq!(table, rows(&[&["a", "b"], &["c", "d"]]));
}

#[test]
fn parse_table_keeps_the_first_row() {
    let table = parse_table(b"x,y,name\n1,2,p\n", b',').unwrap();
    assert_eq!(table.len(), 2);
    assert_eq!(table[0], row(&["x", "y", "name"]));
}

#[test]
fn parse_table_of_empty_text_has_no_rows() {
    assert_eq!(parse_table(b"", b','), Ok(Vec::new()));
}

#[test]
fn parse_table_reads_quoted_fields() {
    let table = parse_table(b"\"x,1\",\"say \"\"hi\"\"\"\n", b',').unwrap();
    assert_eq!(table, rows(&[&["x,1", "say \"hi\""]]));
}

#[test]
fn parse_table_honours_the_delimiter() {
    let table = parse_table(b"a;b,c\n1;2\n", b';').unwrap();
    assert_eq!(table, rows(&[&["a", "b,c"], &["1", "2"]]));
    let table = parse_table(b"a\tb\n", b'\t').unwrap();
    assert_eq!(table, rows(&[&["a", "b"]]));
}

#[test]
fn parse_table_rejects_rows_of_unequal_length() {
    assert_eq!(parse_table(b"a,b,c\n1,2\n", b','), Err(LabelError::Format));
    assert_eq!(parse_table(b"a,b\n1,2,3\n", b','), Err(LabelError::Format));
}

#[test]
fn parse_table_rejects_text_that_is_not_utf8() {
    assert_eq!(parse_table(b"a,\xff\n", b','), Err(LabelError::Format));
}

#[test]
fn encode_table_writes_rows_and_fields() {
    let text = encode_table(&rows(&[&["a", "b"], &["c", "d"]]), b',').unwrap();
    assert_eq!(text, b"a,b\nc,d\n".to_vec());
}

#[test]
fn encode_table_quotes_where_needed() {
    let text = encode_table(&rows(&[&["x,1", "say \"hi\""]]), b',').unwrap();
    assert_eq!(text, b"\"x,1\",\"say \"\"hi\"\"\"\n".to_vec());
}

#[test]
fn encode_table_honours_the_delimiter() {
    let text = encode_table(&rows(&[&["a", "b,c"], &["1", "2"]]), b';').unwrap();
    assert_eq!(text, b"a;b,c\n1;2\n".to_vec());
}

#[test]
fn encode_table_of_no_rows_is_empty() {
    assert_eq!(encode_table(&Vec::new(), b','), Ok(Vec::new()));
}

#[test]
fn encode_table_rejects_rows_of_unequal_length() {
    assert_eq!(
        encode_table(&rows(&[&["a", "b"], &["c"]]), b','),
        Err(LabelError::Format)
    );
    assert_eq!(
        encode_table(&rows(&[&["a"], &["c", "d"]]), b','),
        Err(LabelError::Format)
    );
}

#[test]
fn encode_then_parse_gives_the_rows_back() {
    let table = rows(&[&["x", "y", "note"], &["1.5", "-2", "a,b"], &["0", "0", "line\nbreak"]]);
    let text = encode_table(&table, b',').unwrap();
    assert_eq!(parse_table(&text, b','), Ok(table));
}

#[test]
fn reference_points_takes_the_first_three_fields() {
    let points = reference_points(&rows(&[&["0", "0", "A"], &["10", "10", "B"]]), false).unwrap();
    assert_eq!(points.len(), 2);
    assert_eq!(point_fields(&points[0]), triple("0", "0", "A"));
    assert_eq!(point_fields(&points[1]), triple("10", "10", "B"));
    let points = reference_points(&rows(&[&["1", "2", "C", "extra"]]), false).unwrap();
    assert_eq!(point_fields(&points[0]), triple("1", "2", "C"));
}

#[test]
fn reference_points_treats_the_first_row_as_data() {
    let points = reference_points(&rows(&[&["x", "y", "name"], &["1", "2", "C"]]), false).unwrap();
    assert_eq!(points.len(), 2);
    assert_eq!(point_fields(&points[0]), triple("x", "y", "name"));
}

#[test]
fn reference_points_can_set_a_header_aside() {
    let points = reference_points(&rows(&[&["x", "y", "name"], &["1", "2", "C"]]), true).unwrap();
    assert_eq!(points.len(), 1);
    assert_eq!(point_fields(&points[0]), triple("1", "2", "C"));
    assert_eq!(reference_points(&Vec::new(), true).unwrap().len(), 0);
    assert_eq!(reference_points(&rows(&[&["x"]]), true).unwrap().len(), 0);
}

#[test]
fn reference_points_of_no_rows_is_empty() {
    assert_eq!(reference_points(&Vec::new(), false).unwrap().len(), 0);
}

#[test]
fn reference_points_rejects_a_short_row() {
    let short = rows(&[&["0", "0", "A"], &["1", "1"]]);
    assert!(matches!(reference_points(&short, false), Err(LabelError::Format)));
    let short = rows(&[&["0", "0"], &["1", "1", "B"]]);
    assert!(matches!(reference_points(&short, false), Err(LabelError::Format)));
    assert!(matches!(reference_points(&short, true), Ok(_)));
    assert!(matches!(reference_points(&rows(&[&[]]), false), Err(LabelError::Format)));
}

#[test]
fn load_reference_reads_points_from_text() {
    let points = load_reference(b"0,0,A\n10,10,B\n", b',', false).unwrap();
    assert_eq!(points.len(), 2);
    assert_eq!(point_fields(&points[0]), triple("0", "0", "A"));
    assert_eq!(point_fields(&points[1]), triple("10", "10", "B"));
    let points = load_reference(b"x,y,d\n0,0,A\n", b',', true).unwrap();
    assert_eq!(points.len(), 1);
    assert_eq!(point_fields(&points[0]), triple("0", "0", "A"));
}

#[test]
fn load_reference_rejects_bad_text() {
    assert!(matches!(load_reference(b"0,0\n1,1\n", b',', false), Err(LabelError::Format)));
    assert!(matches!(load_reference(b"0,0,A\n1,1\n", b',', false), Err(LabelError::Format)));
    assert!(matches!(load_reference(b"0;0;A\n", b',', false), Err(LabelError::Format)));
}

#[test]
fn load_reference_of_empty_text_is_empty() {
    assert_eq!(load_reference(b"", b',', false).unwrap().len(), 0);
}

#[test]
fn primary_table_splits_header_and_records() {
    let PrimaryTable { header, records } =
        primary_table(rows(&[&["x", "y", "name"], &["1", "1", "p"], &["9", "9", "q"]])).unwrap();
    assert_eq!(header, row(&["x", "y", "name"]));
    assert_eq!(records, rows(&[&["1", "1", "p"], &["9", "9", "q"]]));
}

#[test]
fn primary_table_of_no_rows_is_empty() {
    let PrimaryTable { header, records } = primary_table(Vec::new()).unwrap();
    assert!(header.is_empty());
    assert!(records.is_empty());
}

#[test]
fn primary_table_with_a_header_only_has_no_records() {
    let PrimaryTable { header, records } = primary_table(rows(&[&["x"]])).unwrap();
    assert_eq!(header, row(&["x"]));
    assert!(records.is_empty());
}

#[test]
fn primary_table_rejects_a_short_record() {
    let short = rows(&[&["x", "y"], &["1", "1"], &["2"]]);
    assert!(matches!(primary_table(short), Err(LabelError::Format)));
    let short = rows(&[&["x"], &["1"]]);
    assert!(matches!(primary_table(short), Err(LabelError::Format)));
}

#[test]
fn load_primary_reads_header_and_records_from_text() {
    let PrimaryTable { header, records } = load_primary(b"x,y,name\n1,1,p\n", b',').unwrap();
    assert_eq!(header, row(&["x", "y", "name"]));
    assert_eq!(records, rows(&[&["1", "1", "p"]]));
}

#[test]
fn load_primary_rejects_bad_text() {
    assert!(matches!(load_primary(b"x,y\n1\n", b','), Err(LabelError::Format)));
    assert!(matches!(load_primary(b"x\n1\n", b','), Err(LabelError::Format)));
    assert!(matches!(load_primary(b"x,y\n1,\xfe\n", b','), Err(LabelError::Format)));
}
