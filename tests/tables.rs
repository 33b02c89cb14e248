use merger::delimiter::detect_delimiter;
use merger::error::PipelineError;
use merger::loader::load_table;
use merger::reconcile::{apply_minion_renames, left_join, merge_epid, reconcile};
use merger::schema::{check_columns, project, schema_columns, Mode};
use merger::table::{Column, Table};

fn col(name: &str, cells: &[&str]) -> Column {
    Column { name: name.to_string(), cells: cells.iter().map(|c| c.to_string()).collect() }
}

fn table(cols: Vec<Column>) -> Table {
    let height = cols.first().map(|c| c.cells.len()).unwrap_or(0);
    Table { height, columns: cols }
}

fn names(t: &Table) -> Vec<String> {
    t.columns.iter().map(|c| c.name.clone()).collect()
}

fn cells<'a>(t: &'a Table, name: &str) -> &'a Vec<String> {
    &t.columns.iter().find(|c| c.name == name).expect("column").cells
}

#[test]
fn semicolon_majority_is_detected() {
    assert_eq!(detect_delimiter("a;b;c\n1;2;3\n"), b';');
}

#[test]
fn tab_majority_is_detected() {
    assert_eq!(detect_delimiter("a\tb\tc\n1\t2,5\t3\n"), b'\t');
}

#[test]
fn comma_is_the_default() {
    assert_eq!(detect_delimiter("abc\ndef\n"), b',');
    assert_eq!(detect_delimiter(""), b',');
    assert_eq!(detect_delimiter("a,b,c;d\n"), b',');
}

#[test]
fn semicolon_wins_a_tie() {
    assert_eq!(detect_delimiter("a,b;c\n"), b';');
    assert_eq!(detect_delimiter("a\tb,c\n"), b'\t');
}

#[test]
fn only_first_fifty_lines_vote() {
    let mut text = String::new();
    for _ in 0..50 {
        text.push_str("a,b\n");
    }
    for _ in 0..100 {
        text.push_str("a;b;c;d\n");
    }
    assert_eq!(detect_delimiter(&text), b',');
}

#[test]
fn loads_semicolon_table_as_strings() {
    let t = load_table("sample;barcode;value\nA;01;1,5\nB;;2\n", "s.csv").unwrap();
    assert_eq!(names(&t), vec!["sample", "barcode", "value"]);
    assert_eq!(t.height, 2);
    assert_eq!(cells(&t, "sample"), &vec!["A".to_string(), "B".to_string()]);
    assert_eq!(cells(&t, "barcode"), &vec!["01".to_string(), "".to_string()]);
    assert_eq!(cells(&t, "value"), &vec!["1,5".to_string(), "2".to_string()]);
}

#[test]
fn ragged_rows_are_padded_and_truncated() {
    let t = load_table("a,b\n1\n2,3,4\n", "r.csv").unwrap();
    assert_eq!(t.height, 2);
    assert_eq!(cells(&t, "a"), &vec!["1".to_string(), "2".to_string()]);
    assert_eq!(cells(&t, "b"), &vec!["".to_string(), "3".to_string()]);
}

#[test]
fn quoted_fields_keep_their_separator() {
    let t = load_table("a,b\n\"x,y\",z\n", "q.csv").unwrap();
    assert_eq!(cells(&t, "a"), &vec!["x,y".to_string()]);
    assert_eq!(cells(&t, "b"), &vec!["z".to_string()]);
}

#[test]
fn empty_file_is_a_parse_error() {
    match load_table("", "e.csv") {
        Err(PipelineError::Parse(m)) => assert!(m.contains("appears to be empty")),
        _ => panic!("expected a parse error"),
    }
}

#[test]
fn crlf_header_is_trimmed() {
    let t = load_table("sample,barcode\r\nA,1\r\n", "c.csv").unwrap();
    assert_eq!(names(&t), vec!["sample", "barcode"]);
}

#[test]
fn minion_renames_apply_once_and_are_idempotent() {
    let mut t = table(vec![
        col("ICLabID", &["A"]),
        col("FinalITDResult", &["x"]),
        col("SequenceName", &["s"]),
        col("SangerSequenceID", &["keep"]),
    ]);
    apply_minion_renames(&mut t);
    assert_eq!(names(&t), vec!["ICLabID", "ITDResult", "SequenceName", "SangerSequenceID"]);
    let once = names(&t);
    apply_minion_renames(&mut t);
    assert_eq!(names(&t), once);
    assert_eq!(cells(&t, "ITDResult"), &vec!["x".to_string()]);
}

#[test]
fn left_join_keeps_every_sample_row() {
    let sample = table(vec![col("sample", &["A", "B"])]);
    let epi = table(vec![col("ICLabID", &["A"]), col("Foo", &["bar"])]);
    let merged = reconcile(sample, Some(epi), Mode::Ddns).ok().unwrap();
    assert_eq!(merged.height, 2);
    assert_eq!(names(&merged), vec!["sample", "Foo"]);
    assert_eq!(cells(&merged, "Foo"), &vec!["bar".to_string(), "".to_string()]);
}

#[test]
fn join_takes_first_matching_epi_row() {
    let sample = table(vec![col("sample", &["A", ""])]);
    let epi = table(vec![col("ICLabID", &["A", "A", ""]), col("Foo", &["first", "second", "blank"])]);
    let key = "sample".to_string();
    let epi_key = "ICLabID".to_string();
    let merged = left_join(sample, &epi, &key, &epi_key).unwrap();
    assert_eq!(merged.height, 2);
    assert_eq!(cells(&merged, "Foo"), &vec!["first".to_string(), "".to_string()]);
}

#[test]
fn shared_columns_come_from_epi_info() {
    let sample = table(vec![col("sample", &["A"]), col("Country", &["old"])]);
    let epi = table(vec![col("ICLabID", &["A"]), col("Country", &["new"])]);
    let merged = reconcile(sample, Some(epi), Mode::Ddns).ok().unwrap();
    assert_eq!(names(&merged), vec!["sample", "Country"]);
    assert_eq!(cells(&merged, "Country"), &vec!["new".to_string()]);
}

#[test]
fn missing_join_key_is_a_merge_error() {
    let sample = table(vec![col("barcode", &["1"])]);
    let epi = table(vec![col("ICLabID", &["A"])]);
    match reconcile(sample, Some(epi), Mode::Ddns) {
        Err(PipelineError::Merge { sample_columns, epi_columns }) => {
            assert_eq!(sample_columns, vec!["barcode".to_string()]);
            assert_eq!(epi_columns, vec!["ICLabID".to_string()]);
        },
        _ => panic!("expected a merge error"),
    }
}

#[test]
fn no_epi_table_leaves_sample_unchanged() {
    let sample = table(vec![col("sample", &["A"]), col("x", &["1"])]);
    let merged = reconcile(sample, None, Mode::MinIon).ok().unwrap();
    assert_eq!(names(&merged), vec!["sample", "x"]);
}

#[test]
fn epid_number_fills_empty_epid() {
    let mut t = table(vec![col("EPID", &["E1", ""]), col("EpidNumber", &["N1", "N2"]), col("x", &["a", "b"])]);
    merge_epid(&mut t);
    assert_eq!(names(&t), vec!["EPID", "x"]);
    assert_eq!(cells(&t, "EPID"), &vec!["E1".to_string(), "N2".to_string()]);
}

fn full_table(mode: Mode, skip: &str) -> Table {
    let cols = schema_columns(mode)
        .into_iter()
        .filter(|n| n != skip)
        .map(|n| Column { name: n.clone(), cells: vec![format!("{n}-1")] })
        .collect();
    Table { height: 1, columns: cols }
}

#[test]
fn complete_table_validates() {
    assert!(check_columns(&full_table(Mode::Ddns, ""), Mode::Ddns).is_ok());
    assert!(check_columns(&full_table(Mode::MinIon, ""), Mode::MinIon).is_ok());
}

#[test]
fn missing_date_reported_is_named_alone() {
    match check_columns(&full_table(Mode::Ddns, "DateReported"), Mode::Ddns) {
        Err(PipelineError::MissingColumns { mode, columns }) => {
            assert_eq!(mode, Mode::Ddns);
            assert_eq!(columns, vec!["DateReported".to_string()]);
        },
        _ => panic!("expected missing columns"),
    }
}

#[test]
fn every_missing_column_is_listed() {
    let t = table(vec![col("sample", &["A"])]);
    match check_columns(&t, Mode::MinIon) {
        Err(PipelineError::MissingColumns { columns, .. }) => {
            assert_eq!(columns.len(), schema_columns(Mode::MinIon).len() - 1);
            assert_eq!(columns[0], "barcode");
        },
        _ => panic!("expected missing columns"),
    }
}

#[test]
fn projecting_shaped_table_changes_nothing() {
    let t = full_table(Mode::Ddns, "");
    let p = project(&t, Mode::Ddns).ok().unwrap();
    assert_eq!(names(&p), names(&t));
    for c in &t.columns {
        assert_eq!(cells(&p, &c.name), &c.cells);
    }
}

#[test]
fn projection_reorders_and_drops_extras() {
    let mut t = full_table(Mode::MinIon, "");
    t.columns.reverse();
    t.columns.push(col("Extra", &["e"]));
    let p = project(&t, Mode::MinIon).ok().unwrap();
    assert_eq!(names(&p), schema_columns(Mode::MinIon));
}
