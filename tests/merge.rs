use merger::error::PipelineError;
use merger::fill::{control_status, Control, OperatorInputs};
use merger::formats::{check_formats, format_problems, FieldCheck};
use merger::loader::table_from_columns;
use merger::pipeline::{apply_metadata, check_extensions, run_merge, table_to_csv, SourceText};
use merger::report::{decimal_string, extract_run_metadata, metadata_from_json, report_payload, Json};
use merger::schema::{schema_columns, Action, Mode};
use merger::table::{Column, Table};

fn inputs(run_number: &str) -> OperatorInputs {
    let s = |x: &str| x.to_string();
    OperatorInputs {
        lab: s("LabX"),
        run_number: s(run_number),
        pipeline_version: s("1.2"),
        minknow_version: s("24.1"),
        rt_date: s("2025-02-01"),
        vp1_date: s("2025-02-02"),
        seq_date: s("2025-02-03"),
        pcr_machine: s("PCR-1"),
        vp1_pcr_machine: s("PCR-2"),
        rtpcr_primers: s("P1"),
        vp1_primers: s("P2"),
        positive_control: s("Positive Passed"),
        negative_control: s("Negative Failed"),
        seq_kit: s("SQK"),
        flow_cell_id: s("FC1"),
        flow_cell_uses: s("0"),
        flow_cell_pores: s("1500"),
        seq_hours: s("72"),
        fasta_date: s("2025-02-04"),
    }
}

fn csv_with(mode: Mode, first: &str, value_of: impl Fn(&str) -> String) -> String {
    let mut cols = schema_columns(mode);
    cols.retain(|c| c != first);
    cols.reverse();
    cols.insert(0, first.to_string());
    let header = cols.join(",");
    let row: Vec<String> = cols.iter().map(|c| value_of(c)).collect();
    format!("{header}\n{}\n", row.join(","))
}

fn names(t: &Table) -> Vec<String> {
    t.columns.iter().map(|c| c.name.clone()).collect()
}

fn cell(t: &Table, name: &str) -> String {
    t.columns.iter().find(|c| c.name == name).expect("column").cells[0].clone()
}

const NO_REPORT: &str = "<html><body><script>var x = 1;</script></body></html>";

#[test]
fn update_reshapes_to_schema_order() {
    let content = csv_with(Mode::Ddns, "sample", |c| format!("{c}-v"));
    let sample = SourceText { path: "samples.csv".to_string(), content };
    let out = run_merge(&sample, None, "run.html", NO_REPORT, &inputs("20250206_005"), Mode::Ddns, Action::Update)
        .unwrap();
    assert_eq!(names(&out.table), schema_columns(Mode::Ddns));
    assert_eq!(cell(&out.table, "Well"), "Well-v");
    assert_eq!(out.file_name, "20250206_005_merger_output.csv");
}

#[test]
fn missing_date_reported_stops_the_merge() {
    let content = csv_with(Mode::Ddns, "sample", |c| format!("{c}-v")).replace(",DateReported", "");
    let header_only = content.lines().next().unwrap().to_string();
    assert!(!header_only.contains("DateReported"));
    let sample = SourceText { path: "samples.csv".to_string(), content: format!("{header_only}\n") };
    match run_merge(&sample, None, "run.html", NO_REPORT, &inputs("20250206_005"), Mode::Ddns, Action::Update) {
        Err(PipelineError::MissingColumns { columns, mode }) => {
            assert_eq!(columns, vec!["DateReported".to_string()]);
            assert_eq!(mode, Mode::Ddns);
        },
        other => panic!("expected missing columns, got {other:?}"),
    }
}

#[test]
fn short_run_number_is_a_format_error() {
    match check_formats(&inputs("2025020_5"), Mode::Ddns) {
        Err(e @ PipelineError::Format(_)) => {
            let m = e.message();
            assert!(m.contains("Invalid run number format"));
            assert!(m.contains("yyyymmdd_xxx"));
            assert_eq!(e.title(), "Input Format Error");
        },
        other => panic!("expected a format error, got {other:?}"),
    }
}

#[test]
fn bad_dates_are_all_reported_at_once() {
    let mut i = inputs("20250206_005");
    i.rt_date = "01/02/2025".to_string();
    i.fasta_date = "2025-2-4".to_string();
    match check_formats(&i, Mode::MinIon) {
        Err(PipelineError::Format(v)) => {
            assert_eq!(v.len(), 3);
            assert_eq!(v[0], "Invalid date format for field RT PCR Date: 01/02/2025");
            assert_eq!(v[1], "Invalid date format for field Fasta Generation Date: 2025-2-4");
            assert_eq!(v[2], "Expected yyyy-mm-dd.");
        },
        other => panic!("expected a format error, got {other:?}"),
    }
}

#[test]
fn valid_and_empty_values_pass() {
    assert!(check_formats(&inputs("20250206_005"), Mode::Ddns).is_ok());
    let mut i = inputs("");
    i.vp1_date = String::new();
    assert!(check_formats(&i, Mode::Ddns).is_ok());
    i.vp1_date = "bad".to_string();
    assert!(check_formats(&i, Mode::MinIon).is_ok());
    assert!(check_formats(&i, Mode::Ddns).is_err());
}

#[test]
fn report_without_marker_gives_no_metadata() {
    let m = extract_run_metadata(NO_REPORT);
    assert!(m.minknow_version.is_none());
    assert!(m.flow_cell_id.is_none());
    assert!(m.kit_type.is_none());
    assert!(m.run_hours.is_none());
    assert!(m.seq_date.is_none());
    assert!(m.pore_count.is_none());
    let content = csv_with(Mode::Ddns, "sample", |c| format!("{c}-v"));
    let sample = SourceText { path: "samples.csv".to_string(), content };
    assert!(run_merge(&sample, None, "run.html", NO_REPORT, &inputs("20250206_005"), Mode::Ddns, Action::Merge).is_ok());
}

const REPORT: &str = r#"<html><head><script>const other=1;</script><script>
const reportData={"software_versions":[{"title":"MinKNOW","value":"24.02.8"},{"title":"Bream","value":"7"}],
"run_setup":[{"title":"Flow cell ID","value":"FAX123"},{"title":"Kit type"}],
"run_settings":[{"title":"Run limit","value":"72 hrs"}],
"run_end_time":"2025-02-06T10:11:12Z",
"pore_scan":{"series_data":[{"name":"Other","data":[[0,1]]},{"name":"Pore available","data":[[0,1432],[1,1200]]}]}}; render();
</script></head></html>"#;

#[test]
fn report_fields_are_extracted() {
    let m = extract_run_metadata(REPORT);
    assert_eq!(m.minknow_version.as_deref(), Some("24.02.8"));
    assert_eq!(m.flow_cell_id.as_deref(), Some("FAX123"));
    assert_eq!(m.kit_type.as_deref(), Some("Unknown"));
    assert_eq!(m.run_hours.as_deref(), Some("72 hrs"));
    assert_eq!(m.seq_date.as_deref(), Some("2025-02-06"));
    assert_eq!(m.pore_count.as_deref(), Some("1432"));
}

#[test]
fn malformed_report_json_gives_no_metadata() {
    let m = extract_run_metadata("<script>const reportData={not json};</script>");
    assert!(m.seq_date.is_none());
    assert!(m.minknow_version.is_none());
}

#[test]
fn report_without_end_time_dates_unknown() {
    let m = metadata_from_json(&Json::Object(vec![]));
    assert_eq!(m.seq_date.as_deref(), Some("Unknown"));
    assert!(m.pore_count.is_none());
}

#[test]
fn payload_is_cut_at_semicolon_and_trimmed() {
    assert_eq!(report_payload("x const reportData= {\"a\":1} ;rest").as_deref(), Some("{\"a\":1}"));
    assert_eq!(report_payload("no marker here"), None);
}

#[test]
fn decimal_strings() {
    assert_eq!(decimal_string(0), "0");
    assert_eq!(decimal_string(1432), "1432");
    assert_eq!(decimal_string(-17), "-17");
    assert_eq!(decimal_string(i64::MIN), i64::MIN.to_string());
}

#[test]
fn report_values_replace_operator_values() {
    let m = extract_run_metadata(REPORT);
    let e = apply_metadata(&inputs("20250206_005"), &m);
    assert_eq!(e.flow_cell_id, "FAX123");
    assert_eq!(e.seq_date, "2025-02-06");
    assert_eq!(e.flow_cell_pores, "1432");
    assert_eq!(e.lab, "LabX");
}

#[test]
fn merge_fills_only_empty_cells() {
    let content = csv_with(Mode::Ddns, "sample", |c| match c {
        "RunNumber" | "FlowCellID" | "PositiveControlPCRCheck" | "VP1primers" => String::new(),
        other => format!("{other}-v"),
    });
    let sample = SourceText { path: "samples.csv".to_string(), content };
    let out = run_merge(&sample, None, "run.html", NO_REPORT, &inputs("20250206_005"), Mode::Ddns, Action::Merge)
        .unwrap();
    assert_eq!(cell(&out.table, "RunNumber"), "20250206_005");
    assert_eq!(cell(&out.table, "FlowCellID"), "FC1");
    assert_eq!(cell(&out.table, "PositiveControlPCRCheck"), "Pass");
    assert_eq!(cell(&out.table, "VP1primers"), "P2");
    assert_eq!(cell(&out.table, "DateRTPCR"), "DateRTPCR-v");
    assert_eq!(cell(&out.table, "Well"), "Well-v");
}

#[test]
fn minion_merge_with_epi_info() {
    let content = csv_with(Mode::MinIon, "sample", |c| match c {
        "sample" => "S1".to_string(),
        "institute" => String::new(),
        other => format!("{other}-v"),
    });
    let sample = SourceText { path: "samples.csv".to_string(), content };
    let epi = SourceText {
        path: "epi.csv".to_string(),
        content: "ICLabID;FinalITDResult;EpidNumber\nS1;PV1;EP-9\n".to_string(),
    };
    let mut i = inputs("20250206_005");
    i.negative_control = "Unselected".to_string();
    let out = run_merge(&sample, Some(&epi), "run.html", NO_REPORT, &i, Mode::MinIon, Action::Merge).unwrap();
    assert_eq!(names(&out.table), schema_columns(Mode::MinIon));
    assert_eq!(cell(&out.table, "ITDResult"), "PV1");
    assert_eq!(cell(&out.table, "EPID"), "EPID-v");
    assert_eq!(cell(&out.table, "institute"), "LabX");
}

#[test]
fn wrong_extensions_are_rejected() {
    assert!(check_extensions("a.csv", None, "r.html").is_ok());
    assert!(matches!(check_extensions("a.txt", None, "r.html"), Err(PipelineError::InvalidExtension(_))));
    assert!(matches!(check_extensions("a.csv", Some("e.xlsx"), "r.html"), Err(PipelineError::InvalidExtension(_))));
    assert!(matches!(check_extensions("a.csv", Some("e.csv"), "r.htm"), Err(PipelineError::InvalidExtension(_))));
}

#[test]
fn controls_are_normalised() {
    assert_eq!(control_status(&"Positive Passed".to_string(), Control::Positive), "Pass");
    assert_eq!(control_status(&"Negative Failed".to_string(), Control::Negative), "Fail");
    assert_eq!(control_status(&"Unselected".to_string(), Control::Positive), "");
    assert_eq!(control_status(&"Negative Passed".to_string(), Control::Positive), "unknown");
}

#[test]
fn csv_output_writes_empty_cells_as_missing() {
    let t = Table {
        height: 2,
        columns: vec![
            Column { name: "a".to_string(), cells: vec!["1".to_string(), "".to_string()] },
            Column { name: "b".to_string(), cells: vec!["x,y".to_string(), "z".to_string()] },
        ],
    };
    assert_eq!(table_to_csv(&t).unwrap(), "a,b\n1,\"x,y\"\n,z\n");
}

#[test]
fn missing_columns_message_lists_names() {
    let e = PipelineError::MissingColumns { mode: Mode::MinIon, columns: vec!["A".to_string(), "B".to_string()] };
    assert_eq!(e.title(), "Missing Columns");
    assert!(e.message().starts_with("These columns were missing from the samples file for minION: A, B"));
}

#[test]
fn problems_follow_the_checks_made() {
    let checks = vec![
        FieldCheck { label: "RT PCR Date".to_string(), value: "x".to_string(), passed: false },
        FieldCheck { label: "Sequencing Date".to_string(), value: "2025-01-01".to_string(), passed: true },
    ];
    let p = format_problems(&"bad".to_string(), false, &checks);
    assert_eq!(
        p,
        vec![
            "Invalid date format for field RT PCR Date: x".to_string(),
            "Expected yyyy-mm-dd.".to_string(),
            "Invalid run number format: bad \nExpected yyyymmdd_xxx.".to_string(),
        ]
    );
    assert!(format_problems(&"bad".to_string(), true, &Vec::new()).is_empty());
}

#[test]
fn parsed_columns_become_a_table() {
    let cols = vec![
        ("a".to_string(), vec![Some("1".to_string()), None]),
        ("b".to_string(), vec![None, Some("2".to_string())]),
    ];
    let t = table_from_columns(cols).unwrap();
    assert_eq!(t.height, 2);
    assert_eq!(t.columns[0].cells, vec!["1".to_string(), "".to_string()]);
    let uneven = vec![("a".to_string(), vec![None]), ("b".to_string(), vec![])];
    assert!(table_from_columns(uneven).is_none());
    let repeated = vec![("a".to_string(), vec![]), ("a".to_string(), vec![])];
    assert!(table_from_columns(repeated).is_none());
}
