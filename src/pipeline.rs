//! One merge, end to end: inputs checked, run metadata read, tables loaded,
//! reconciled, validated, filled and projected, and the output encoded.

use vstd::prelude::*;
use vstd::string::StringExecFns;
use crate::error::PipelineError;
use crate::fill::{fill_columns, fill_plan, fill_plan_spec, filled_all, OperatorInputs};
use crate::formats::{check_formats, date_checks_spec, passes, problems_spec, run_number_pattern};
use crate::loader::{load_spec, load_table};
use crate::reconcile::{aligned, reconcile, reconciled};
use crate::report::{extract_run_metadata, opt_view, read_from_report, RunMetadata};
use crate::schema::{project, required_columns, Action, Mode};
use crate::table::{Table, TableView};
use crate::text::chars_of;
use polars::prelude::{Column as FrameColumn, CsvWriter, DataFrame, PlSmallStr, SerWriter};

verus! {

broadcast use vstd::seq_lib::group_seq_properties;

/// `s` ends with `suffix`.
pub open spec fn ends_with(s: Seq<char>, suffix: Seq<char>) -> bool {
    suffix.len() <= s.len() && s.subrange(s.len() - suffix.len(), s.len() as int) == suffix
}

/// Whether `s` ends with `suffix`.
pub fn has_suffix(s: &str, suffix: &str) -> (r: bool)
    ensures
        r == ends_with(s@, suffix@),
{
    let cs = chars_of(s);
    let xs = chars_of(suffix);
    if xs.len() > cs.len() {
        return false;
    }
    let off = cs.len() - xs.len();
    assert(cs@.len() == cs.len());
    for k in 0..xs.len()
        invariant
            off + xs@.len() == cs@.len(),
            cs@.len() <= usize::MAX,
            cs@ == s@,
            xs@ == suffix@,
            forall|q: int| 0 <= q < k ==> cs@[off + q] == xs@[q],
    {
        if cs[off + k] != xs[k] {
            assert(cs@.subrange(off as int, cs@.len() as int)[k as int] != xs@[k as int]);
            return false;
        }
    }
    assert(cs@.subrange(off as int, cs@.len() as int) =~= xs@);
    true
}

/// Checks the file kinds: the sample and epi-info tables must be `.csv`,
/// the run report `.html`; the first that fails is reported.
pub fn check_extensions(sample_path: &str, epi_path: Option<&str>, report_path: &str) -> (r: Result<
    (),
    PipelineError,
>)
    ensures
        r is Ok <==> ends_with(sample_path@, ".csv"@) && (epi_path matches Some(p) ==> ends_with(p@, ".csv"@))
            && ends_with(report_path@, ".html"@),
        r matches Err(e) ==> e is InvalidExtension,
{
    if !has_suffix(sample_path, ".csv") {
        return Err(
            PipelineError::InvalidExtension(
                String::from_str("Sample file selected is not a CSV file. Please change to CSV."),
            ),
        );
    }
    match epi_path {
        Some(p) => {
            if !has_suffix(p, ".csv") {
                return Err(
                    PipelineError::InvalidExtension(
                        String::from_str("Epi Info file selected is not a CSV file. Please change to CSV."),
                    ),
                );
            }
        },
        None => {},
    }
    if !has_suffix(report_path, ".html") {
        return Err(
            PipelineError::InvalidExtension(
                String::from_str("File selected is not a HTML file. Please change to HTML."),
            ),
        );
    }
    Ok(())
}

pub open spec fn prefer(m: Option<String>, v: String) -> Seq<char> {
    match m {
        Some(s) => s@,
        None => v@,
    }
}

/// The inputs with every field that the run report gives taken from it.
pub open spec fn with_metadata(r: &OperatorInputs, i: &OperatorInputs, m: &RunMetadata) -> bool {
    &&& r.minknow_version@ == prefer(m.minknow_version, i.minknow_version)
    &&& r.flow_cell_id@ == prefer(m.flow_cell_id, i.flow_cell_id)
    &&& r.seq_kit@ == prefer(m.kit_type, i.seq_kit)
    &&& r.seq_hours@ == prefer(m.run_hours, i.seq_hours)
    &&& r.seq_date@ == prefer(m.seq_date, i.seq_date)
    &&& r.flow_cell_pores@ == prefer(m.pore_count, i.flow_cell_pores)
    &&& r.lab@ == i.lab@
    &&& r.run_number@ == i.run_number@
    &&& r.pipeline_version@ == i.pipeline_version@
    &&& r.rt_date@ == i.rt_date@
    &&& r.vp1_date@ == i.vp1_date@
    &&& r.pcr_machine@ == i.pcr_machine@
    &&& r.vp1_pcr_machine@ == i.vp1_pcr_machine@
    &&& r.rtpcr_primers@ == i.rtpcr_primers@
    &&& r.vp1_primers@ == i.vp1_primers@
    &&& r.positive_control@ == i.positive_control@
    &&& r.negative_control@ == i.negative_control@
    &&& r.flow_cell_uses@ == i.flow_cell_uses@
    &&& r.fasta_date@ == i.fasta_date@
}

fn pick(m: &Option<String>, v: &String) -> (r: String)
    ensures
        r@ == prefer(*m, *v),
{
    match m {
        Some(s) => s.clone(),
        None => v.clone(),
    }
}

/// The operator inputs, with the run report's values in place of the
/// entered ones wherever the report gives them.
pub fn apply_metadata(i: &OperatorInputs, m: &RunMetadata) -> (r: OperatorInputs)
    ensures
        with_metadata(&r, i, m),
{
    OperatorInputs {
        lab: i.lab.clone(),
        run_number: i.run_number.clone(),
        pipeline_version: i.pipeline_version.clone(),
        minknow_version: pick(&m.minknow_version, &i.minknow_version),
        rt_date: i.rt_date.clone(),
        vp1_date: i.vp1_date.clone(),
        seq_date: pick(&m.seq_date, &i.seq_date),
        pcr_machine: i.pcr_machine.clone(),
        vp1_pcr_machine: i.vp1_pcr_machine.clone(),
        rtpcr_primers: i.rtpcr_primers.clone(),
        vp1_primers: i.vp1_primers.clone(),
        positive_control: i.positive_control.clone(),
        negative_control: i.negative_control.clone(),
        seq_kit: pick(&m.kit_type, &i.seq_kit),
        flow_cell_id: pick(&m.flow_cell_id, &i.flow_cell_id),
        flow_cell_uses: i.flow_cell_uses.clone(),
        flow_cell_pores: pick(&m.pore_count, &i.flow_cell_pores),
        seq_hours: pick(&m.run_hours, &i.seq_hours),
        fasta_date: i.fasta_date.clone(),
    }
}

/// The table has every required column of `mode`.
pub open spec fn complete(t: TableView, mode: Mode) -> bool {
    forall|k: int| 0 <= k < required_columns(mode).len() ==> t.has(#[trigger] required_columns(mode)[k])
}

/// The join can run: the trimmed sample table has `sample` and the aligned
/// epi-info table has `ICLabID`.
pub open spec fn joinable(s: TableView, e: TableView, mode: Mode) -> bool {
    s.without(aligned(e, mode).names()).has("sample"@) && aligned(e, mode).has("ICLabID"@)
}

/// The run constants pass their format checks.
pub open spec fn formats_pass(i: &OperatorInputs, mode: Mode) -> bool {
    problems_spec(i.run_number@, passes(run_number_pattern(), i.run_number@), date_checks_spec(i, mode)).len() == 0
}

/// The report table that a merge produces, or `None` where a stage fails.
pub open spec fn report_spec(
    s: TableView,
    e: Option<TableView>,
    i: &OperatorInputs,
    mode: Mode,
    action: Action,
) -> Option<TableView> {
    let merged = match e {
        None => Some(s),
        Some(ev) => if joinable(s, ev, mode) {
            Some(reconciled(s, ev, mode))
        } else {
            None
        },
    };
    match merged {
        None => None,
        Some(m) => if !complete(m, mode) {
            None
        } else if action == Action::Merge {
            if formats_pass(i, mode) {
                Some(filled_all(m, fill_plan_spec(i, mode)).selected(required_columns(mode)))
            } else {
                None
            }
        } else {
            Some(m.selected(required_columns(mode)))
        },
    }
}

proof fn lemma_filled_all_keeps_names(t: TableView, plan: Seq<(Seq<char>, Seq<char>)>, x: Seq<char>)
    ensures
        filled_all(t, plan).has(x) == t.has(x),
    decreases plan.len(),
{
    if plan.len() > 0 {
        let t1 = t.filled(plan[0].0, plan[0].1);
        if t.has(x) {
            let j = choose|j: int| 0 <= j < t.columns.len() && #[trigger] t.columns[j].name == x;
            assert(t1.columns[j].name == x);
        }
        if t1.has(x) {
            let j = choose|j: int| 0 <= j < t1.columns.len() && #[trigger] t1.columns[j].name == x;
            assert(t.columns[j].name == x);
        }
        lemma_filled_all_keeps_names(t1, plan.drop_first(), x);
    }
}

/// Builds the report table from loaded tables: reconcile, check the
/// schema's columns, and under `Merge` check the run constants and fill
/// them into empty cells; then project onto the schema.
pub fn build_report(
    sample: Table,
    epi: Option<Table>,
    inputs: &OperatorInputs,
    mode: Mode,
    action: Action,
) -> (r: Result<Table, PipelineError>)
    requires
        sample@.wf(),
        epi matches Some(e) ==> e@.wf(),
    ensures
        r is Ok <==> report_spec(sample@, opt_table(epi), inputs, mode, action) is Some,
        r matches Ok(t) ==> Some(t@) == report_spec(sample@, opt_table(epi), inputs, mode, action),
        r matches Ok(t) ==> forall|q: int| 0 <= q < t@.columns.len() ==> #[trigger] t@.columns[q].cells.len() == t@.height,
{
    let ghost e_view = opt_table(epi);
    let mut merged = match reconcile(sample, epi, mode) {
        Ok(t) => t,
        Err(e) => return Err(e),
    };
    match crate::schema::check_columns(&merged, mode) {
        Ok(()) => {},
        Err(e) => return Err(e),
    }
    match action {
        Action::Merge => {
            match check_formats(inputs, mode) {
                Ok(()) => {},
                Err(e) => return Err(e),
            }
            let ghost before = merged@;
            let plan = fill_plan(inputs, mode);
            assert(plan@.map_values(|p: (String, String)| (p.0@, p.1@)) =~= fill_plan_spec(inputs, mode));
            fill_columns(&mut merged, &plan);
            proof {
                assert forall|k: int| 0 <= k < required_columns(mode).len() implies merged@.has(
                    #[trigger] required_columns(mode)[k],
                ) by {
                    lemma_filled_all_keeps_names(before, fill_plan_spec(inputs, mode), required_columns(mode)[k]);
                }
            }
            project(&merged, mode)
        },
        Action::Update => project(&merged, mode),
    }
}

pub open spec fn opt_table(o: Option<Table>) -> Option<TableView> {
    match o {
        Some(t) => Some(t@),
        None => None,
    }
}

/// The output file's name: `<RunNumber>_merger_output.csv`.
pub fn output_file_name(run_number: &String) -> (r: String)
    ensures
        r@ == run_number@ + "_merger_output.csv"@,
{
    run_number.clone().concat("_merger_output.csv")
}

/// What polars' CSV writer makes of columns of nullable strings: the
/// comma-separated text with a header line; `None` where it cannot write.
pub uninterp spec fn csv_encoding(columns: Seq<(Seq<char>, Seq<Option<Seq<char>>>)>) -> Option<Seq<char>>;

pub open spec fn nullable_view(v: Seq<(String, Vec<Option<String>>)>) -> Seq<(Seq<char>, Seq<Option<Seq<char>>>)> {
    v.map_values(|p: (String, Vec<Option<String>>)| (p.0@, p.1@.map_values(|o: Option<String>| opt_view(o))))
}

/// Relies on polars' DataFrame::new (columns of equal length with distinct
/// names) and CsvWriter with its defaults: a header line, `,` as separator,
/// a null written as an empty field.
#[verifier::external_body]
fn encode_csv(columns: &Vec<(String, Vec<Option<String>>)>) -> (r: Option<String>)
    ensures
        r matches Some(s) ==> csv_encoding(nullable_view(columns@)) == Some(s@),
        r is None ==> csv_encoding(nullable_view(columns@)) is None,
{
    let mut df = DataFrame::new(columns.iter().map(|(n, c)| FrameColumn::new(PlSmallStr::from_str(n), c.clone())).collect()).ok()?;
    let mut buf: Vec<u8> = Vec::new();
    CsvWriter::new(&mut buf).finish(&mut df).ok()?;
    String::from_utf8(buf).ok()
}

/// A cell as it is written: an empty cell is a missing value.
pub open spec fn nullable(x: Seq<char>) -> Option<Seq<char>> {
    if x.len() == 0 {
        None
    } else {
        Some(x)
    }
}

/// The columns of `t` as written, an empty cell written as missing.
pub open spec fn written_columns(t: TableView) -> Seq<(Seq<char>, Seq<Option<Seq<char>>>)> {
    t.columns.map_values(
        |c: crate::table::ColumnView| (c.name, c.cells.map_values(|x: Seq<char>| nullable(x))),
    )
}

/// Encodes a table as comma-separated text with a header line; empty cells
/// are written as missing values.
pub fn table_to_csv(t: &Table) -> (r: Option<String>)
    ensures
        match r {
            Some(s) => csv_encoding(written_columns(t@)) == Some(s@),
            None => csv_encoding(written_columns(t@)) is None,
        },
{
    let mut cols: Vec<(String, Vec<Option<String>>)> = Vec::new();
    for j in 0..t.columns.len()
        invariant
            cols@.len() == j,
            j <= t.columns@.len(),
            forall|q: int| 0 <= q < j ==> #[trigger] nullable_view(cols@)[q] == written_columns(t@)[q],
    {
        let c = &t.columns[j];
        let mut cells: Vec<Option<String>> = Vec::new();
        for i in 0..c.cells.len()
            invariant
                cells@.len() == i,
                forall|q: int| 0 <= q < i ==> opt_view(#[trigger] cells@[q]) == nullable(c.cells@[q]@),
        {
            if c.cells[i].as_str().is_empty() {
                cells.push(None);
            } else {
                cells.push(Some(c.cells[i].clone()));
            }
        }
        let ghost before = cols@;
        cols.push((c.name.clone(), cells));
        proof {
            assert(nullable_view(cols@)[j as int].1 =~= written_columns(t@)[j as int].1);
            assert forall|q: int| 0 <= q < j + 1 implies #[trigger] nullable_view(cols@)[q] == written_columns(t@)[q] by {
                if q < j {
                    assert(cols@[q] == before[q]);
                    assert(nullable_view(cols@)[q] == nullable_view(before)[q]);
                }
            }
        }
    }
    assert(nullable_view(cols@) =~= written_columns(t@));
    encode_csv(&cols)
}

/// What a merge produces: the report table and the file name it goes under.
#[derive(Debug)]
pub struct MergeOutput {
    pub table: Table,
    pub file_name: String,
}

/// A delimited input: its text and the path it came from.
pub struct SourceText {
    pub path: String,
    pub content: String,
}

/// The input files have the kinds they need.
pub open spec fn kinds_ok(sample: &SourceText, epi: Option<&SourceText>, report_path: Seq<char>) -> bool {
    ends_with(sample.path@, ".csv"@) && (epi matches Some(e) ==> ends_with(e.path@, ".csv"@)) && ends_with(
        report_path,
        ".html"@,
    )
}

/// The delimited inputs load as tables.
pub open spec fn loads_ok(sample: &SourceText, epi: Option<&SourceText>) -> bool {
    load_spec(sample.content@) is Some && (epi matches Some(e) ==> load_spec(e.content@) is Some)
}

pub open spec fn loaded(sample: &SourceText) -> TableView {
    load_spec(sample.content@)->0
}

pub open spec fn loaded_epi(epi: Option<&SourceText>) -> Option<TableView> {
    match epi {
        Some(e) => load_spec(e.content@),
        None => None,
    }
}

/// Runs one merge over the texts of the inputs. Fails with the first
/// failing stage: file kinds, the sample table, the epi-info table, the
/// join, the schema's columns, the run constants (under `Merge`). The run
/// report never fails the merge: the fields it gives replace the operator's.
pub fn run_merge(
    sample: &SourceText,
    epi: Option<&SourceText>,
    report_path: &str,
    report_html: &str,
    inputs: &OperatorInputs,
    mode: Mode,
    action: Action,
) -> (r: Result<MergeOutput, PipelineError>)
    ensures
        !kinds_ok(sample, epi, report_path@) ==> (r matches Err(e) && e is InvalidExtension),
        kinds_ok(sample, epi, report_path@) && !loads_ok(sample, epi) ==> (r matches Err(e) && e is Parse),
        r is Ok ==> kinds_ok(sample, epi, report_path@) && loads_ok(sample, epi),
        r matches Ok(out) ==> out.file_name@ == inputs.run_number@ + "_merger_output.csv"@,
        r matches Ok(out) ==> exists|m: RunMetadata, effective: OperatorInputs|
            #![trigger read_from_report(m, report_html@), with_metadata(&effective, inputs, &m)]
            read_from_report(m, report_html@) && with_metadata(&effective, inputs, &m) && Some(out.table@)
                == report_spec(loaded(sample), loaded_epi(epi), &effective, mode, action),
        r is Err && kinds_ok(sample, epi, report_path@) && loads_ok(sample, epi) ==> exists|
            m: RunMetadata,
            effective: OperatorInputs,
        |
            #![trigger read_from_report(m, report_html@), with_metadata(&effective, inputs, &m)]
            read_from_report(m, report_html@) && with_metadata(&effective, inputs, &m) && report_spec(
                loaded(sample),
                loaded_epi(epi),
                &effective,
                mode,
                action,
            ) is None,
{
    match check_extensions(sample.path.as_str(), match epi {
        Some(e) => Some(e.path.as_str()),
        None => None,
    }, report_path) {
        Ok(()) => {},
        Err(e) => return Err(e),
    }
    let meta = extract_run_metadata(report_html);
    let effective = apply_metadata(inputs, &meta);
    let s = match load_table(sample.content.as_str(), sample.path.as_str()) {
        Ok(t) => t,
        Err(e) => return Err(e),
    };
    let e = match epi {
        Some(src) => match load_table(src.content.as_str(), src.path.as_str()) {
            Ok(t) => Some(t),
            Err(e) => return Err(e),
        },
        None => None,
    };
    assert(read_from_report(meta, report_html@) && with_metadata(&effective, inputs, &meta));
    let table = match build_report(s, e, &effective, mode, action) {
        Ok(t) => t,
        Err(e) => return Err(e),
    };
    Ok(MergeOutput { table, file_name: output_file_name(&inputs.run_number) })
}

} // verus!
