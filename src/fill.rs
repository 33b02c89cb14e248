//! Run-level constants entered by the operator, and how they fill the merged
//! table where it holds no value.

use vstd::prelude::*;
use vstd::string::StringExecFns;
use crate::schema::Mode;
use crate::table::{Table, TableView, fill_cell};

verus! {

broadcast use vstd::seq_lib::group_seq_properties;

/// Values entered on the form, captured once per merge.
#[derive(Debug)]
pub struct OperatorInputs {
    pub lab: String,
    pub run_number: String,
    pub pipeline_version: String,
    pub minknow_version: String,
    pub rt_date: String,
    pub vp1_date: String,
    pub seq_date: String,
    pub pcr_machine: String,
    pub vp1_pcr_machine: String,
    pub rtpcr_primers: String,
    pub vp1_primers: String,
    /// The positive PCR control selection, such as `Positive Passed`.
    pub positive_control: String,
    /// The negative PCR control selection, such as `Negative Failed`.
    pub negative_control: String,
    pub seq_kit: String,
    pub flow_cell_id: String,
    pub flow_cell_uses: String,
    pub flow_cell_pores: String,
    pub seq_hours: String,
    pub fasta_date: String,
}

/// Which PCR control a selection belongs to.
#[derive(PartialEq, Eq, Structural, Clone, Copy, Debug)]
pub enum Control {
    Positive,
    Negative,
}

pub open spec fn passed_label(c: Control) -> Seq<char> {
    match c {
        Control::Positive => "Positive Passed"@,
        Control::Negative => "Negative Passed"@,
    }
}

pub open spec fn failed_label(c: Control) -> Seq<char> {
    match c {
        Control::Positive => "Positive Failed"@,
        Control::Negative => "Negative Failed"@,
    }
}

/// A control selection as it is recorded: `Pass`, `Fail`, empty when
/// nothing was selected, and `unknown` for anything else.
pub open spec fn control_status_spec(selection: Seq<char>, c: Control) -> Seq<char> {
    if selection == passed_label(c) {
        "Pass"@
    } else if selection == failed_label(c) {
        "Fail"@
    } else if selection == "Unselected"@ {
        Seq::empty()
    } else {
        "unknown"@
    }
}

/// Normalises a PCR control selection.
pub fn control_status(selection: &String, c: Control) -> (r: String)
    ensures
        r@ == control_status_spec(selection@, c),
{
    let passed = match c {
        Control::Positive => String::from_str("Positive Passed"),
        Control::Negative => String::from_str("Negative Passed"),
    };
    let failed = match c {
        Control::Positive => String::from_str("Positive Failed"),
        Control::Negative => String::from_str("Negative Failed"),
    };
    if *selection == passed {
        String::from_str("Pass")
    } else if *selection == failed {
        String::from_str("Fail")
    } else if *selection == String::from_str("Unselected") {
        String::new()
    } else {
        String::from_str("unknown")
    }
}

/// The (column, value) pairs that a merge fills, common ones first.
pub open spec fn fill_plan_spec(i: &OperatorInputs, mode: Mode) -> Seq<(Seq<char>, Seq<char>)> {
    let common = seq![
        ("RunNumber"@, i.run_number@),
        ("MinKNOWSoftwareVersion"@, i.minknow_version@),
        ("AnalysisPipelineVersion"@, i.pipeline_version@),
        ("DateSeqRunLoaded"@, i.seq_date@),
        ("FlowCellID"@, i.flow_cell_id@),
        ("FlowCellPriorUses"@, i.flow_cell_uses@),
        ("PoresAvilableAtFlowCellCheck"@, i.flow_cell_pores@),
        ("RunHoursDuration"@, i.seq_hours@),
        ("DateFastaGenerated"@, i.fasta_date@),
        ("LibraryPreparationKit"@, i.seq_kit@),
        ("DateRTPCR"@, i.rt_date@),
    ];
    let pos = control_status_spec(i.positive_control@, Control::Positive);
    let neg = control_status_spec(i.negative_control@, Control::Negative);
    match mode {
        Mode::MinIon => common + seq![
            ("PositiveControlPCRCheck"@, pos),
            ("NegativeControlPCRheck"@, neg),
            ("institute"@, i.lab@),
        ],
        Mode::Ddns => common + seq![
            ("PositiveControlPCRCheck"@, pos),
            ("NegativeControlPCRCheck"@, neg),
            ("DateVP1PCR"@, i.vp1_date@),
            ("RTPCRMachine"@, i.pcr_machine@),
            ("VP1PCRMachine"@, i.vp1_pcr_machine@),
            ("RTPCRprimers"@, i.rtpcr_primers@),
            ("VP1primers"@, i.vp1_primers@),
        ],
    }
}

fn pair(column: &str, value: &String) -> (r: (String, String))
    ensures
        r.0@ == column@,
        r.1@ == value@,
{
    (String::from_str(column), value.clone())
}

/// The (column, value) pairs that a merge under `mode` fills.
pub fn fill_plan(i: &OperatorInputs, mode: Mode) -> (r: Vec<(String, String)>)
    ensures
        r@.len() == fill_plan_spec(i, mode).len(),
        forall|k: int| 0 <= k < r@.len() ==> (#[trigger] r@[k]).0@ == fill_plan_spec(i, mode)[k].0
            && r@[k].1@ == fill_plan_spec(i, mode)[k].1,
{
    let mut v: Vec<(String, String)> = Vec::new();
    v.push(pair("RunNumber", &i.run_number));
    v.push(pair("MinKNOWSoftwareVersion", &i.minknow_version));
    v.push(pair("AnalysisPipelineVersion", &i.pipeline_version));
    v.push(pair("DateSeqRunLoaded", &i.seq_date));
    v.push(pair("FlowCellID", &i.flow_cell_id));
    v.push(pair("FlowCellPriorUses", &i.flow_cell_uses));
    v.push(pair("PoresAvilableAtFlowCellCheck", &i.flow_cell_pores));
    v.push(pair("RunHoursDuration", &i.seq_hours));
    v.push(pair("DateFastaGenerated", &i.fasta_date));
    v.push(pair("LibraryPreparationKit", &i.seq_kit));
    v.push(pair("DateRTPCR", &i.rt_date));
    let pos = control_status(&i.positive_control, Control::Positive);
    let neg = control_status(&i.negative_control, Control::Negative);
    match mode {
        Mode::MinIon => {
            v.push(pair("PositiveControlPCRCheck", &pos));
            v.push(pair("NegativeControlPCRheck", &neg));
            v.push(pair("institute", &i.lab));
        },
        Mode::Ddns => {
            v.push(pair("PositiveControlPCRCheck", &pos));
            v.push(pair("NegativeControlPCRCheck", &neg));
            v.push(pair("DateVP1PCR", &i.vp1_date));
            v.push(pair("RTPCRMachine", &i.pcr_machine));
            v.push(pair("VP1PCRMachine", &i.vp1_pcr_machine));
            v.push(pair("RTPCRprimers", &i.rtpcr_primers));
            v.push(pair("VP1primers", &i.vp1_primers));
        },
    }
    v
}

/// The fills `plan` applied one after the other.
pub open spec fn filled_all(t: TableView, plan: Seq<(Seq<char>, Seq<char>)>) -> TableView
    decreases plan.len(),
{
    if plan.len() == 0 {
        t
    } else {
        filled_all(t.filled(plan[0].0, plan[0].1), plan.drop_first())
    }
}

/// Fills, column by column, every empty cell of each planned column with its
/// value.
pub fn fill_columns(t: &mut Table, plan: &Vec<(String, String)>)
    requires
        old(t)@.wf(),
    ensures
        final(t)@ == filled_all(old(t)@, plan@.map_values(|p: (String, String)| (p.0@, p.1@))),
        final(t)@.wf(),
{
    let ghost ps = plan@.map_values(|p: (String, String)| (p.0@, p.1@));
    let ghost start = t@;
    assert(ps.subrange(0, ps.len() as int) =~= ps);
    for k in 0..plan.len()
        invariant
            t@.wf(),
            ps == plan@.map_values(|p: (String, String)| (p.0@, p.1@)),
            filled_all(start, ps) == filled_all(t@, ps.subrange(k as int, ps.len() as int)),
    {
        let ghost rest = ps.subrange(k as int, ps.len() as int);
        assert(rest.drop_first() =~= ps.subrange(k + 1, ps.len() as int));
        t.fill_empty(&plan[k].0, &plan[k].1);
    }
    assert(ps.subrange(ps.len() as int, ps.len() as int) =~= Seq::<(Seq<char>, Seq<char>)>::empty());
}

/// Operator constants never overwrite per-sample data: after any sequence of
/// fills, a cell that held a value still holds that same value, under the
/// same column name.
pub proof fn fills_never_overwrite(
    t: TableView,
    plan: Seq<(Seq<char>, Seq<char>)>,
    j: int,
    i: int,
)
    requires
        0 <= j < t.columns.len(),
        0 <= i < t.columns[j].cells.len(),
        t.columns[j].cells[i].len() > 0,
    ensures
        filled_all(t, plan).columns.len() == t.columns.len(),
        filled_all(t, plan).columns[j].name == t.columns[j].name,
        filled_all(t, plan).columns[j].cells.len() == t.columns[j].cells.len(),
        filled_all(t, plan).columns[j].cells[i] == t.columns[j].cells[i],
    decreases plan.len(),
{
    if plan.len() > 0 {
        let t1 = t.filled(plan[0].0, plan[0].1);
        assert(t1.columns[j].cells[i] == fill_cell(t.columns[j].cells[i], plan[0].1)
            || t1.columns[j].cells[i] == t.columns[j].cells[i]);
        fills_never_overwrite(t1, plan.drop_first(), j, i);
    }
}

} // verus!
