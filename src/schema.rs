//! The two output schemas and the column aliases of the epi-info export.

use vstd::prelude::*;
use vstd::string::StringExecFns;
use crate::table::{strings_view, nothing_missing_iff_superset, Table, TableView};
use crate::error::PipelineError;

verus! {

/// Which of the two output schemas governs a merge.
#[derive(PartialEq, Eq, Structural, Clone, Copy, Debug)]
pub enum Mode {
    Ddns,
    MinIon,
}

/// Whether the operator constants are filled in, or the sample sheet is only
/// reshaped.
#[derive(PartialEq, Eq, Structural, Clone, Copy, Debug)]
pub enum Action {
    Merge,
    Update,
}

pub open spec fn ddns_columns() -> Seq<Seq<char>> {
    seq![
        "sample"@,
        "barcode"@,
        "IsQCRetest"@,
        "IfRetestOriginalRun"@,
        "EPID"@,
        "SampleType"@,
        "CaseOrContact"@,
        "Country"@,
        "Province"@,
        "District"@,
        "StoolCondition"@,
        "SpecimenNumber"@,
        "SameAliquot"@,
        "DateOfOnset"@,
        "DateStoolCollected"@,
        "DateStoolReceivedinLab"@,
        "DateStoolsuspension"@,
        "DateRNAextraction"@,
        "DateRTPCR"@,
        "RTPCRMachine"@,
        "RTPCRprimers"@,
        "DateVP1PCR"@,
        "VP1PCRMachine"@,
        "VP1primers"@,
        "PositiveControlPCRCheck"@,
        "NegativeControlPCRCheck"@,
        "LibraryPreparationKit"@,
        "Well"@,
        "RunNumber"@,
        "DateSeqRunLoaded"@,
        "SequencerUsed"@,
        "FlowCellVersion"@,
        "FlowCellID"@,
        "FlowCellPriorUses"@,
        "PoresAvilableAtFlowCellCheck"@,
        "MinKNOWSoftwareVersion"@,
        "RunHoursDuration"@,
        "DateFastaGenerated"@,
        "AnalysisPipelineVersion"@,
        "RunQC"@,
        "DDNSclassification"@,
        "SampleQC"@,
        "SampleQCChecksComplete"@,
        "QCComments"@,
        "DateReported"@,
    ]
}

pub open spec fn minion_columns() -> Seq<Seq<char>> {
    seq![
        "sample"@,
        "barcode"@,
        "IsQCRetest"@,
        "IfRetestOriginalRun"@,
        "institute"@,
        "EPID"@,
        "CaseOrContact"@,
        "CountryOfSampleOrigin"@,
        "SpecimenNumber"@,
        "DateOfOnset"@,
        "DateStoolCollected"@,
        "DateStoolReceivedinLab"@,
        "DateStoolsuspension"@,
        "DateFinalCultureResult"@,
        "FlaskNumber"@,
        "FinalCellCultureResult"@,
        "DateFinalITDresult"@,
        "ITDResult"@,
        "ITDMixture"@,
        "DateSangerResultGenerated"@,
        "SangerSequenceID"@,
        "SequencingLab"@,
        "DelaysInProcessingForSequencing"@,
        "DetailsOfDelays"@,
        "IsclassificationQCRetest"@,
        "RTPCRcomments"@,
        "DateRNAExtraction"@,
        "DateRTPCR"@,
        "PositiveControlPCRCheck"@,
        "NegativeControlPCRheck"@,
        "LibraryPreparationKit"@,
        "RunNumber"@,
        "DateSeqRunLoaded"@,
        "FlowCellID"@,
        "FlowCellPriorUses"@,
        "PoresAvilableAtFlowCellCheck"@,
        "MinKNOWSoftwareVersion"@,
        "RunHoursDuration"@,
        "DateFastaGenerated"@,
        "AnalysisPipelineVersion"@,
        "RunQC"@,
        "IsolateClassification"@,
        "SampleQC"@,
        "SampleQCChecksComplete"@,
        "QCComments"@,
        "DateReported"@,
    ]
}

/// The columns that the output of `mode` holds, in output order.
pub open spec fn required_columns(mode: Mode) -> Seq<Seq<char>> {
    match mode {
        Mode::Ddns => ddns_columns(),
        Mode::MinIon => minion_columns(),
    }
}

/// Epi-info column names (old, new) that the minION schema knows under the
/// new name.
pub open spec fn minion_renames() -> Seq<(Seq<char>, Seq<char>)> {
    seq![
        ("DateFinalCellCultureResults"@, "DateFinalCultureResult"@),
        ("DateFinalrRTPCRResults"@, "DateFinalITDresult"@),
        ("FinalITDResult"@, "ITDResult"@),
        ("SequenceName"@, "SangerSequenceID"@),
        ("DateSeqResult"@, "DateSangerResultGenerated"@),
    ]
}

/// The required columns of `mode`, in output order.
pub fn schema_columns(mode: Mode) -> (r: Vec<String>)
    ensures
        strings_view(r@) == required_columns(mode),
{
    let mut v: Vec<String> = Vec::new();
    match mode {
        Mode::Ddns => {
            v.push(String::from_str("sample"));
            v.push(String::from_str("barcode"));
            v.push(String::from_str("IsQCRetest"));
            v.push(String::from_str("IfRetestOriginalRun"));
            v.push(String::from_str("EPID"));
            v.push(String::from_str("SampleType"));
            v.push(String::from_str("CaseOrContact"));
            v.push(String::from_str("Country"));
            v.push(String::from_str("Province"));
            v.push(String::from_str("District"));
            v.push(String::from_str("StoolCondition"));
            v.push(String::from_str("SpecimenNumber"));
            v.push(String::from_str("SameAliquot"));
            v.push(String::from_str("DateOfOnset"));
            v.push(String::from_str("DateStoolCollected"));
            v.push(String::from_str("DateStoolReceivedinLab"));
            v.push(String::from_str("DateStoolsuspension"));
            v.push(String::from_str("DateRNAextraction"));
            v.push(String::from_str("DateRTPCR"));
            v.push(String::from_str("RTPCRMachine"));
            v.push(String::from_str("RTPCRprimers"));
            v.push(String::from_str("DateVP1PCR"));
            v.push(String::from_str("VP1PCRMachine"));
            v.push(String::from_str("VP1primers"));
            v.push(String::from_str("PositiveControlPCRCheck"));
            v.push(String::from_str("NegativeControlPCRCheck"));
            v.push(String::from_str("LibraryPreparationKit"));
            v.push(String::from_str("Well"));
            v.push(String::from_str("RunNumber"));
            v.push(String::from_str("DateSeqRunLoaded"));
            v.push(String::from_str("SequencerUsed"));
            v.push(String::from_str("FlowCellVersion"));
            v.push(String::from_str("FlowCellID"));
            v.push(String::from_str("FlowCellPriorUses"));
            v.push(String::from_str("PoresAvilableAtFlowCellCheck"));
            v.push(String::from_str("MinKNOWSoftwareVersion"));
            v.push(String::from_str("RunHoursDuration"));
            v.push(String::from_str("DateFastaGenerated"));
            v.push(String::from_str("AnalysisPipelineVersion"));
            v.push(String::from_str("RunQC"));
            v.push(String::from_str("DDNSclassification"));
            v.push(String::from_str("SampleQC"));
            v.push(String::from_str("SampleQCChecksComplete"));
            v.push(String::from_str("QCComments"));
            v.push(String::from_str("DateReported"));
        },
        Mode::MinIon => {
            v.push(String::from_str("sample"));
            v.push(String::from_str("barcode"));
            v.push(String::from_str("IsQCRetest"));
            v.push(String::from_str("IfRetestOriginalRun"));
            v.push(String::from_str("institute"));
            v.push(String::from_str("EPID"));
            v.push(String::from_str("CaseOrContact"));
            v.push(String::from_str("CountryOfSampleOrigin"));
            v.push(String::from_str("SpecimenNumber"));
            v.push(String::from_str("DateOfOnset"));
            v.push(String::from_str("DateStoolCollected"));
            v.push(String::from_str("DateStoolReceivedinLab"));
            v.push(String::from_str("DateStoolsuspension"));
            v.push(String::from_str("DateFinalCultureResult"));
            v.push(String::from_str("FlaskNumber"));
            v.push(String::from_str("FinalCellCultureResult"));
            v.push(String::from_str("DateFinalITDresult"));
            v.push(String::from_str("ITDResult"));
            v.push(String::from_str("ITDMixture"));
            v.push(String::from_str("DateSangerResultGenerated"));
            v.push(String::from_str("SangerSequenceID"));
            v.push(String::from_str("SequencingLab"));
            v.push(String::from_str("DelaysInProcessingForSequencing"));
            v.push(String::from_str("DetailsOfDelays"));
            v.push(String::from_str("IsclassificationQCRetest"));
            v.push(String::from_str("RTPCRcomments"));
            v.push(String::from_str("DateRNAExtraction"));
            v.push(String::from_str("DateRTPCR"));
            v.push(String::from_str("PositiveControlPCRCheck"));
            v.push(String::from_str("NegativeControlPCRheck"));
            v.push(String::from_str("LibraryPreparationKit"));
            v.push(String::from_str("RunNumber"));
            v.push(String::from_str("DateSeqRunLoaded"));
            v.push(String::from_str("FlowCellID"));
            v.push(String::from_str("FlowCellPriorUses"));
            v.push(String::from_str("PoresAvilableAtFlowCellCheck"));
            v.push(String::from_str("MinKNOWSoftwareVersion"));
            v.push(String::from_str("RunHoursDuration"));
            v.push(String::from_str("DateFastaGenerated"));
            v.push(String::from_str("AnalysisPipelineVersion"));
            v.push(String::from_str("RunQC"));
            v.push(String::from_str("IsolateClassification"));
            v.push(String::from_str("SampleQC"));
            v.push(String::from_str("SampleQCChecksComplete"));
            v.push(String::from_str("QCComments"));
            v.push(String::from_str("DateReported"));
        },
    }
    assert(strings_view(v@) =~= required_columns(mode));
    v
}

/// The epi-info renames of the minION schema, as (old, new) pairs.
pub fn rename_pairs() -> (r: Vec<(String, String)>)
    ensures
        r@.len() == minion_renames().len(),
        forall|k: int| 0 <= k < r@.len() ==> (#[trigger] r@[k]).0@ == minion_renames()[k].0 && r@[k].1@ == minion_renames()[k].1,
{
    let mut v: Vec<(String, String)> = Vec::new();
    v.push((String::from_str("DateFinalCellCultureResults"), String::from_str("DateFinalCultureResult")));
    v.push((String::from_str("DateFinalrRTPCRResults"), String::from_str("DateFinalITDresult")));
    v.push((String::from_str("FinalITDResult"), String::from_str("ITDResult")));
    v.push((String::from_str("SequenceName"), String::from_str("SangerSequenceID")));
    v.push((String::from_str("DateSeqResult"), String::from_str("DateSangerResultGenerated")));
    v
}

/// Succeeds exactly when the table has every required column of `mode`;
/// otherwise names every missing column, in schema order.
pub fn check_columns(t: &Table, mode: Mode) -> (r: Result<(), PipelineError>)
    requires
        t@.wf(),
    ensures
        r is Ok <==> forall|k: int| 0 <= k < required_columns(mode).len() ==> t@.has(#[trigger] required_columns(mode)[k]),
        r matches Err(e) ==> (e matches PipelineError::MissingColumns { mode: m, columns } && m == mode
            && strings_view(columns@) == t@.missing(required_columns(mode))),
{
    let names = schema_columns(mode);
    let missing = t.missing(&names);
    proof {
        nothing_missing_iff_superset(t@, required_columns(mode));
    }
    if missing.len() == 0 {
        Ok(())
    } else {
        Err(PipelineError::MissingColumns { mode, columns: missing })
    }
}

/// Validates the table against `mode` and reshapes it to exactly the
/// required columns, in schema order, dropping any others.
pub fn project(t: &Table, mode: Mode) -> (r: Result<Table, PipelineError>)
    requires
        t@.wf(),
    ensures
        r is Ok <==> forall|k: int| 0 <= k < required_columns(mode).len() ==> t@.has(#[trigger] required_columns(mode)[k]),
        r matches Ok(p) ==> p@ == t@.selected(required_columns(mode))
            && forall|q: int| 0 <= q < p@.columns.len() ==> #[trigger] p@.columns[q].cells.len() == p@.height,
        r matches Err(e) ==> (e matches PipelineError::MissingColumns { mode: m, columns } && m == mode
            && strings_view(columns@) == t@.missing(required_columns(mode))),
{
    match check_columns(t, mode) {
        Ok(()) => {
            let names = schema_columns(mode);
            assert forall|k: int| 0 <= k < names@.len() implies t@.has(#[trigger] names@[k]@) by {
                assert(strings_view(names@)[k] == names@[k]@);
            }
            Ok(t.select(&names))
        },
        Err(e) => Err(e),
    }
}

/// Validating succeeds exactly when the table's columns include every
/// required column of the mode.
pub proof fn validation_iff_superset(t: TableView, mode: Mode)
    ensures
        t.missing(required_columns(mode)).len() == 0 <==> forall|k: int|
            0 <= k < required_columns(mode).len() ==> t.has(#[trigger] required_columns(mode)[k]),
{
    nothing_missing_iff_superset(t, required_columns(mode));
}

/// Projecting a table that already has exactly the schema's columns, in
/// schema order, changes nothing.
pub proof fn projecting_shaped_table_is_noop(t: TableView, mode: Mode)
    requires
        t.wf(),
        t.names() == required_columns(mode),
    ensures
        t.selected(required_columns(mode)) == t,
{
    crate::table::select_own_columns_is_identity(t, required_columns(mode));
}

} // verus!
