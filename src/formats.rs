//! Format checks on operator-entered run numbers and dates, reported all at
//! once.

use vstd::prelude::*;
use vstd::string::StringExecFns;
use crate::error::PipelineError;
use crate::fill::OperatorInputs;
use crate::schema::Mode;
use crate::table::strings_view;

verus! {

broadcast use vstd::seq_lib::group_seq_properties;

/// What `regex` makes of `pattern` and `text`: `None` where the pattern does
/// not compile, else whether the text matches it.
pub uninterp spec fn regex_match_result(pattern: Seq<char>, text: Seq<char>) -> Option<bool>;

/// Relies on regex::Regex::new, which fails on a pattern it cannot compile,
/// and on Regex::is_match, which tells whether the text holds a match.
#[verifier::external_body]
fn regex_matches(pattern: &str, text: &str) -> (r: Option<bool>)
    ensures
        r == regex_match_result(pattern@, text@),
{
    match regex::Regex::new(pattern) {
        Ok(re) => Some(re.is_match(text)),
        Err(_) => None,
    }
}

/// A run number is eight digits, an underscore and three digits.
pub open spec fn run_number_pattern() -> Seq<char> {
    "^\\d{8}_\\d{3}$"@
}

/// A date is written `yyyy-mm-dd`.
pub open spec fn date_pattern() -> Seq<char> {
    "^\\d{4}-\\d{2}-\\d{2}$"@
}

/// An empty value passes; any other must match `pattern`.
pub open spec fn passes(pattern: Seq<char>, value: Seq<char>) -> bool {
    value.len() == 0 || regex_match_result(pattern, value) == Some(true)
}

/// The date fields that `mode` checks, as (label, value).
pub open spec fn date_fields_spec(i: &OperatorInputs, mode: Mode) -> Seq<(Seq<char>, Seq<char>)> {
    match mode {
        Mode::MinIon => seq![
            ("RT PCR Date"@, i.rt_date@),
            ("Sequencing Date"@, i.seq_date@),
            ("Fasta Generation Date"@, i.fasta_date@),
        ],
        Mode::Ddns => seq![
            ("RT PCR Date"@, i.rt_date@),
            ("VP1 PCR Date"@, i.vp1_date@),
            ("Sequencing Date"@, i.seq_date@),
            ("Fasta Generation Date"@, i.fasta_date@),
        ],
    }
}

/// A checked field: its label, its value and whether it passed.
pub struct FieldCheck {
    pub label: String,
    pub value: String,
    pub passed: bool,
}

pub open spec fn check_view(c: FieldCheck) -> (Seq<char>, Seq<char>, bool) {
    (c.label@, c.value@, c.passed)
}

pub open spec fn date_message(label: Seq<char>, value: Seq<char>) -> Seq<char> {
    "Invalid date format for field "@ + label + ": "@ + value
}

pub open spec fn run_message(run: Seq<char>) -> Seq<char> {
    "Invalid run number format: "@ + run + " \nExpected yyyymmdd_xxx."@
}

pub open spec fn date_problem(d: (Seq<char>, Seq<char>, bool)) -> Seq<char> {
    date_message(d.0, d.1)
}

pub open spec fn failed_check(d: (Seq<char>, Seq<char>, bool)) -> bool {
    !d.2
}

/// Every failed date, then a reminder of the date form if any date failed,
/// then the run number if it failed.
pub open spec fn problems_spec(
    run: Seq<char>,
    run_passed: bool,
    dates: Seq<(Seq<char>, Seq<char>, bool)>,
) -> Seq<Seq<char>> {
    let bad = dates.filter(|d: (Seq<char>, Seq<char>, bool)| failed_check(d)).map_values(
        |d: (Seq<char>, Seq<char>, bool)| date_problem(d),
    );
    let bad = if bad.len() > 0 {
        bad.push("Expected yyyy-mm-dd."@)
    } else {
        bad
    };
    if run_passed {
        bad
    } else {
        bad.push(run_message(run))
    }
}

/// The problems to report, from checks already made.
pub fn format_problems(run_number: &String, run_passed: bool, dates: &Vec<FieldCheck>) -> (r: Vec<String>)
    ensures
        strings_view(r@) == problems_spec(run_number@, run_passed, dates@.map_values(|c: FieldCheck| check_view(c))),
{
    let ghost ds = dates@.map_values(|c: FieldCheck| check_view(c));
    let ghost pred = |d: (Seq<char>, Seq<char>, bool)| failed_check(d);
    let ghost f = |d: (Seq<char>, Seq<char>, bool)| date_problem(d);
    let mut out: Vec<String> = Vec::new();
    for k in 0..dates.len()
        invariant
            ds == dates@.map_values(|c: FieldCheck| check_view(c)),
            pred == (|d: (Seq<char>, Seq<char>, bool)| failed_check(d)),
            f == (|d: (Seq<char>, Seq<char>, bool)| date_problem(d)),
            strings_view(out@) == ds.subrange(0, k as int).filter(pred).map_values(f),
    {
        let ghost before = out@;
        assert(ds.subrange(0, k + 1) =~= ds.subrange(0, k as int).push(ds[k as int]));
        proof {
            ds.subrange(0, k as int).lemma_filter_push(ds[k as int], pred);
        }
        if !dates[k].passed {
            let m = String::from_str("Invalid date format for field ").concat(dates[k].label.as_str()).concat(
                ": ",
            ).concat(dates[k].value.as_str());
            out.push(m);
            assert(strings_view(out@) =~= strings_view(before).push(f(ds[k as int])));
        }
    }
    assert(ds.subrange(0, ds.len() as int) =~= ds);
    if out.len() > 0 {
        let ghost before = out@;
        out.push(String::from_str("Expected yyyy-mm-dd."));
        assert(strings_view(out@) =~= strings_view(before).push("Expected yyyy-mm-dd."@));
    }
    if !run_passed {
        let ghost before = out@;
        out.push(
            String::from_str("Invalid run number format: ").concat(run_number.as_str()).concat(
                " \nExpected yyyymmdd_xxx.",
            ),
        );
        assert(strings_view(out@) =~= strings_view(before).push(run_message(run_number@)));
    }
    out
}

/// Checks `value` against `pattern`; an empty value passes.
fn check_value(pattern: &str, value: &String) -> (r: bool)
    ensures
        r == passes(pattern@, value@),
{
    if value.as_str().is_empty() {
        true
    } else {
        match regex_matches(pattern, value.as_str()) {
            Some(b) => b,
            None => false,
        }
    }
}

fn date_check(label: &str, value: &String) -> (r: FieldCheck)
    ensures
        check_view(r) == (label@, value@, passes(date_pattern(), value@)),
{
    FieldCheck {
        label: String::from_str(label),
        value: value.clone(),
        passed: check_value("^\\d{4}-\\d{2}-\\d{2}$", value),
    }
}

/// The date checks that `mode` makes, each against the `yyyy-mm-dd` form.
pub open spec fn date_checks_spec(i: &OperatorInputs, mode: Mode) -> Seq<(Seq<char>, Seq<char>, bool)> {
    date_fields_spec(i, mode).map_values(
        |d: (Seq<char>, Seq<char>)| (d.0, d.1, passes(date_pattern(), d.1)),
    )
}

/// Checks the run number and the dates of `mode`. Succeeds exactly when
/// there is nothing to report; otherwise every problem comes back at once.
pub fn check_formats(i: &OperatorInputs, mode: Mode) -> (r: Result<(), PipelineError>)
    ensures
        ({
            let problems = problems_spec(
                i.run_number@,
                passes(run_number_pattern(), i.run_number@),
                date_checks_spec(i, mode),
            );
            &&& (r is Ok <==> problems.len() == 0)
            &&& (r matches Err(e) ==> (e matches PipelineError::Format(v) && strings_view(v@) == problems))
        }),
{
    let run_passed = check_value("^\\d{8}_\\d{3}$", &i.run_number);
    let mut dates: Vec<FieldCheck> = Vec::new();
    dates.push(date_check("RT PCR Date", &i.rt_date));
    if mode == Mode::Ddns {
        dates.push(date_check("VP1 PCR Date", &i.vp1_date));
    }
    dates.push(date_check("Sequencing Date", &i.seq_date));
    dates.push(date_check("Fasta Generation Date", &i.fasta_date));
    assert(dates@.map_values(|c: FieldCheck| check_view(c)) =~= date_checks_spec(i, mode));
    let problems = format_problems(&i.run_number, run_passed, &dates);
    if problems.len() == 0 {
        Ok(())
    } else {
        Err(PipelineError::Format(problems))
    }
}

} // verus!
