//! The ways a merge can fail.

use vstd::prelude::*;
use vstd::string::StringExecFns;
use crate::schema::Mode;
use crate::table::strings_view;
use crate::text::{join, joined};

verus! {

/// Why a merge stopped; nothing is written when one of these comes back.
#[derive(Debug)]
pub enum PipelineError {
    /// A required input or destination was not supplied.
    InputMissing(String),
    /// An input file does not carry the extension its kind needs.
    InvalidExtension(String),
    /// A file could not be opened, read or created.
    Io(String),
    /// Delimited content could not be parsed.
    Parse(String),
    /// The table lacks required columns of the active schema; every missing
    /// name is listed, in schema order.
    MissingColumns { mode: Mode, columns: Vec<String> },
    /// Operator-entered values failed their format checks; one entry per
    /// problem, all reported at once.
    Format(Vec<String>),
    /// The join could not run; both tables' column names are listed.
    Merge { sample_columns: Vec<String>, epi_columns: Vec<String> },
    /// The output could not be written.
    Write(String),
}

pub open spec fn mode_name(m: Mode) -> Seq<char> {
    match m {
        Mode::Ddns => "DDNS"@,
        Mode::MinIon => "minION"@,
    }
}

impl Mode {
    /// The name the operator knows the mode by.
    pub fn name(&self) -> (r: String)
        ensures
            r@ == mode_name(*self),
    {
        match self {
            Mode::Ddns => String::from_str("DDNS"),
            Mode::MinIon => String::from_str("minION"),
        }
    }
}

impl PipelineError {
    pub open spec fn title_spec(&self) -> Seq<char> {
        match self {
            PipelineError::InputMissing(_) => "Input Missing"@,
            PipelineError::InvalidExtension(_) => "Invalid Input"@,
            PipelineError::Io(_) => "File Read Error"@,
            PipelineError::Parse(_) => "CSV Read Error"@,
            PipelineError::MissingColumns { .. } => "Missing Columns"@,
            PipelineError::Format(_) => "Input Format Error"@,
            PipelineError::Merge { .. } => "Merge Error"@,
            PipelineError::Write(_) => "CSV Write Error"@,
        }
    }

    pub open spec fn message_spec(&self) -> Seq<char> {
        match self {
            PipelineError::InputMissing(m) => m@,
            PipelineError::InvalidExtension(m) => m@,
            PipelineError::Io(m) => m@,
            PipelineError::Parse(m) => m@,
            PipelineError::MissingColumns { mode, columns } => "These columns were missing from the samples file for "@
                + mode_name(*mode) + ": "@ + joined(strings_view(columns@), ", "@)
                + "\n\nPlease ensure you are using the correct samples.csv template"@,
            PipelineError::Format(v) => joined(strings_view(v@), "\n\n"@)
                + "\n\nRefer to the Guide for more information."@,
            PipelineError::Merge { sample_columns, epi_columns } => "Failed to merge the tables. Sample columns: "@
                + joined(strings_view(sample_columns@), ", "@) + "; Epi Info columns: "@ + joined(
                strings_view(epi_columns@),
                ", "@,
            ),
            PipelineError::Write(m) => m@,
        }
    }

    /// The heading under which the error is shown.
    pub fn title(&self) -> (r: String)
        ensures
            r@ == self.title_spec(),
    {
        match self {
            PipelineError::InputMissing(_) => String::from_str("Input Missing"),
            PipelineError::InvalidExtension(_) => String::from_str("Invalid Input"),
            PipelineError::Io(_) => String::from_str("File Read Error"),
            PipelineError::Parse(_) => String::from_str("CSV Read Error"),
            PipelineError::MissingColumns { .. } => String::from_str("Missing Columns"),
            PipelineError::Format(_) => String::from_str("Input Format Error"),
            PipelineError::Merge { .. } => String::from_str("Merge Error"),
            PipelineError::Write(_) => String::from_str("CSV Write Error"),
        }
    }

    /// The text shown to the operator.
    pub fn message(&self) -> (r: String)
        ensures
            r@ == self.message_spec(),
    {
        match self {
            PipelineError::InputMissing(m) => m.clone(),
            PipelineError::InvalidExtension(m) => m.clone(),
            PipelineError::Io(m) => m.clone(),
            PipelineError::Parse(m) => m.clone(),
            PipelineError::MissingColumns { mode, columns } => String::from_str(
                "These columns were missing from the samples file for ",
            ).concat(mode.name().as_str()).concat(": ").concat(join(columns, ", ").as_str()).concat(
                "\n\nPlease ensure you are using the correct samples.csv template",
            ),
            PipelineError::Format(v) => join(v, "\n\n").concat("\n\nRefer to the Guide for more information."),
            PipelineError::Merge { sample_columns, epi_columns } => String::from_str(
                "Failed to merge the tables. Sample columns: ",
            ).concat(join(sample_columns, ", ").as_str()).concat("; Epi Info columns: ").concat(
                join(epi_columns, ", ").as_str(),
            ),
            PipelineError::Write(m) => m.clone(),
        }
    }
}

} // verus!
