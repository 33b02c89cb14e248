//! Loads a delimited text into an all-string table: the separator is
//! sniffed, the header line names the columns, and polars parses the rows
//! with every column typed as a string.

use vstd::prelude::*;
use vstd::string::StringExecFns;
use crate::delimiter::{detect_delimiter, sniffed};
use crate::error::PipelineError;
use crate::table::{Column, ColumnView, Table, TableView, strings_view};
use crate::text::{chars_of, string_from_chars, sub_chars};
use crate::report::opt_view;
use polars::prelude::{Column as FrameColumn, CsvParseOptions, CsvReadOptions, DataFrame, DataType, PlSmallStr, Schema, SerReader};

verus! {

broadcast use vstd::seq_lib::group_seq_properties;

/// The pieces of `s` between occurrences of `c` (one piece when `c` does not
/// occur).
pub open spec fn split_spec(s: Seq<char>, c: char) -> Seq<Seq<char>>
    decreases s.len(),
{
    if s.len() == 0 {
        seq![Seq::empty()]
    } else {
        let p = split_spec(s.drop_last(), c);
        if s.last() == c {
            p.push(Seq::empty())
        } else {
            p.update(p.len() - 1, p.last().push(s.last()))
        }
    }
}

proof fn lemma_split_nonempty(s: Seq<char>, c: char)
    ensures
        split_spec(s, c).len() >= 1,
    decreases s.len(),
{
    if s.len() > 0 {
        lemma_split_nonempty(s.drop_last(), c);
    }
}

/// The first line of a text, without its line ending; `None` for an empty
/// text.
pub open spec fn header_line(s: Seq<char>) -> Option<Seq<char>> {
    if s.len() == 0 {
        None
    } else {
        let parts = split_spec(s, '\n');
        let l = parts[0];
        Some(
            if parts.len() > 1 && l.len() > 0 && l.last() == '\r' {
                l.drop_last()
            } else {
                l
            },
        )
    }
}

/// The separator byte as a character.
pub open spec fn delim_char(d: u8) -> char {
    if d == 59u8 {
        ';'
    } else if d == 9u8 {
        '\t'
    } else {
        ','
    }
}

/// Splits `s` at each `c`.
pub fn split_chars(s: &Vec<char>, c: char) -> (r: Vec<String>)
    ensures
        strings_view(r@) == split_spec(s@, c),
{
    let mut done: Vec<String> = Vec::new();
    let mut cur: Vec<char> = Vec::new();
    assert(s@.subrange(0, 0) =~= Seq::<char>::empty());
    assert(strings_view(done@).push(cur@) =~= seq![Seq::<char>::empty()]);
    for i in 0..s.len()
        invariant
            strings_view(done@).push(cur@) == split_spec(s@.subrange(0, i as int), c),
    {
        let ghost pre = s@.subrange(0, i as int);
        let ghost before = strings_view(done@);
        let ghost old_cur = cur@;
        assert(s@.subrange(0, i + 1).drop_last() =~= pre);
        assert(s@.subrange(0, i + 1).last() == s@[i as int]);
        if s[i] == c {
            done.push(string_from_chars(cur.as_slice()));
            cur = Vec::new();
            assert(strings_view(done@).push(cur@) =~= before.push(old_cur).push(Seq::empty()));
        } else {
            cur.push(s[i]);
            assert(strings_view(done@).push(cur@) =~= before.push(old_cur).update(
                before.len() as int,
                old_cur.push(s@[i as int]),
            ));
        }
    }
    assert(s@.subrange(0, s@.len() as int) =~= s@);
    let ghost before = strings_view(done@);
    done.push(string_from_chars(cur.as_slice()));
    assert(strings_view(done@) =~= before.push(cur@));
    done
}

/// What polars reads from a delimited text when every column is typed as a
/// string and named by `headers`: (name, cells) per column, `None` for a
/// missing value; `None` where it cannot read the text.
pub uninterp spec fn delimited_columns(
    content: Seq<char>,
    headers: Seq<Seq<char>>,
    delim: u8,
    decimal_comma: bool,
) -> Option<Seq<(Seq<char>, Seq<Option<Seq<char>>>)>>;

pub open spec fn raw_view(v: Seq<(String, Vec<Option<String>>)>) -> Seq<(Seq<char>, Seq<Option<Seq<char>>>)> {
    v.map_values(|p: (String, Vec<Option<String>>)| (p.0@, p.1@.map_values(|o: Option<String>| opt_view(o))))
}

/// A parsed polars frame, held opaque (Verus does not take polars'
/// `DataFrame` as a declared type).
#[verifier::external_body]
pub struct Frame {
    df: DataFrame,
}

/// The columns of a frame as (name, cells), `None` for a missing value; a
/// column that is not of string type shows no cells.
pub uninterp spec fn frame_contents(f: Frame) -> Seq<(Seq<char>, Seq<Option<Seq<char>>>)>;

/// Relies on polars' CSV reader (CsvReadOptions with a header, the given
/// all-string schema, the separator, ragged lines truncated or padded and
/// the decimal-comma switch).
#[verifier::external_body]
fn read_frame(content: &str, headers: &Vec<String>, delim: u8, decimal_comma: bool) -> (r: Result<Frame, String>)
    ensures
        match r {
            Ok(df) => delimited_columns(content@, strings_view(headers@), delim, decimal_comma) == Some(frame_contents(df)),
            Err(_) => delimited_columns(content@, strings_view(headers@), delim, decimal_comma) is None,
        },
{
    let schema: Schema = headers.iter().map(|h| (PlSmallStr::from_str(h), DataType::String)).collect();
    let parse = CsvParseOptions::default().with_separator(delim).with_truncate_ragged_lines(true).with_decimal_comma(decimal_comma);
    CsvReadOptions::default().with_has_header(true).with_schema(Some(std::sync::Arc::new(schema))).with_parse_options(parse)
        .into_reader_with_file_handle(std::io::Cursor::new(content.as_bytes().to_vec()))
        .finish().map(|df| Frame { df }).map_err(|e| e.to_string())
}

/// Relies on polars' DataFrame::get_columns, Column::name and Column::str:
/// each column's name and string cells, in order.
#[verifier::external_body]
fn frame_columns(f: &Frame) -> (r: Vec<(String, Vec<Option<String>>)>)
    ensures
        raw_view(r@) == frame_contents(*f),
{
    let cells = |c: &FrameColumn| c.str().map(|s| s.into_iter().map(|o| o.map(String::from)).collect()).unwrap_or_default();
    f.df.get_columns().iter().map(|c| (c.name().to_string(), cells(c))).collect()
}

/// A missing value becomes the empty string.
pub open spec fn cell_of(o: Option<Seq<char>>) -> Seq<char> {
    match o {
        Some(s) => s,
        None => Seq::empty(),
    }
}

pub open spec fn column_of(p: (Seq<char>, Seq<Option<Seq<char>>>)) -> ColumnView {
    ColumnView { name: p.0, cells: p.1.map_values(|o: Option<Seq<char>>| cell_of(o)) }
}

/// The table that parsed columns make.
pub open spec fn table_of(cols: Seq<(Seq<char>, Seq<Option<Seq<char>>>)>) -> TableView {
    TableView {
        height: if cols.len() == 0 {
            0
        } else {
            cols[0].1.len()
        },
        columns: cols.map_values(|p: (Seq<char>, Seq<Option<Seq<char>>>)| column_of(p)),
    }
}

/// The table that parsed columns make, where their names are distinct and
/// their lengths equal.
pub fn table_from_columns(cols: Vec<(String, Vec<Option<String>>)>) -> (r: Option<Table>)
    ensures
        r is Some <==> table_of(raw_view(cols@)).wf(),
        r matches Some(t) ==> t@ == table_of(raw_view(cols@)),
{
    let ghost target = table_of(raw_view(cols@));
    let height: usize = if cols.len() == 0 {
        0
    } else {
        cols[0].1.len()
    };
    let mut out: Vec<Column> = Vec::new();
    for j in 0..cols.len()
        invariant
            target == table_of(raw_view(cols@)),
            height as nat == target.height,
            out@.len() == j,
            forall|q: int| 0 <= q < j ==> (#[trigger] out@[q])@ == target.columns[q],
            forall|q: int| 0 <= q < j ==> (#[trigger] target.columns[q]).cells.len() == height,
            forall|a: int, b: int| 0 <= a < b < j ==> (#[trigger] target.columns[a]).name != (
            #[trigger] target.columns[b]).name,
    {
        let (name, raw) = &cols[j];
        assert(target.columns[j as int].cells.len() == raw@.len());
        assert(target.columns[j as int].name == name@);
        if raw.len() != height {
            assert(!target.wf());
            return None;
        }
        for q in 0..j
            invariant
                target == table_of(raw_view(cols@)),
                out@.len() == j,
                j < cols@.len(),
                name@ == target.columns[j as int].name,
                forall|p: int| 0 <= p < j ==> (#[trigger] out@[p])@ == target.columns[p],
                forall|p: int| 0 <= p < q ==> target.columns[p].name != name@,
        {
            if out[q].name == *name {
                assert(target.columns[q as int].name == target.columns[j as int].name);
                assert(!target.wf());
                return None;
            }
        }
        let mut cells: Vec<String> = Vec::new();
        for i in 0..raw.len()
            invariant
                cells@.len() == i,
                forall|p: int| 0 <= p < i ==> (#[trigger] cells@[p])@ == cell_of(opt_view(raw@[p])),
        {
            match &raw[i] {
                Some(v) => cells.push(v.clone()),
                None => cells.push(String::new()),
            }
        }
        let c = Column { name: name.clone(), cells };
        assert(c@.cells =~= target.columns[j as int].cells);
        out.push(c);
    }
    let t = Table { height, columns: out };
    assert(t@.columns =~= target.columns);
    Some(t)
}

/// What loading a delimited text gives: `None` for an empty text, for text
/// that polars cannot read, or for columns that do not form a table.
pub open spec fn load_spec(content: Seq<char>) -> Option<TableView> {
    match header_line(content) {
        None => None,
        Some(h) => {
            let d = sniffed(content);
            match delimited_columns(content, split_spec(h, delim_char(d)), d, d == 59u8) {
                Some(cols) => if table_of(cols).wf() {
                    Some(table_of(cols))
                } else {
                    None
                },
                None => None,
            }
        },
    }
}

/// Loads a delimited text; `source` names it in error messages. The
/// separator is sniffed, the header line is split on it, and, with `;`
/// as separator, a comma in a number is read as its decimal mark.
pub fn load_table(content: &str, source: &str) -> (r: Result<Table, PipelineError>)
    ensures
        r is Ok <==> load_spec(content@) is Some,
        r matches Ok(t) ==> load_spec(content@) == Some(t@) && t@.wf(),
        r matches Err(e) ==> e is Parse,
{
    let cs = chars_of(content);
    if cs.len() == 0 {
        let m = String::from_str("CSV file '").concat(source).concat("' appears to be empty");
        return Err(PipelineError::Parse(m));
    }
    let lines = split_chars(&cs, '\n');
    proof {
        lemma_split_nonempty(cs@, '\n');
    }
    let first = chars_of(lines[0].as_str());
    let line = if lines.len() > 1 && first.len() > 0 && first[first.len() - 1] == '\r' {
        sub_chars(&first, 0, first.len() - 1)
    } else {
        first
    };
    assert(line@ =~= header_line(content@)->0);
    let d = detect_delimiter(content);
    let dc: char = if d == 59u8 {
        ';'
    } else if d == 9u8 {
        '\t'
    } else {
        ','
    };
    let headers = split_chars(&line, dc);
    match read_frame(content, &headers, d, d == 59u8) {
        Ok(df) => match table_from_columns(frame_columns(&df)) {
            Some(t) => Ok(t),
            None => {
                let m = String::from_str("Failed to read CSV '").concat(source).concat(
                    "': columns of unequal length or repeated names",
                );
                Err(PipelineError::Parse(m))
            },
        },
        Err(e) => {
            let m = String::from_str("Failed to read CSV '").concat(source).concat("': ").concat(e.as_str());
            Err(PipelineError::Parse(m))
        },
    }
}

} // verus!
