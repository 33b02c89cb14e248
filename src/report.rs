//! Run metadata from the sequencer's HTML run report, which embeds its data
//! as `const reportData=<JSON>;` in a script element. Extraction is
//! best-effort: every field defaults on its own and nothing here fails.

use vstd::prelude::*;
use vstd::string::StringExecFns;
use crate::table::{first_index, lemma_first_index_found, strings_view};
use crate::text::{lemma_find_some, sub_chars, before_char, chars_of, find_from, find_spec, slice_string, string_from_chars, trim_range, trimmed};

verus! {

broadcast use vstd::seq_lib::group_seq_properties;

/// A JSON value, with numbers kept as the `i64` they denote (`None` for a
/// number outside `i64` or with a fraction).
#[derive(Debug)]
pub enum Json {
    Null,
    Bool(bool),
    Number(Option<i64>),
    Str(String),
    Array(Vec<Json>),
    Object(Vec<(String, Json)>),
}

#[verifier::external_type_specification]
#[verifier::external_body]
pub struct ExJsonValue(serde_json::Value);

/// Relies on serde_json's `Value` variants and on `Number::as_i64`: converts
/// a parsed value one for one, keys in the map's order. Its only caller is
/// `parse_json`, whose result it builds; it is recursive, so it stands apart.
#[verifier::external_body]
fn json_from_value(v: &serde_json::Value) -> Json {
    match v {
        serde_json::Value::Null => Json::Null,
        serde_json::Value::Bool(b) => Json::Bool(*b),
        serde_json::Value::Number(n) => Json::Number(n.as_i64()),
        serde_json::Value::String(s) => Json::Str(s.clone()),
        serde_json::Value::Array(a) => Json::Array(a.iter().map(json_from_value).collect()),
        serde_json::Value::Object(m) => Json::Object(
            m.iter().map(|(k, x)| (k.clone(), json_from_value(x))).collect(),
        ),
    }
}

/// What serde_json makes of a text: the one JSON value it holds, or `None`.
pub uninterp spec fn json_of_text(text: Seq<char>) -> Option<Json>;

/// Relies on serde_json::from_str: parses the whole text as one JSON value,
/// failing on anything else.
#[verifier::external_body]
pub(crate) fn parse_json(text: &str) -> (r: Option<Json>)
    ensures
        r == json_of_text(text@),
{
    serde_json::from_str::<serde_json::Value>(text).ok().map(|v| json_from_value(&v))
}

/// What scraper selects in an HTML document: the text content of each
/// element that `selector` picks, in document order; `None` for a selector
/// it cannot parse.
pub uninterp spec fn selected_texts(html: Seq<char>, selector: Seq<char>) -> Option<Seq<Seq<char>>>;

/// Relies on scraper::Html::parse_document, Selector::parse, Html::select
/// and ElementRef::text: the concatenated text of each selected element.
#[verifier::external_body]
fn select_texts(html: &str, selector: &str) -> (r: Option<Vec<String>>)
    ensures
        match r {
            Some(v) => selected_texts(html@, selector@) == Some(strings_view(v@)),
            None => selected_texts(html@, selector@) is None,
        },
{
    let doc = scraper::Html::parse_document(html);
    match scraper::Selector::parse(selector) {
        Ok(sel) => Some(doc.select(&sel).map(|e| e.text().collect::<String>()).collect()),
        Err(_) => None,
    }
}

/// `j`'s member `key`, where `j` is an object that has one.
pub open spec fn field_spec(j: Json, key: Seq<char>) -> Option<Json> {
    match j {
        Json::Object(ps) => match first_index(keys_of(ps@), key) {
            Some(k) => Some(ps@[k].1),
            None => None,
        },
        _ => None,
    }
}

/// The keys of an object's members, in order.
pub open spec fn keys_of(ps: Seq<(String, Json)>) -> Seq<Seq<char>> {
    ps.map_values(|p: (String, Json)| p.0@)
}

/// `field_spec` on a value that may be absent.
pub open spec fn get_spec(o: Option<Json>, key: Seq<char>) -> Option<Json> {
    match o {
        Some(j) => field_spec(j, key),
        None => None,
    }
}

/// The elements of an array, or none.
pub open spec fn elements(o: Option<Json>) -> Seq<Json> {
    match o {
        Some(Json::Array(a)) => a@,
        _ => Seq::empty(),
    }
}

/// The text of a string value.
pub open spec fn text_of(o: Option<Json>) -> Option<Seq<char>> {
    match o {
        Some(Json::Str(s)) => Some(s@),
        _ => None,
    }
}

/// An entry's `value`, or `Unknown`.
pub open spec fn entry_value(e: Json) -> Seq<char> {
    match text_of(field_spec(e, "value"@)) {
        Some(s) => s,
        None => "Unknown"@,
    }
}

pub open spec fn has_title(e: Json, title: Seq<char>) -> bool {
    text_of(field_spec(e, "title"@)) == Some(title)
}

/// The value of the last entry titled `title`.
pub open spec fn last_titled(entries: Seq<Json>, title: Seq<char>) -> Option<Seq<char>>
    decreases entries.len(),
{
    if entries.len() == 0 {
        None
    } else if has_title(entries.last(), title) {
        Some(entry_value(entries.last()))
    } else {
        last_titled(entries.drop_last(), title)
    }
}

/// The first entry whose `name` is `name`.
pub open spec fn first_named(entries: Seq<Json>, name: Seq<char>) -> Option<Json>
    decreases entries.len(),
{
    if entries.len() == 0 {
        None
    } else if text_of(field_spec(entries[0], "name"@)) == Some(name) {
        Some(entries[0])
    } else {
        first_named(entries.drop_first(), name)
    }
}

pub open spec fn digit_spec(d: nat) -> char {
    seq!['0', '1', '2', '3', '4', '5', '6', '7', '8', '9'][d as int]
}

/// The decimal digits of `n`.
pub open spec fn digits(n: nat) -> Seq<char>
    decreases n,
{
    if n < 10 {
        seq![digit_spec(n)]
    } else {
        digits(n / 10).push(digit_spec(n % 10))
    }
}

/// `n` written in decimal, with a leading `-` when negative.
pub open spec fn decimal(n: int) -> Seq<char> {
    if n < 0 {
        seq!['-'] + digits((-n) as nat)
    } else {
        digits(n as nat)
    }
}

/// Metadata of a run, each field absent where the report does not give it.
#[derive(Debug)]
pub struct RunMetadata {
    pub minknow_version: Option<String>,
    pub flow_cell_id: Option<String>,
    pub kit_type: Option<String>,
    pub run_hours: Option<String>,
    pub seq_date: Option<String>,
    pub pore_count: Option<String>,
}

pub open spec fn opt_view(o: Option<String>) -> Option<Seq<char>> {
    match o {
        Some(s) => Some(s@),
        None => None,
    }
}

/// The available-pore count: the second element of the first data pair of
/// the first `Pore available` series, as an integer.
pub open spec fn pore_count_spec(j: Json) -> Option<Seq<char>> {
    let series = elements(get_spec(field_spec(j, "pore_scan"@), "series_data"@));
    match first_named(series, "Pore available"@) {
        Some(s) => {
            let data = elements(field_spec(s, "data"@));
            if data.len() > 0 {
                let pair = elements(Some(data[0]));
                if pair.len() > 1 {
                    match pair[1] {
                        Json::Number(Some(n)) => Some(decimal(n as int)),
                        _ => None,
                    }
                } else {
                    None
                }
            } else {
                None
            }
        },
        None => None,
    }
}

/// The end date of the run: `run_end_time` up to its first `T`, or
/// `Unknown`.
pub open spec fn seq_date_spec(j: Json) -> Seq<char> {
    match text_of(field_spec(j, "run_end_time"@)) {
        Some(s) => before_char(s, 'T'),
        None => "Unknown"@,
    }
}

/// What the metadata extraction reads from a parsed report.
pub open spec fn metadata_matches(r: RunMetadata, j: Json) -> bool {
    &&& opt_view(r.minknow_version) == last_titled(elements(field_spec(j, "software_versions"@)), "MinKNOW"@)
    &&& opt_view(r.flow_cell_id) == last_titled(elements(field_spec(j, "run_setup"@)), "Flow cell ID"@)
    &&& opt_view(r.kit_type) == last_titled(elements(field_spec(j, "run_setup"@)), "Kit type"@)
    &&& opt_view(r.run_hours) == last_titled(elements(field_spec(j, "run_settings"@)), "Run limit"@)
    &&& opt_view(r.seq_date) == Some(seq_date_spec(j))
    &&& opt_view(r.pore_count) == pore_count_spec(j)
}

/// Every field absent.
pub open spec fn metadata_empty(r: RunMetadata) -> bool {
    &&& r.minknow_version is None
    &&& r.flow_cell_id is None
    &&& r.kit_type is None
    &&& r.run_hours is None
    &&& r.seq_date is None
    &&& r.pore_count is None
}

/// Member `key` of `j`.
pub fn field<'a>(j: &'a Json, key: &String) -> (r: Option<&'a Json>)
    ensures
        match r {
            Some(x) => field_spec(*j, key@) == Some(*x),
            None => field_spec(*j, key@) is None,
        },
{
    match j {
        Json::Object(ps) => {
            let ghost keys = keys_of(ps@);
            let mut k: usize = 0;
            while k < ps.len()
                invariant
                    *j == Json::Object(*ps),
                    keys == keys_of(ps@),
                    k <= ps@.len(),
                    forall|q: int| 0 <= q < k ==> keys[q] != key@,
                decreases ps@.len() - k,
            {
                if ps[k].0 == *key {
                    proof {
                        assert(keys[k as int] == key@);
                        lemma_first_index_found(keys, key@, k as int);
                        assert(first_index(keys_of(ps@), key@) == Some(k as int));
                        assert(field_spec(*j, key@) == Some(ps@[k as int].1));
                    }
                    return Some(&ps[k].1);
                }
                k = k + 1;
            }
            None
        },
        _ => None,
    }
}

pub(crate) fn member<'a>(o: Option<&'a Json>, key: &str) -> (r: Option<&'a Json>)
    ensures
        match r {
            Some(x) => get_spec(opt_deref(o), key@) == Some(*x),
            None => get_spec(opt_deref(o), key@) is None,
        },
{
    match o {
        Some(j) => field(j, &String::from_str(key)),
        None => None,
    }
}

pub open spec fn opt_deref(o: Option<&Json>) -> Option<Json> {
    match o {
        Some(j) => Some(*j),
        None => None,
    }
}

fn elements_of<'a>(o: Option<&'a Json>) -> (r: &'a [Json])
    ensures
        r@ == elements(opt_deref(o)),
{
    match o {
        Some(Json::Array(a)) => a.as_slice(),
        _ => &[],
    }
}

pub(crate) fn text_in(o: Option<&Json>) -> (r: Option<String>)
    ensures
        opt_view(r) == text_of(opt_deref(o)),
{
    match o {
        Some(Json::Str(s)) => Some(s.clone()),
        _ => None,
    }
}

/// The value of the last entry titled `title`, or `Unknown` where that
/// entry has no text value.
fn last_titled_value(entries: &[Json], title: &str) -> (r: Option<String>)
    ensures
        opt_view(r) == last_titled(entries@, title@),
{
    let mut found: Option<String> = None;
    for k in 0..entries.len()
        invariant
            opt_view(found) == last_titled(entries@.subrange(0, k as int), title@),
    {
        assert(entries@.subrange(0, k + 1).drop_last() =~= entries@.subrange(0, k as int));
        assert(entries@.subrange(0, k + 1).last() == entries@[k as int]);
        let t = text_in(member(Some(&entries[k]), "title"));
        if t.is_some() && *t.as_ref().unwrap() == String::from_str(title) {
            found = match text_in(member(Some(&entries[k]), "value")) {
                Some(v) => Some(v),
                None => Some(String::from_str("Unknown")),
            };
        }
    }
    assert(entries@.subrange(0, entries@.len() as int) =~= entries@);
    found
}

fn first_named_entry<'a>(entries: &'a [Json], name: &str) -> (r: Option<&'a Json>)
    ensures
        opt_deref(r) == first_named(entries@, name@),
{
    let mut k: usize = 0;
    assert(entries@.subrange(0, entries@.len() as int) =~= entries@);
    while k < entries.len()
        invariant
            k <= entries@.len(),
            first_named(entries@, name@) == first_named(entries@.subrange(k as int, entries@.len() as int), name@),
        decreases entries@.len() - k,
    {
        let ghost rest = entries@.subrange(k as int, entries@.len() as int);
        assert(rest.drop_first() =~= entries@.subrange(k + 1, entries@.len() as int));
        assert(rest[0] == entries@[k as int]);
        let t = text_in(member(Some(&entries[k]), "name"));
        if t.is_some() && *t.as_ref().unwrap() == String::from_str(name) {
            return Some(&entries[k]);
        }
        k = k + 1;
    }
    None
}

fn digit(d: u64) -> (c: char)
    requires
        d < 10,
    ensures
        c == digit_spec(d as nat),
{
    if d == 0 {
        '0'
    } else if d == 1 {
        '1'
    } else if d == 2 {
        '2'
    } else if d == 3 {
        '3'
    } else if d == 4 {
        '4'
    } else if d == 5 {
        '5'
    } else if d == 6 {
        '6'
    } else if d == 7 {
        '7'
    } else if d == 8 {
        '8'
    } else {
        '9'
    }
}

pub fn push_digits(n: u64, out: &mut Vec<char>)
    ensures
        final(out)@ == old(out)@ + digits(n as nat),
    decreases n,
{
    if n >= 10 {
        push_digits(n / 10, out);
    }
    out.push(digit(n % 10));
}

/// `n` in decimal.
pub fn decimal_string(n: i64) -> (r: String)
    ensures
        r@ == decimal(n as int),
{
    let mut out: Vec<char> = Vec::new();
    let magnitude: u64 = if n < 0 {
        (-(n as i128)) as u64
    } else {
        n as u64
    };
    if n < 0 {
        out.push('-');
    }
    push_digits(magnitude, &mut out);
    proof {
        if n < 0 {
            assert(out@ =~= seq!['-'] + digits((-n) as nat));
        } else {
            assert(out@ =~= digits(n as nat));
        }
    }
    string_from_chars(out.as_slice())
}

/// The available-pore count that a parsed report gives.
fn pore_count_of(j: &Json) -> (r: Option<String>)
    ensures
        opt_view(r) == pore_count_spec(*j),
{
    let series = elements_of(member(member(Some(j), "pore_scan"), "series_data"));
    match first_named_entry(series, "Pore available") {
        Some(s) => {
            let data = elements_of(member(Some(s), "data"));
            if data.len() > 0 {
                let pair = elements_of(Some(&data[0]));
                if pair.len() > 1 {
                    match &pair[1] {
                        Json::Number(Some(n)) => Some(decimal_string(*n)),
                        _ => None,
                    }
                } else {
                    None
                }
            } else {
                None
            }
        },
        None => None,
    }
}

/// The characters of `s` before its first `c`, or all of them.
fn up_to_char(s: &String, c: char) -> (r: String)
    ensures
        r@ == before_char(s@, c),
{
    let cs = chars_of(s.as_str());
    let mut needle: Vec<char> = Vec::new();
    needle.push(c);
    assert(needle@ =~= seq![c]);
    match find_from(&cs, &needle, 0) {
        Some(i) => slice_string(&cs, 0, i),
        None => s.clone(),
    }
}

/// Reads the run metadata out of a parsed report; each field is read on its
/// own and is absent where its entries are.
pub fn metadata_from_json(j: &Json) -> (r: RunMetadata)
    ensures
        metadata_matches(r, *j),
{
    let versions = elements_of(member(Some(j), "software_versions"));
    let setup = elements_of(member(Some(j), "run_setup"));
    let settings = elements_of(member(Some(j), "run_settings"));
    let seq_date = match text_in(member(Some(j), "run_end_time")) {
        Some(s) => up_to_char(&s, 'T'),
        None => String::from_str("Unknown"),
    };
    RunMetadata {
        minknow_version: last_titled_value(versions, "MinKNOW"),
        flow_cell_id: last_titled_value(setup, "Flow cell ID"),
        kit_type: last_titled_value(setup, "Kit type"),
        run_hours: last_titled_value(settings, "Run limit"),
        seq_date: Some(seq_date),
        pore_count: pore_count_of(j),
    }
}

/// Marks the embedded report data in a script.
pub open spec fn report_marker() -> Seq<char> {
    "const reportData="@
}

/// The JSON text that a script embeds: what follows the first marker, up to
/// the next marker and then up to the first `;`, trimmed.
pub open spec fn payload_spec(script: Seq<char>) -> Option<Seq<char>> {
    match find_spec(script, report_marker(), 0) {
        None => None,
        Some(i) => {
            let start = i + report_marker().len();
            let end = match find_spec(script, report_marker(), start) {
                Some(e) => e,
                None => script.len() as int,
            };
            let cut = match find_spec(script.subrange(start, end), seq![';'], 0) {
                Some(c) => start + c,
                None => end,
            };
            Some(trimmed(script.subrange(start, cut)))
        },
    }
}

/// The JSON text embedded in a script, if it has the marker.
pub fn report_payload(script: &str) -> (r: Option<String>)
    ensures
        opt_view(r) == payload_spec(script@),
{
    let cs = chars_of(script);
    let marker = chars_of("const reportData=");
    let i = match find_from(&cs, &marker, 0) {
        Some(i) => i,
        None => return None,
    };
    proof {
        lemma_find_some(cs@, marker@, 0);
    }
    let total = cs.len();
    assert(i + marker@.len() <= total);
    let start = i + marker.len();
    let end = match find_from(&cs, &marker, start) {
        Some(e) => e,
        None => cs.len(),
    };
    proof {
        if end != cs.len() {
            lemma_find_some(cs@, marker@, start as int);
        }
    }
    let segment = sub_chars(&cs, start, end);
    assert(segment@ =~= cs@.subrange(start as int, end as int));
    let mut semi: Vec<char> = Vec::new();
    semi.push(';');
    assert(semi@ =~= seq![';']);
    let cut = match find_from(&segment, &semi, 0) {
        Some(c) => {
            proof {
                lemma_find_some(segment@, semi@, 0);
            }
            start + c
        },
        None => end,
    };
    assert(cs@.subrange(start as int, cut as int) =~= cs@.subrange(start as int, cut as int));
    let body = trim_range(&cs, start, cut);
    Some(string_from_chars(body.as_slice()))
}

/// The first script that holds the marker.
pub open spec fn report_script(scripts: Seq<Seq<char>>) -> Option<Seq<char>>
    decreases scripts.len(),
{
    if scripts.len() == 0 {
        None
    } else if find_spec(scripts[0], report_marker(), 0) is Some {
        Some(scripts[0])
    } else {
        report_script(scripts.drop_first())
    }
}

/// What the extractor reads from an HTML run report: the fields of the
/// first script holding the marker, where its data parses as JSON; else
/// nothing.
pub open spec fn read_from_report(r: RunMetadata, html: Seq<char>) -> bool {
    let script = match selected_texts(html, "script"@) {
        Some(ts) => report_script(ts),
        None => None,
    };
    let parsed = match script {
        Some(s) => match payload_spec(s) {
            Some(p) => json_of_text(p),
            None => None,
        },
        None => None,
    };
    match parsed {
        Some(j) => metadata_matches(r, j),
        None => metadata_empty(r),
    }
}

/// Reads the run metadata from an HTML run report. Where the report has no
/// script with the marker, or its data is not JSON, every field is absent.
pub fn extract_run_metadata(html: &str) -> (r: RunMetadata)
    ensures
        read_from_report(r, html@),
{
    let empty = RunMetadata {
        minknow_version: None,
        flow_cell_id: None,
        kit_type: None,
        run_hours: None,
        seq_date: None,
        pore_count: None,
    };
    let scripts = match select_texts(html, "script") {
        Some(v) => v,
        None => return empty,
    };
    let ghost ts = strings_view(scripts@);
    let marker = chars_of("const reportData=");
    let mut k: usize = 0;
    assert(ts.subrange(0, ts.len() as int) =~= ts);
    while k < scripts.len()
        invariant
            ts == strings_view(scripts@),
            selected_texts(html@, "script"@) == Some(ts),
            metadata_empty(empty),
            marker@ == report_marker(),
            k <= scripts@.len(),
            report_script(ts) == report_script(ts.subrange(k as int, ts.len() as int)),
        decreases scripts@.len() - k,
    {
        let ghost rest = ts.subrange(k as int, ts.len() as int);
        assert(rest.drop_first() =~= ts.subrange(k + 1, ts.len() as int));
        assert(rest[0] == scripts@[k as int]@);
        let cs = chars_of(scripts[k].as_str());
        if find_from(&cs, &marker, 0).is_some() {
            assert(report_script(rest) == Some(rest[0]));
            assert(report_script(ts) == Some(scripts@[k as int]@));
            let pl = report_payload(scripts[k].as_str());
            return match pl {
                Some(p) => {
                    let parsed = parse_json(p.as_str());
                    match parsed {
                        Some(j) => metadata_from_json(&j),
                        None => empty,
                    }
                },
                None => empty,
            };
        }
        k = k + 1;
    }
    empty
}

} // verus!
