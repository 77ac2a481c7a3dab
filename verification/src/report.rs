//! Record extraction and report formatting. Each record yields either one
//! rendered line or one diagnostic: the title is read first and the done flag
//! second, each failing the record immediately with an indexed message, while
//! the two due dates are optional; a bad record never stops the report.

use vstd::prelude::*;
use vstd::string::StringExecFns;

use crate::json::JsonValue;
use crate::json::spec_obj_get;
use crate::json::spec_step;
use crate::json::spec_step_at;
use crate::json::spec_step_bool;
use crate::json::spec_step_str;
use crate::render::push_datetime;
use crate::render::spec_render_datetime;
use crate::strutil::pad_to;
use crate::strutil::spec_dec;
use crate::strutil::spec_pad;
use crate::strutil::usize_to_string;

verus! {

/// The validated, renderable projection of one record.
#[derive(Debug)]
pub struct ReportLine {
    pub index: usize,
    pub done: bool,
    pub title: String,
    pub start: Option<String>,
    pub end: Option<String>,
}

/// The rendered lines and the per-record diagnostics, both in input order.
#[derive(Debug)]
pub struct ProcessingOutcome {
    pub lines: Vec<String>,
    pub errors: Vec<String>,
}

/// Lifts an optional reference for the spec-level path lookups.
pub open spec fn o_deref(o: Option<&JsonValue>) -> Option<JsonValue> {
    match o {
        Some(v) => Some(*v),
        None => None,
    }
}

/// The record's title: `properties.Name.title[0].plain_text`, when present
/// and a string.
pub open spec fn spec_title_of(rec: JsonValue) -> Option<Seq<char>> {
    spec_step_str(
        spec_step(
            spec_step_at(
                spec_step(spec_step(spec_step(Some(rec), "properties"@), "Name"@), "title"@),
                0,
            ),
            "plain_text"@,
        ),
    )
}

/// The record's done flag: `properties.Done.checkbox`, when present and a
/// boolean.
pub open spec fn spec_done_of(rec: JsonValue) -> Option<bool> {
    spec_step_bool(spec_step(spec_step(spec_step(Some(rec), "properties"@), "Done"@), "checkbox"@))
}

/// The record's start date: `properties.Due.date.start`, when present and a
/// string.
pub open spec fn spec_start_of(rec: JsonValue) -> Option<Seq<char>> {
    spec_step_str(
        spec_step(
            spec_step(spec_step(spec_step(Some(rec), "properties"@), "Due"@), "date"@),
            "start"@,
        ),
    )
}

/// The record's end date: `properties.Due.date.end`, when present and a
/// string.
pub open spec fn spec_end_of(rec: JsonValue) -> Option<Seq<char>> {
    spec_step_str(
        spec_step(
            spec_step(spec_step(spec_step(Some(rec), "properties"@), "Due"@), "date"@),
            "end"@,
        ),
    )
}

/// `"todo <i>: missing or invalid title"`.
pub open spec fn spec_msg_bad_title(i: nat) -> Seq<char> {
    "todo "@ + spec_dec(i) + ": missing or invalid title"@
}

/// `"todo <i>: missing or invalid 'Done' checkbox"`.
pub open spec fn spec_msg_bad_done(i: nat) -> Seq<char> {
    "todo "@ + spec_dec(i) + ": missing or invalid 'Done' checkbox"@
}

/// What extraction yields for record `rec` at position `i`: the title, done
/// flag and optional dates, or the first missing required field's message —
/// the title is checked before the done flag.
pub open spec fn spec_extract(rec: JsonValue, i: nat) -> Result<
    (Seq<char>, bool, Option<Seq<char>>, Option<Seq<char>>),
    Seq<char>,
> {
    match spec_title_of(rec) {
        None => Err(spec_msg_bad_title(i)),
        Some(t) => match spec_done_of(rec) {
            None => Err(spec_msg_bad_done(i)),
            Some(d) => Ok((t, d, spec_start_of(rec), spec_end_of(rec))),
        },
    }
}

/// One rendered report line:
/// `"[<marker>] <i>: <title padded to 35> | <start>[ ~ <end>]"`.
pub open spec fn spec_format_line(
    i: nat,
    done: bool,
    title: Seq<char>,
    start: Option<Seq<char>>,
    end: Option<Seq<char>>,
) -> Seq<char> {
    "["@ + (if done {
        "x"@
    } else {
        " "@
    }) + "] "@ + spec_dec(i) + ": "@ + spec_pad(title, 35) + " | "@ + (match start {
        Some(s) => spec_render_datetime(s),
        None => Seq::empty(),
    }) + (match end {
        Some(e) => " ~ "@ + spec_render_datetime(e),
        None => Seq::empty(),
    })
}

/// The report of the records from position `i` on: the rendered lines of the
/// good records and the diagnostics of the bad ones, each in input order.
pub open spec fn spec_report_from(records: Seq<JsonValue>, i: int) -> (Seq<Seq<char>>, Seq<
    Seq<char>,
>)
    decreases records.len() - i,
{
    if !(0 <= i < records.len()) {
        (Seq::empty(), Seq::empty())
    } else {
        let rest = spec_report_from(records, i + 1);
        match spec_extract(records[i], i as nat) {
            Ok((t, d, st, en)) => (seq![spec_format_line(i as nat, d, t, st, en)] + rest.0, rest.1),
            Err(m) => (rest.0, seq![m] + rest.1),
        }
    }
}

/// The whole report.
pub open spec fn spec_report(records: Seq<JsonValue>) -> (Seq<Seq<char>>, Seq<Seq<char>>) {
    spec_report_from(records, 0)
}

fn step<'a>(o: Option<&'a JsonValue>, key: &str) -> (r: Option<&'a JsonValue>)
    ensures
        o_deref(r) == spec_step(o_deref(o), key@),
{
    match o {
        Some(v) => v.obj_get(key),
        None => None,
    }
}

fn step_at<'a>(o: Option<&'a JsonValue>, i: usize) -> (r: Option<&'a JsonValue>)
    ensures
        o_deref(r) == spec_step_at(o_deref(o), i as int),
{
    match o {
        Some(v) => v.arr_get(i),
        None => None,
    }
}

fn step_str<'a>(o: Option<&'a JsonValue>) -> (r: Option<&'a str>)
    ensures
        match r {
            Some(s) => spec_step_str(o_deref(o)) == Some(s@),
            None => spec_step_str(o_deref(o)) is None,
        },
{
    match o {
        Some(v) => v.as_str(),
        None => None,
    }
}

fn step_bool(o: Option<&JsonValue>) -> (r: Option<bool>)
    ensures
        r == spec_step_bool(o_deref(o)),
{
    match o {
        Some(v) => v.as_bool(),
        None => None,
    }
}

fn msg_todo(i: usize, what: &str) -> (r: String)
    ensures
        r@ == "todo "@ + spec_dec(i as nat) + what@,
{
    let mut s = String::from_str("todo ");
    let num = usize_to_string(i);
    s.append(num.as_str());
    s.append(what);
    s
}

/// Pulls title, done flag and the optional dates out of one record, failing
/// on the first missing required field with a message tagged `index`.
pub fn extract(rec: &JsonValue, index: usize) -> (r: Result<ReportLine, String>)
    ensures
        match r {
            Ok(line) => line.index == index && spec_extract(*rec, index as nat) == Ok::<
                _,
                Seq<char>,
            >((line.title@, line.done, line.start.deep_view(), line.end.deep_view())),
            Err(m) => spec_extract(*rec, index as nat) == Err::<
                (Seq<char>, bool, Option<Seq<char>>, Option<Seq<char>>),
                _,
            >(m@),
        },
{
    let props = step(Some(rec), "properties");
    let title_node = step(step_at(step(step(props, "Name"), "title"), 0), "plain_text");
    let title: String = match step_str(title_node) {
        Some(t) => String::from_str(t),
        None => {
            return Err(msg_todo(index, ": missing or invalid title"));
        },
    };
    let done: bool = match step_bool(step(step(props, "Done"), "checkbox")) {
        Some(d) => d,
        None => {
            return Err(msg_todo(index, ": missing or invalid 'Done' checkbox"));
        },
    };
    let date_node = step(step(props, "Due"), "date");
    let start: Option<String> = match step_str(step(date_node, "start")) {
        Some(s) => Some(String::from_str(s)),
        None => None,
    };
    let end: Option<String> = match step_str(step(date_node, "end")) {
        Some(s) => Some(String::from_str(s)),
        None => None,
    };
    Ok(ReportLine { index, done, title, start, end })
}

/// Renders one extracted record as its report line.
pub fn format_line(line: &ReportLine) -> (r: String)
    ensures
        r@ == spec_format_line(
            line.index as nat,
            line.done,
            line.title@,
            line.start.deep_view(),
            line.end.deep_view(),
        ),
{
    let mut s = String::from_str("[");
    if line.done {
        s.append("x");
    } else {
        s.append(" ");
    }
    s.append("] ");
    let num = usize_to_string(line.index);
    s.append(num.as_str());
    s.append(": ");
    let padded = pad_to(line.title.as_str(), 35);
    s.append(padded.as_str());
    s.append(" | ");
    match &line.start {
        Some(st) => push_datetime(st.as_str(), &mut s),
        None => (),
    }
    match &line.end {
        Some(en) => {
            s.append(" ~ ");
            push_datetime(en.as_str(), &mut s);
        },
        None => (),
    }
    proof {
        assert(s@ =~= spec_format_line(
            line.index as nat,
            line.done,
            line.title@,
            line.start.deep_view(),
            line.end.deep_view(),
        ));
    }
    s
}

/// Formats every record in order: each contributes one line on success or
/// one diagnostic on failure, and a bad record never stops the report.
pub fn format_report(records: &Vec<JsonValue>) -> (out: ProcessingOutcome)
    ensures
        out.lines.deep_view() == spec_report(records@).0,
        out.errors.deep_view() == spec_report(records@).1,
        out.lines@.len() + out.errors@.len() == records@.len(),
{
    let mut lines: Vec<String> = Vec::new();
    let mut errors: Vec<String> = Vec::new();
    let n: usize = records.len();
    let mut i: usize = 0;
    proof {
        assert(lines.deep_view() + spec_report_from(records@, 0).0 =~~= spec_report(records@).0);
        assert(errors.deep_view() + spec_report_from(records@, 0).1 =~~= spec_report(records@).1);
    }
    while i < n
        invariant
            i <= n,
            n == records@.len(),
            lines.deep_view() + spec_report_from(records@, i as int).0 =~~= spec_report(
                records@,
            ).0,
            errors.deep_view() + spec_report_from(records@, i as int).1 =~~= spec_report(
                records@,
            ).1,
            lines@.len() + errors@.len() == i,
        decreases n - i,
    {
        let ghost prev_lines = lines.deep_view();
        let ghost prev_errors = errors.deep_view();
        let rec = vstd::std_specs::vec::vec_index(records, i);
        match extract(rec, i) {
            Ok(line) => {
                let rendered = format_line(&line);
                lines.push(rendered);
                proof {
                    assert(lines.deep_view() =~~= prev_lines.push(rendered@));
                    assert(lines.deep_view() + spec_report_from(records@, i + 1).0
                        =~~= spec_report(records@).0);
                }
            },
            Err(m) => {
                errors.push(m);
                proof {
                    assert(errors.deep_view() =~~= prev_errors.push(m@));
                    assert(errors.deep_view() + spec_report_from(records@, i + 1).1
                        =~~= spec_report(records@).1);
                }
            },
        }
        i = i + 1;
    }
    proof {
        assert(lines.deep_view() =~~= spec_report(records@).0);
        assert(errors.deep_view() =~~= spec_report(records@).1);
    }
    ProcessingOutcome { lines, errors }
}

/// The record array under the top-level `results` member, when it is there.
pub open spec fn spec_results_of(root: JsonValue) -> Option<Seq<JsonValue>> {
    match spec_obj_get(root, "results"@) {
        Some(JsonValue::Arr(items)) => Some(items@),
        _ => None,
    }
}

/// The fatal message for a response without a `results` array.
pub open spec fn spec_msg_no_results() -> Seq<char> {
    "expected 'results' array field which is not present in the response"@
}

/// What processing a whole response document yields: the report of its
/// `results` records, or the fatal missing-`results` message.
pub open spec fn spec_process(root: JsonValue) -> Result<
    (Seq<Seq<char>>, Seq<Seq<char>>),
    Seq<char>,
> {
    match spec_results_of(root) {
        Some(items) => Ok(spec_report(items)),
        None => Err(spec_msg_no_results()),
    }
}

/// Formats the report of a whole response document. A missing or non-array
/// `results` member is fatal; a bad record only adds a diagnostic.
pub fn process_response(root: &JsonValue) -> (r: Result<ProcessingOutcome, String>)
    ensures
        match r {
            Ok(out) => spec_process(*root) == Ok::<_, Seq<char>>(
                (out.lines.deep_view(), out.errors.deep_view()),
            ) && (spec_results_of(*root) matches Some(items) && out.lines@.len()
                + out.errors@.len() == items.len()),
            Err(m) => spec_process(*root) == Err::<(Seq<Seq<char>>, Seq<Seq<char>>), _>(m@),
        },
{
    match root.obj_get("results") {
        Some(v) => match v {
            JsonValue::Arr(items) => {
                let out = format_report(items);
                Ok(out)
            },
            _ => Err(String::from_str(
                "expected 'results' array field which is not present in the response",
            )),
        },
        None => Err(String::from_str(
            "expected 'results' array field which is not present in the response",
        )),
    }
}

/// Every record contributes exactly one item: the rendered lines and the
/// diagnostics together number as many as the records.
pub proof fn lemma_outcome_partition(records: Seq<JsonValue>)
    ensures
        spec_report(records).0.len() + spec_report(records).1.len() == records.len(),
{
    lemma_outcome_partition_from(records, 0);
}

proof fn lemma_outcome_partition_from(records: Seq<JsonValue>, i: int)
    requires
        0 <= i <= records.len(),
    ensures
        spec_report_from(records, i).0.len() + spec_report_from(records, i).1.len()
            == records.len() - i,
    decreases records.len() - i,
{
    if i < records.len() {
        lemma_outcome_partition_from(records, i + 1);
    }
}

/// A record without a readable title fails with the title-specific message,
/// before any other field is looked at, and contributes no line and exactly
/// one diagnostic to the report.
pub proof fn lemma_title_missing(records: Seq<JsonValue>, i: int)
    requires
        0 <= i < records.len(),
        spec_title_of(records[i]) is None,
    ensures
        spec_extract(records[i], i as nat) == Err::<
            (Seq<char>, bool, Option<Seq<char>>, Option<Seq<char>>),
            _,
        >(spec_msg_bad_title(i as nat)),
        spec_report_from(records, i).0 == spec_report_from(records, i + 1).0,
        spec_report_from(records, i).1 == seq![spec_msg_bad_title(i as nat)]
            + spec_report_from(records, i + 1).1,
{
}

/// The report is a function of the ordered records alone: two runs over the
/// same sequence yield identical lines and identical diagnostics.
pub proof fn lemma_report_deterministic(
    records: Seq<JsonValue>,
    first: (Seq<Seq<char>>, Seq<Seq<char>>),
    second: (Seq<Seq<char>>, Seq<Seq<char>>),
)
    requires
        first == spec_report(records),
        second == spec_report(records),
    ensures
        first == second,
{
}

} // verus!
