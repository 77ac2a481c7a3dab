use notifieru::json::JsonValue;
use notifieru::render::push_datetime;
use notifieru::report::extract;
use notifieru::report::format_line;
use notifieru::report::format_report;
use notifieru::report::process_response;
use notifieru::report::ReportLine;

fn obj(entries: Vec<(&str, JsonValue)>) -> JsonValue {
    JsonValue::Obj(
        entries
            .into_iter()
            .map(|(k, v)| (k.to_string(), v))
            .collect(),
    )
}

fn title_prop(text: &str) -> (&'static str, JsonValue) {
    (
        "Name",
        obj(vec![(
            "title",
            JsonValue::Arr(vec![obj(vec![(
                "plain_text",
                JsonValue::Str(text.to_string()),
            )])]),
        )]),
    )
}

fn done_prop(done: bool) -> (&'static str, JsonValue) {
    ("Done", obj(vec![("checkbox", JsonValue::Bool(done))]))
}

fn due_prop(start: Option<&str>, end: Option<&str>) -> (&'static str, JsonValue) {
    let s = match start {
        Some(v) => JsonValue::Str(v.to_string()),
        None => JsonValue::Null,
    };
    let e = match end {
        Some(v) => JsonValue::Str(v.to_string()),
        None => JsonValue::Null,
    };
    ("Due", obj(vec![("date", obj(vec![("start", s), ("end", e)]))]))
}

fn full_record(title: &str, done: bool, start: Option<&str>, end: Option<&str>) -> JsonValue {
    obj(vec![(
        "properties",
        obj(vec![title_prop(title), done_prop(done), due_prop(start, end)]),
    )])
}

fn record_without_due(title: &str, done: bool) -> JsonValue {
    obj(vec![(
        "properties",
        obj(vec![title_prop(title), done_prop(done)]),
    )])
}

#[test]
fn test_push_datetime_truncates_time() {
    let mut buf = String::new();
    push_datetime("2024-01-15T09:30:00.000Z", &mut buf);
    assert_eq!(buf, "2024-01-15 09:30:00");
}

#[test]
fn test_push_datetime_date_only_unchanged() {
    let mut buf = String::new();
    push_datetime("2024-01-15", &mut buf);
    assert_eq!(buf, "2024-01-15");
}

#[test]
fn test_push_datetime_short_time_unchanged() {
    let mut buf = String::new();
    push_datetime("2024-01-15T09:30", &mut buf);
    assert_eq!(buf, "2024-01-15T09:30");
}

#[test]
fn test_push_datetime_appends() {
    let mut buf = String::from("due: ");
    push_datetime("2024-01-15T09:30:00+09:00", &mut buf);
    assert_eq!(buf, "due: 2024-01-15 09:30:00");
}

#[test]
fn test_extract_full_record() {
    let rec = full_record(
        "Write the report",
        true,
        Some("2024-01-15T09:30:00.000Z"),
        Some("2024-01-16"),
    );
    let line = extract(&rec, 4).unwrap();
    assert_eq!(line.index, 4);
    assert!(line.done);
    assert_eq!(line.title, "Write the report");
    assert_eq!(line.start.as_deref(), Some("2024-01-15T09:30:00.000Z"));
    assert_eq!(line.end.as_deref(), Some("2024-01-16"));
}

#[test]
fn test_extract_empty_title_array() {
    let rec = obj(vec![(
        "properties",
        obj(vec![
            ("Name", obj(vec![("title", JsonValue::Arr(vec![]))])),
            done_prop(false),
        ]),
    )]);
    let err = extract(&rec, 0).unwrap_err();
    assert_eq!(err, "todo 0: missing or invalid title");
}

#[test]
fn test_extract_missing_plain_text() {
    let rec = obj(vec![(
        "properties",
        obj(vec![
            (
                "Name",
                obj(vec![(
                    "title",
                    JsonValue::Arr(vec![obj(vec![("other", JsonValue::Null)])]),
                )]),
            ),
            done_prop(false),
        ]),
    )]);
    let err = extract(&rec, 2).unwrap_err();
    assert_eq!(err, "todo 2: missing or invalid title");
}

#[test]
fn test_extract_missing_done_checkbox() {
    let rec = obj(vec![("properties", obj(vec![title_prop("A task")]))]);
    let err = extract(&rec, 3).unwrap_err();
    assert_eq!(err, "todo 3: missing or invalid 'Done' checkbox");
}

#[test]
fn test_format_line_pads_title() {
    let line = ReportLine {
        index: 0,
        done: true,
        title: String::from("Write tests"),
        start: None,
        end: None,
    };
    let rendered = format_line(&line);
    assert_eq!(rendered, format!("[x] {}: {:35} | ", 0, "Write tests"));
}

#[test]
fn test_format_line_wide_title_not_truncated() {
    let title = "A very long title that goes well past the padding width";
    let line = ReportLine {
        index: 7,
        done: false,
        title: String::from(title),
        start: None,
        end: None,
    };
    let rendered = format_line(&line);
    assert_eq!(rendered, format!("[ ] {}: {:35} | ", 7, title));
}

#[test]
fn test_report_no_due_has_no_date_suffix() {
    let records = vec![record_without_due("Open-ended task", true)];
    let out = format_report(&records);
    assert_eq!(out.errors.len(), 0);
    assert_eq!(out.lines.len(), 1);
    assert_eq!(
        out.lines[0],
        format!("[x] {}: {:35} | ", 0, "Open-ended task")
    );
    assert!(!out.lines[0].contains('~'));
}

#[test]
fn test_report_start_and_end_range() {
    let records = vec![full_record(
        "Ranged",
        false,
        Some("2024-01-15T09:30:00.000Z"),
        Some("2024-01-16T10:00:00.000Z"),
    )];
    let out = format_report(&records);
    assert_eq!(
        out.lines[0],
        format!(
            "[ ] {}: {:35} | 2024-01-15 09:30:00 ~ 2024-01-16 10:00:00",
            0, "Ranged"
        )
    );
}

#[test]
fn test_report_start_only() {
    let records = vec![full_record("One date", false, Some("2024-01-15"), None)];
    let out = format_report(&records);
    assert_eq!(out.lines[0], format!("[ ] {}: {:35} | 2024-01-15", 0, "One date"));
}

#[test]
fn test_report_null_end_treated_as_absent() {
    let records = vec![full_record("Null end", true, Some("2024-01-15"), None)];
    let out = format_report(&records);
    assert!(!out.lines[0].contains('~'));
}

#[test]
fn test_report_bad_record_does_not_stop_the_rest() {
    let records = vec![
        record_without_due("First", false),
        obj(vec![("properties", obj(vec![done_prop(true)]))]),
        record_without_due("Third", true),
    ];
    let out = format_report(&records);
    assert_eq!(out.lines.len(), 2);
    assert_eq!(out.errors.len(), 1);
    assert_eq!(out.errors[0], "todo 1: missing or invalid title");
    assert_eq!(out.lines[0], format!("[ ] {}: {:35} | ", 0, "First"));
    assert_eq!(out.lines[1], format!("[x] {}: {:35} | ", 2, "Third"));
}

#[test]
fn test_report_is_deterministic() {
    let records = vec![
        full_record("A", true, Some("2024-01-15T09:30:00.000Z"), None),
        obj(vec![("properties", obj(vec![done_prop(false)]))]),
        record_without_due("B", false),
    ];
    let first = format_report(&records);
    let second = format_report(&records);
    assert_eq!(first.lines, second.lines);
    assert_eq!(first.errors, second.errors);
}

#[test]
fn test_process_response_ok() {
    let root = obj(vec![(
        "results",
        JsonValue::Arr(vec![record_without_due("Only one", false)]),
    )]);
    let out = process_response(&root).unwrap();
    assert_eq!(out.lines.len(), 1);
    assert_eq!(out.errors.len(), 0);
}

#[test]
fn test_process_response_missing_results() {
    let root = obj(vec![("other", JsonValue::Null)]);
    let err = process_response(&root).unwrap_err();
    assert_eq!(
        err,
        "expected 'results' array field which is not present in the response"
    );
}

#[test]
fn test_process_response_results_not_array() {
    let root = obj(vec![("results", JsonValue::Str("nope".to_string()))]);
    let err = process_response(&root).unwrap_err();
    assert_eq!(
        err,
        "expected 'results' array field which is not present in the response"
    );
}
