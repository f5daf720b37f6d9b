use frameos::apps::{execute_ported_app, AppExecutionContext, AppExecutionError, AppOutput};
use frameos::json::{parse_json, JsonNumber, JsonObject, JsonValue};

fn json(text: &str) -> JsonValue {
    parse_json(text).expect("test value should be json")
}

fn text(value: &str) -> JsonValue {
    JsonValue::Str(value.to_string())
}

fn fields(members: Vec<(&str, JsonValue)>) -> JsonObject {
    let mut object = JsonObject::new();
    for (key, value) in members {
        object.insert(key.to_string(), value);
    }
    object
}

fn member<'a>(value: &'a JsonValue, key: &str) -> &'a JsonValue {
    value.get(key).expect("member should exist")
}

fn item(value: &JsonValue, index: usize) -> &JsonValue {
    &value.as_array().expect("value should be an array")[index]
}

fn rendered_text(output: AppOutput) -> String {
    let AppOutput::Value(JsonValue::Str(rendered)) = output else {
        panic!("expected string output");
    };
    rendered
}

fn agenda_fields(events: &str, start_with_today: bool) -> Vec<(&'static str, JsonValue)> {
    vec![
        ("events", json(events)),
        ("baseFontSize", json("24.0")),
        ("titleFontSize", json("48.0")),
        ("textColor", text("#445566")),
        ("timeColor", text("#778899")),
        ("titleColor", text("#112233")),
        ("startWithToday", JsonValue::Bool(start_with_today)),
    ]
}

#[test]
fn pretty_json_respects_prettify_flag() {
    let fields = fields(vec![
        ("json", json(r#"{"hello":"world"}"#)),
        ("prettify", JsonValue::Bool(true)),
    ]);

    let output = execute_ported_app(
        "data/prettyJson",
        &fields,
        &mut AppExecutionContext::default(),
    )
    .expect("pretty json app should execute");

    let rendered = rendered_text(output);
    assert!(rendered.contains('\n'));
    assert!(rendered.contains("  \"hello\""));
}

#[test]
fn pretty_json_uses_ident_width() {
    let fields = fields(vec![
        ("json", json(r#"{"hello":"world"}"#)),
        ("prettify", JsonValue::Bool(true)),
        ("ident", json("4")),
    ]);

    let output = execute_ported_app(
        "data/prettyJson",
        &fields,
        &mut AppExecutionContext::default(),
    )
    .expect("pretty json app should execute");

    let rendered = rendered_text(output);
    assert!(rendered.contains("\n    \"hello\""));
}

#[test]
fn pretty_json_rejects_negative_ident() {
    let fields = fields(vec![
        ("json", json(r#"{"hello":"world"}"#)),
        ("prettify", JsonValue::Bool(true)),
        ("ident", json("-1")),
    ]);

    let error = execute_ported_app(
        "data/prettyJson",
        &fields,
        &mut AppExecutionContext::default(),
    )
    .expect_err("negative ident should fail");

    assert!(matches!(
        error,
        AppExecutionError::InvalidField { field: "ident", .. }
    ));
}

#[test]
fn next_sleep_duration_updates_context() {
    let fields = fields(vec![("duration", json("2.5"))]);
    let mut context = AppExecutionContext::default();

    execute_ported_app("logic/nextSleepDuration", &fields, &mut context)
        .expect("nextSleepDuration should execute");

    assert_eq!(
        context.next_sleep_seconds,
        Some(JsonNumber::Float("2.5".to_string()))
    );
    let seconds: f64 = match context.next_sleep_seconds {
        Some(JsonNumber::Float(literal)) => literal.parse().expect("a float literal"),
        _ => panic!("expected a float"),
    };
    assert_eq!(Some(seconds), Some(2.5));
}

#[test]
fn break_if_rendering_errors_when_scene_is_busy() {
    let mut context = AppExecutionContext {
        is_rendering: true,
        ..AppExecutionContext::default()
    };

    let error = execute_ported_app("logic/breakIfRendering", &JsonObject::new(), &mut context)
        .expect_err("busy rendering should abort app");

    assert!(matches!(error, AppExecutionError::Aborted(_)));
}

#[test]
fn set_as_state_rejects_dual_value_sources() {
    let fields = fields(vec![
        ("stateKey", text("key")),
        ("valueString", text("text")),
        ("valueJson", json(r#"{"v": 1}"#)),
    ]);

    let error = execute_ported_app(
        "logic/setAsState",
        &fields,
        &mut AppExecutionContext::default(),
    )
    .expect_err("dual value sources should fail");

    assert!(matches!(
        error,
        AppExecutionError::InvalidField {
            field: "valueString/valueJson",
            ..
        }
    ));
}

#[test]
fn xml_to_json_builds_document_tree() {
    let fields = fields(vec![(
        "xml",
        text("<root lang=\"en\"><title>Hello</title><!-- note --></root>"),
    )]);

    let output = execute_ported_app(
        "data/xmlToJson",
        &fields,
        &mut AppExecutionContext::default(),
    )
    .expect("xml to json app should execute");

    let AppOutput::Value(payload) = output else {
        panic!("expected object output");
    };

    assert_eq!(member(&payload, "type"), &text("document"));
    let root = member(&payload, "root");
    assert_eq!(member(root, "type"), &text("element"));
    assert_eq!(member(root, "name"), &text("root"));
    assert_eq!(member(member(root, "attributes"), "lang"), &text("en"));
    assert_eq!(member(item(member(root, "children"), 0), "name"), &text("title"));
    assert_eq!(member(item(member(root, "children"), 1), "type"), &text("comment"));
}

#[test]
fn xml_to_json_rejects_invalid_xml() {
    let fields = fields(vec![("xml", text("<root>"))]);

    let error = execute_ported_app(
        "data/xmlToJson",
        &fields,
        &mut AppExecutionContext::default(),
    )
    .expect_err("invalid xml should fail");

    assert!(matches!(
        error,
        AppExecutionError::InvalidField { field: "xml", .. }
    ));
}

#[test]
fn events_to_agenda_formats_and_sorts_events() {
    let fields = fields(agenda_fields(
        r#"[
            {"summary": "Holiday", "startTime": "2024-12-25", "endTime": "2024-12-25"},
            {"summary": "Breakfast", "startTime": "2024-12-24T08:00:00", "endTime": "2024-12-24T09:00:00"}
        ]"#,
        false,
    ));

    let output = execute_ported_app(
        "data/eventsToAgenda",
        &fields,
        &mut AppExecutionContext::default(),
    )
    .expect("eventsToAgenda should execute");

    let rendered = rendered_text(output);

    assert!(rendered.contains("^(48,#112233)Tuesday, December 24"));
    assert!(rendered.contains("^(24,#778899)08:00 - 09:00  ^(24,#445566)Breakfast"));
    assert!(rendered.contains("^(48,#112233)Wednesday, December 25"));
    assert!(rendered.contains("^(24,#778899)All day  ^(24,#445566)Holiday"));
    assert!(rendered.find("Breakfast") < rendered.find("Holiday"));
}

#[test]
fn events_to_agenda_shows_until_for_multi_day_events() {
    let fields = fields(agenda_fields(
        r#"[
            {"summary": "Conference", "startTime": "2024-12-25", "endTime": "2024-12-27"}
        ]"#,
        false,
    ));

    let output = execute_ported_app(
        "data/eventsToAgenda",
        &fields,
        &mut AppExecutionContext::default(),
    )
    .expect("eventsToAgenda should execute");

    let rendered = rendered_text(output);

    assert!(rendered.contains("^(48,#112233)Wednesday, December 25"));
    assert!(rendered.contains("^(24,#778899)Until Friday, December 27  ^(24,#445566)Conference"));
}

#[test]
fn events_to_agenda_includes_today_for_ongoing_event() {
    let mut members = agenda_fields(
        r#"[
            {"summary": "Retreat", "startTime": "2024-12-23", "endTime": "2024-12-27"}
        ]"#,
        true,
    );
    members.push(("testOverrideToday", text("2024-12-26")));
    let fields = fields(members);

    let output = execute_ported_app(
        "data/eventsToAgenda",
        &fields,
        &mut AppExecutionContext::default(),
    )
    .expect("eventsToAgenda should execute");

    let rendered = rendered_text(output);

    assert!(!rendered.contains("No events today"));
    assert_eq!(
        rendered
            .matches("^(48,#112233)Thursday, December 26")
            .count(),
        1
    );
    assert!(rendered.contains("^(24,#778899)Until Friday, December 27  ^(24,#445566)Retreat"));
}

#[test]
fn events_to_agenda_handles_dst_boundary_times() {
    let fields = fields(vec![
        (
            "events",
            json(
                r#"[
            {
                "summary": "DST Change",
                "startTime": "2024-03-10T01:30:00-08:00",
                "endTime": "2024-03-10T03:30:00-07:00",
                "timezone": "America/Los_Angeles"
            }
        ]"#,
            ),
        ),
        ("startWithToday", JsonValue::Bool(false)),
    ]);

    let output = execute_ported_app(
        "data/eventsToAgenda",
        &fields,
        &mut AppExecutionContext::default(),
    )
    .expect("eventsToAgenda should execute");

    let rendered = rendered_text(output);

    assert!(rendered.contains("Sunday, March 10"));
    assert!(rendered.contains("01:30 - 03:30"));
}

#[test]
fn events_to_agenda_prefers_event_timezone_over_context_fallback() {
    let fields = fields(vec![
        (
            "events",
            json(
                r#"[
            {
                "summary": "Meeting",
                "startTime": "2024-05-01T09:00:00",
                "endTime": "2024-05-01T10:00:00",
                "timezone": "UTC"
            }
        ]"#,
            ),
        ),
        ("startWithToday", JsonValue::Bool(false)),
    ]);

    let mut context = AppExecutionContext::default();
    context.time_zone = Some("Definitely/Invalid".to_string());

    let output = execute_ported_app("data/eventsToAgenda", &fields, &mut context)
        .expect("event timezone should take precedence over invalid fallback");

    let rendered = rendered_text(output);
    assert!(rendered.contains("09:00 - 10:00"));
}

#[test]
fn clock_formats_time_with_standard_pattern() {
    let fields = fields(vec![
        ("format", text("yyyy-MM-dd HH:mm:ss")),
        ("testOverrideNow", text("2024-06-07T08:09:10Z")),
    ]);

    let mut context = AppExecutionContext::default();
    context.time_zone = Some("UTC".to_string());

    let output =
        execute_ported_app("data/clock", &fields, &mut context).expect("clock app should execute");

    assert_eq!(rendered_text(output), "2024-06-07 08:09:10");
}

#[test]
fn clock_supports_custom_format() {
    let fields = fields(vec![
        ("format", text("custom")),
        ("formatCustom", text("HH:mm")),
        ("testOverrideNow", text("2024-06-07T08:09:10Z")),
    ]);

    let mut context = AppExecutionContext::default();
    context.time_zone = Some("UTC".to_string());

    let output =
        execute_ported_app("data/clock", &fields, &mut context).expect("clock app should execute");

    assert_eq!(rendered_text(output), "08:09");
}

#[test]
fn clock_applies_context_timezone() {
    let fields = fields(vec![
        ("format", text("HH:mm")),
        ("testOverrideNow", text("2024-01-15T12:00:00Z")),
    ]);

    let mut context = AppExecutionContext::default();
    context.time_zone = Some("America/New_York".to_string());

    let output =
        execute_ported_app("data/clock", &fields, &mut context).expect("clock app should execute");

    assert_eq!(rendered_text(output), "07:00");
}

#[test]
fn clock_rejects_invalid_override_datetime() {
    let fields = fields(vec![
        ("format", text("HH:mm")),
        ("testOverrideNow", text("not-a-datetime")),
    ]);

    let error = execute_ported_app("data/clock", &fields, &mut AppExecutionContext::default())
        .expect_err("invalid override datetime should fail");

    assert!(matches!(
        error,
        AppExecutionError::InvalidField {
            field: "testOverrideNow",
            ..
        }
    ));
}

#[test]
fn ical_json_rejects_url_input() {
    let fields = fields(vec![("ical", text("https://example.com/calendar.ics"))]);

    let error = execute_ported_app(
        "data/icalJson",
        &fields,
        &mut AppExecutionContext::default(),
    )
    .expect_err("url input should be rejected");

    assert!(matches!(
        error,
        AppExecutionError::InvalidField { field: "ical", .. }
    ));
}

#[test]
fn ical_json_exports_recurring_and_all_day_events() {
    let fields = fields(vec![
        (
            "ical",
            text(
                "BEGIN:VCALENDAR\nX-WR-TIMEZONE:Europe/Brussels\nBEGIN:VEVENT\nDTSTART;TZID=Europe/Brussels:20240103T170000\nDTEND;TZID=Europe/Brussels:20240103T173000\nRRULE:FREQ=WEEKLY;COUNT=3;BYDAY=WE\nSUMMARY:Team Standup\nLOCATION:https://example.com/location-url/\nDESCRIPTION:Recurring sync\nURL:https://example.com/standup\nEND:VEVENT\nBEGIN:VEVENT\nDTSTART;VALUE=DATE:20240110\nDTEND;VALUE=DATE:20240111\nSUMMARY:Company Holiday\nEND:VEVENT\nEND:VCALENDAR",
            ),
        ),
        ("exportFrom", text("2024-01-01")),
        ("exportUntil", text("2024-01-31")),
        ("exportCount", json("10")),
        ("addLocation", JsonValue::Bool(true)),
        ("addUrl", JsonValue::Bool(true)),
        ("addDescription", JsonValue::Bool(true)),
        ("addTimezone", JsonValue::Bool(true)),
    ]);

    let mut context = AppExecutionContext::default();
    context.time_zone = Some("UTC".to_string());

    let output = execute_ported_app("data/icalJson", &fields, &mut context)
        .expect("ical json should execute");

    let AppOutput::Value(JsonValue::Array(events)) = output else {
        panic!("expected array output");
    };

    assert_eq!(events.len(), 4);

    let standups = events
        .iter()
        .filter(|event| member(event, "summary") == &text("Team Standup"))
        .collect::<Vec<_>>();
    assert_eq!(standups.len(), 3);
    assert_eq!(member(standups[0], "startTime"), &text("2024-01-03T17:00:00"));
    assert_eq!(member(standups[1], "startTime"), &text("2024-01-10T17:00:00"));
    assert_eq!(member(standups[2], "startTime"), &text("2024-01-17T17:00:00"));
    assert_eq!(
        member(standups[0], "location"),
        &text("https://example.com/location-url/")
    );
    assert_eq!(member(standups[0], "url"), &text("https://example.com/standup"));
    assert_eq!(member(standups[0], "description"), &text("Recurring sync"));

    let holiday = events
        .iter()
        .find(|event| member(event, "summary") == &text("Company Holiday"))
        .expect("holiday event should exist");
    assert_eq!(member(holiday, "startTime"), &text("2024-01-10"));
    assert_eq!(member(holiday, "endTime"), &text("2024-01-10"));
    assert_eq!(member(holiday, "timezone"), &text("Europe/Brussels"));
}

#[test]
fn ical_json_supports_search_filtering() {
    let fields = fields(vec![
        (
            "ical",
            text(
                "BEGIN:VCALENDAR\nBEGIN:VEVENT\nDTSTART:20240103T100000Z\nDTEND:20240103T103000Z\nSUMMARY:Standup\nEND:VEVENT\nBEGIN:VEVENT\nDTSTART:20240103T110000Z\nDTEND:20240103T113000Z\nSUMMARY:Design Review\nEND:VEVENT\nEND:VCALENDAR",
            ),
        ),
        ("exportFrom", text("2024-01-01")),
        ("exportUntil", text("2024-01-31")),
        ("search", text("stand")),
    ]);

    let output = execute_ported_app(
        "data/icalJson",
        &fields,
        &mut AppExecutionContext::default(),
    )
    .expect("ical json should execute");

    let AppOutput::Value(JsonValue::Array(events)) = output else {
        panic!("expected array output");
    };

    assert_eq!(events.len(), 1);
    assert_eq!(member(&events[0], "summary"), &text("Standup"));
}

#[test]
fn xml_to_json_names_each_kind_of_node() {
    let fields = fields(vec![(
        "xml",
        text("<root><?target some data?><![CDATA[raw <b>]]>  <!--note-->word<?bare?></root>"),
    )]);
    let output = execute_ported_app("data/xmlToJson", &fields, &mut AppExecutionContext::default())
        .expect("xml to json app should execute");
    let AppOutput::Value(payload) = output else {
        panic!("expected object output");
    };
    let children = member(member(&payload, "root"), "children");
    let shown: Vec<(String, String)> = children
        .as_array()
        .expect("children should be an array")
        .iter()
        .map(|child| {
            (
                member(child, "type").as_str().unwrap_or_default().to_string(),
                member(child, "text").as_str().unwrap_or_default().to_string(),
            )
        })
        .collect();
    let pair = |kind: &str, text: &str| (kind.to_string(), text.to_string());
    assert_eq!(
        shown,
        vec![
            pair("processing-instruction", "target some data"),
            pair("cdata", "raw <b>"),
            pair("comment", "note"),
            pair("text", "word"),
            pair("processing-instruction", "bare"),
        ]
    );
}
