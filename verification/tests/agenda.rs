use frameos::agenda::{
    execute_data_events_to_agenda, extract_hh_mm, get_timezone, normalize_hex_color, parse_date,
    split_iso_day,
};
use frameos::apps::{AppExecutionContext, AppExecutionError, AppOutput};
use frameos::calendar::Timestamp;
use frameos::json::{parse_json, JsonObject, JsonValue};

fn json(text: &str) -> JsonValue {
    parse_json(text).expect("test value should be json")
}

fn fields(document: &str) -> JsonObject {
    match json(document) {
        JsonValue::Object(object) => object,
        _ => panic!("fields should be an object"),
    }
}

fn invalid(field: &'static str, reason: &str) -> AppExecutionError {
    AppExecutionError::InvalidField { field, reason: reason.to_string() }
}

fn agenda(document: &str, zone: Option<&str>, now: i64) -> Result<String, AppExecutionError> {
    let context = AppExecutionContext {
        time_zone: zone.map(|name| name.to_string()),
        ..AppExecutionContext::default()
    };
    match execute_data_events_to_agenda(&fields(document), &context, Timestamp { secs: now, nanos: 0 })? {
        AppOutput::Value(JsonValue::Str(text)) => Ok(text),
        other => panic!("expected a text, got {other:?}"),
    }
}

fn events(list: &str) -> Vec<JsonValue> {
    match json(list) {
        JsonValue::Array(items) => items,
        _ => panic!("events should be an array"),
    }
}

#[test]
fn colours_are_checked_and_written_in_capitals() {
    assert_eq!(normalize_hex_color("#a1b2c3", "titleColor"), Ok("#A1B2C3".to_string()));
    assert_eq!(normalize_hex_color("#00FF7f", "titleColor"), Ok("#00FF7F".to_string()));
    for wrong in ["a1b2c3", "#12345", "#1234567", "#12345g", "", "#", " #123456", "##12345"] {
        assert_eq!(
            normalize_hex_color(wrong, "timeColor"),
            Err(invalid("timeColor", "expected #RRGGBB format")),
            "colour {wrong:?}"
        );
    }
}

#[test]
fn zone_of_an_agenda_is_that_of_its_first_event_that_names_one() {
    let list = events(r#"[{"summary": "a"}, {"timezone": ""}, {"timezone": "Europe/Brussels"}, {"timezone": "Asia/Tokyo"}]"#);
    assert_eq!(get_timezone(&list, Some("UTC")), Ok("Europe/Brussels".to_string()));
    let unnamed = events(r#"[{"summary": "a"}, {"timezone": 3}]"#);
    assert_eq!(get_timezone(&unnamed, Some("Asia/Tokyo")), Ok("Asia/Tokyo".to_string()));
    assert_eq!(get_timezone(&unnamed, None), Ok("UTC".to_string()));
    assert_eq!(get_timezone(&Vec::new(), None), Ok("UTC".to_string()));
}

#[test]
fn zone_that_is_unknown_is_an_error_of_the_field_that_named_it() {
    let list = events(r#"[{"timezone": "Mars/Base"}, {"timezone": "UTC"}]"#);
    assert_eq!(
        get_timezone(&list, Some("UTC")),
        Err(invalid("events.timezone", "unknown timezone `Mars/Base`"))
    );
    assert_eq!(
        get_timezone(&Vec::new(), Some("Moon/Sea")),
        Err(invalid("timeZone", "unknown timezone `Moon/Sea`"))
    );
}

#[test]
fn days_are_read_as_year_month_and_day() {
    assert_eq!(parse_date("2024-12-25", "events.startTime"), Ok(1_735_084_800));
    assert_eq!(parse_date("1970-01-01", "events.startTime"), Ok(0));
    assert_eq!(
        parse_date("25.12.2024", "testOverrideToday"),
        Err(invalid("testOverrideToday", "expected YYYY-MM-DD date, got `25.12.2024`"))
    );
    assert_eq!(
        parse_date("2024-02-30", "events.endTime"),
        Err(invalid("events.endTime", "expected YYYY-MM-DD date, got `2024-02-30`"))
    );
}

#[test]
fn day_of_a_time_is_what_stands_before_its_separator() {
    assert_eq!(split_iso_day("2024-12-24T08:00"), Ok("2024-12-24".to_string()));
    assert_eq!(split_iso_day("2024-12-25"), Ok("2024-12-25".to_string()));
    assert_eq!(split_iso_day("2024-12-25Twhenever"), Ok("2024-12-25".to_string()));
    assert_eq!(
        split_iso_day("nope"),
        Err(invalid("events.startTime", "expected YYYY-MM-DD date, got `nope`"))
    );
    assert_eq!(
        split_iso_day("T08:00"),
        Err(invalid("events.startTime", "expected YYYY-MM-DD date, got ``"))
    );
}

#[test]
fn hours_and_minutes_are_taken_from_a_time() {
    assert_eq!(extract_hh_mm("2024-12-24T08:00:00Z"), Ok("08:00".to_string()));
    assert_eq!(extract_hh_mm("2024-12-24T08:30:00+02:00"), Ok("08:30".to_string()));
    assert_eq!(extract_hh_mm("2024-12-24T09:15:30"), Ok("09:15".to_string()));
    assert_eq!(extract_hh_mm("2024-12-24T09:15"), Ok("09:15".to_string()));
    assert_eq!(extract_hh_mm("2024-12-24T07:45 or so"), Ok("07:45".to_string()));
    assert_eq!(extract_hh_mm("somedayTab:cd"), Ok("ab:cd".to_string()));
}

#[test]
fn time_without_hours_and_minutes_is_an_error() {
    assert_eq!(
        extract_hh_mm("2024-12-24"),
        Err(invalid("events.startTime", "expected datetime with T separator, got `2024-12-24`"))
    );
    assert_eq!(
        extract_hh_mm("2024-12-24Tnoon"),
        Err(invalid("events.startTime", "unable to parse time from `2024-12-24Tnoon`"))
    );
    assert_eq!(
        extract_hh_mm("2024-12-24T0845"),
        Err(invalid("events.startTime", "unable to parse time from `2024-12-24T0845`"))
    );
}

#[test]
fn agenda_without_events_says_so_under_todays_heading() {
    assert_eq!(
        agenda(r#"{"events": [], "testOverrideToday": "2024-12-24"}"#, None, 0),
        Ok("^(48,#FFFFFF)Tuesday, December 24\n^(24,#FFFFFF)\nNo events found\n".to_string())
    );
}

#[test]
fn agenda_takes_today_from_the_clock_in_its_zone() {
    // 2024-12-24T23:30:00Z is already the 25th in Tokyo.
    let late = 1_735_084_800 - 1800;
    assert_eq!(
        agenda(r#"{"events": []}"#, None, late),
        Ok("^(48,#FFFFFF)Tuesday, December 24\n^(24,#FFFFFF)\nNo events found\n".to_string())
    );
    assert_eq!(
        agenda(r#"{"events": []}"#, Some("Asia/Tokyo"), late),
        Ok("^(48,#FFFFFF)Wednesday, December 25\n^(24,#FFFFFF)\nNo events found\n".to_string())
    );
}

#[test]
fn agenda_that_starts_with_today_says_when_today_is_free() {
    let document = r#"{
        "events": [{"summary": "Holiday", "startTime": "2024-12-25", "endTime": "2024-12-25"}],
        "startWithToday": true,
        "testOverrideToday": "2024-12-24"
    }"#;
    assert_eq!(
        agenda(document, None, 0),
        Ok([
            "^(48,#FFFFFF)Tuesday, December 24\n^(24,#FFFFFF)\n",
            "No events today\n",
            "\n^(48,#FFFFFF)Wednesday, December 25\n^(24,#FFFFFF)\n",
            "^(24,#FF0000)All day  ^(24,#FFFFFF)Holiday\n",
        ]
        .join(""))
    );
}

#[test]
fn agenda_writes_sizes_without_needless_digits_and_colours_in_capitals() {
    let document = r##"{
        "events": [{"summary": "Call", "startTime": "2024-12-24T08:00:00", "endTime": "2024-12-24T09:30:00"}],
        "baseFontSize": 18.5,
        "titleFontSize": 30,
        "textColor": "#abcdef",
        "timeColor": "#00ff00",
        "titleColor": "#0a0b0c",
        "testOverrideToday": "2024-12-24"
    }"##;
    assert_eq!(
        agenda(document, None, 0),
        Ok([
            "\n^(30,#0A0B0C)Tuesday, December 24\n^(18.5,#ABCDEF)\n",
            "^(18.5,#00FF00)08:00 - 09:30  ^(18.5,#ABCDEF)Call\n",
        ]
        .join(""))
    );
}

#[test]
fn agenda_turns_down_fields_that_are_missing_or_wrong() {
    assert_eq!(agenda(r#"{}"#, None, 0), Err(AppExecutionError::MissingField("events")));
    assert_eq!(
        agenda(r#"{"events": "none"}"#, None, 0),
        Err(AppExecutionError::MissingField("events"))
    );
    assert_eq!(
        agenda(r#"{"events": [], "timeColor": "red"}"#, None, 0),
        Err(invalid("timeColor", "expected #RRGGBB format"))
    );
    assert_eq!(
        agenda(r#"{"events": [], "testOverrideToday": "today"}"#, None, 0),
        Err(invalid("testOverrideToday", "expected YYYY-MM-DD date, got `today`"))
    );
    assert_eq!(
        agenda(r#"{"events": [{"summary": "x", "endTime": "2024-12-24"}], "testOverrideToday": "2024-12-24"}"#, None, 0),
        Err(invalid("events.startTime", "missing or non-string startTime"))
    );
    assert_eq!(
        agenda(r#"{"events": [{"summary": "x", "startTime": "2024-12-24"}], "testOverrideToday": "2024-12-24"}"#, None, 0),
        Err(invalid("events.endTime", "missing or non-string endTime"))
    );
}

fn marks() -> frameos::agenda::AgendaMarks {
    frameos::agenda::AgendaMarks {
        title: "[T]".to_string(),
        normal: "[N]".to_string(),
        time: "[H]".to_string(),
    }
}

fn entry(
    summary: &str,
    start: &str,
    end: &str,
    days: (&str, &str),
    titles: (&str, &str),
    times: Option<(&str, &str)>,
) -> frameos::agenda::AgendaItem {
    frameos::agenda::AgendaItem {
        start_key: start.to_string(),
        entry: Ok(frameos::agenda::AgendaEntry {
            summary: summary.to_string(),
            start: start.to_string(),
            end: end.to_string(),
            start_day: days.0.to_string(),
            end_day: days.1.to_string(),
            start_title: Ok(titles.0.to_string()),
            end_title: Ok(titles.1.to_string()),
            times: Ok(match times {
                Some((from, until)) => (from.to_string(), until.to_string()),
                None => (String::new(), String::new()),
            }),
        }),
    }
}

fn holiday_and_breakfast() -> Vec<frameos::agenda::AgendaItem> {
    vec![
        entry(
            "Holiday",
            "2024-12-25",
            "2024-12-25",
            ("2024-12-25", "2024-12-25"),
            ("Wednesday, December 25", "Wednesday, December 25"),
            None,
        ),
        entry(
            "Breakfast",
            "2024-12-24T08:00",
            "2024-12-24T09:00",
            ("2024-12-24", "2024-12-24"),
            ("Tuesday, December 24", "Tuesday, December 24"),
            Some(("08:00", "09:00")),
        ),
    ]
}

#[test]
fn items_are_written_in_the_order_of_their_starts_under_their_days() {
    assert_eq!(
        frameos::agenda::agenda_of_items(&holiday_and_breakfast(), &marks(), "Monday, December 23", "2024-12-23", false),
        Ok([
            "\n[T]Tuesday, December 24\n[N]\n",
            "[H]08:00 - 09:00  [N]Breakfast\n",
            "\n[T]Wednesday, December 25\n[N]\n",
            "[H]All day  [N]Holiday\n",
        ]
        .join(""))
    );
}

#[test]
fn items_of_several_days_say_until_when_they_go_on() {
    let items = vec![entry(
        "Fair",
        "2024-12-24",
        "2024-12-26",
        ("2024-12-24", "2024-12-26"),
        ("Tuesday, December 24", "Thursday, December 26"),
        None,
    )];
    assert_eq!(
        frameos::agenda::agenda_of_items(&items, &marks(), "Wednesday, December 25", "2024-12-25", true),
        Ok("[T]Wednesday, December 25\n[N]\n[H]Until Thursday, December 26  [N]Fair\n".to_string())
    );
    assert_eq!(
        frameos::agenda::agenda_of_items(&items, &marks(), "Friday, December 27", "2024-12-27", true),
        Ok([
            "[T]Friday, December 27\n[N]\nNo events today\n",
            "\n[T]Tuesday, December 24\n[N]\n[H]Until Thursday, December 26  [N]Fair\n",
        ]
        .join(""))
    );
}

#[test]
fn item_that_could_not_be_made_fails_the_agenda_when_it_is_come_to() {
    let broken = frameos::agenda::AgendaItem {
        start_key: "2024-12-24T12:00".to_string(),
        entry: Err(invalid("events.endTime", "missing or non-string endTime")),
    };
    let mut items = holiday_and_breakfast();
    items.push(broken);
    assert_eq!(
        frameos::agenda::agenda_of_items(&items, &marks(), "", "", false),
        Err(invalid("events.endTime", "missing or non-string endTime"))
    );
    let mut untimed = holiday_and_breakfast();
    if let Ok(entry) = &mut untimed[1].entry {
        entry.times = Err(invalid("events.startTime", "unable to parse time from `x`"));
    }
    assert_eq!(
        frameos::agenda::agenda_of_items(&untimed, &marks(), "", "", false),
        Err(invalid("events.startTime", "unable to parse time from `x`"))
    );
    assert_eq!(
        frameos::agenda::agenda_of_items(&Vec::new(), &marks(), "Today", "2024-12-23", false),
        Ok("[T]Today\n[N]\nNo events found\n".to_string())
    );
}

#[test]
fn events_are_made_into_items_with_titles_and_times() {
    let items = frameos::agenda::resolve_events(&events(
        r#"[{"summary": "Breakfast", "startTime": "2024-12-24T08:00:00", "endTime": "2024-12-24T09:00:00"},
            {"summary": "Lost", "endTime": "2024-12-24"}]"#,
    ));
    assert_eq!(
        items[0],
        entry(
            "Breakfast",
            "2024-12-24T08:00:00",
            "2024-12-24T09:00:00",
            ("2024-12-24", "2024-12-24"),
            ("Tuesday, December 24", "Tuesday, December 24"),
            Some(("08:00", "09:00")),
        )
    );
    assert_eq!(items[1].start_key, "");
    assert_eq!(
        items[1].entry,
        Err(invalid("events.startTime", "missing or non-string startTime"))
    );
}

#[test]
fn size_that_is_held_as_no_number_falls_back_to_the_default() {
    let mut document = fields(r#"{"events": [], "testOverrideToday": "2024-12-24"}"#);
    document.insert(
        "baseFontSize".to_string(),
        JsonValue::Number(frameos::json::JsonNumber::Float("large".to_string())),
    );
    document.insert(
        "titleFontSize".to_string(),
        JsonValue::Number(frameos::json::JsonNumber::NegInt(-3)),
    );
    let context = AppExecutionContext::default();
    assert_eq!(
        execute_data_events_to_agenda(&document, &context, Timestamp { secs: 0, nanos: 0 }),
        Ok(AppOutput::Value(JsonValue::Str(
            "^(-3,#FFFFFF)Tuesday, December 24\n^(24,#FFFFFF)\nNo events found\n".to_string()
        )))
    );
}
