use frameos::json::{parse_json, JsonValue};
use frameos::logging::{emit_event_to_sink, MemoryJsonLineSink, MultiJsonLineSink};

fn json(text: &str) -> JsonValue {
    parse_json(text).expect("test value should be json")
}

#[test]
fn memory_sink_captures_json_lines() {
    let mut sink = MemoryJsonLineSink::default();
    emit_event_to_sink(
        &mut sink,
        json(r#"{"event": "runtime:test"}"#),
        json("1700000000.25"),
    )
    .expect("write to memory sink should succeed");

    let lines = sink.lines();
    assert_eq!(lines.len(), 1);

    let payload = parse_json(&lines[0]).expect("captured line should be json");
    assert_eq!(
        payload.get("event").and_then(|event| event.get("event")),
        Some(&JsonValue::Str("runtime:test".to_string()))
    );
    assert!(payload
        .get("timestamp")
        .and_then(|timestamp| timestamp.as_number())
        .is_some());
}

#[test]
fn multi_sink_writes_to_all_destinations() {
    let primary = MemoryJsonLineSink::default();
    let secondary = MemoryJsonLineSink::default();
    let mut sink = MultiJsonLineSink::new(primary, secondary);

    emit_event_to_sink(
        &mut sink,
        json(r#"{"event": "runtime:ready"}"#),
        json("1700000000.5"),
    )
    .expect("multi sink write should succeed");

    assert_eq!(sink.first.lines().len(), 1);
    assert_eq!(sink.second.lines().len(), 1);
}

#[test]
fn event_line_is_compact_json() {
    let line = frameos::logging::event_line(json(r#"{"event": "x"}"#), json("12"));
    assert_eq!(line, r#"{"event":{"event":"x"},"timestamp":12}"#);
}
