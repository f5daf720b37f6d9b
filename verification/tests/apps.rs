use frameos::apps::{execute_ported_app, AppExecutionContext, AppOutput};
use frameos::json::{parse_json, JsonObject, JsonValue};

fn json(text: &str) -> JsonValue {
    parse_json(text).expect("test value should be json")
}

fn text(value: &str) -> JsonValue {
    JsonValue::Str(value.to_string())
}

fn fields(members: Vec<(&str, JsonValue)>) -> JsonObject {
    let mut object = JsonObject::new();
    for (key, value) in members {
        object.insert(key.to_string(), value);
    }
    object
}

#[test]
fn parse_json_app_returns_json_payload() {
    let fields = fields(vec![("text", text("{\"value\":42}"))]);

    let output = execute_ported_app(
        "data/parseJson",
        &fields,
        &mut AppExecutionContext::default(),
    )
    .expect("parse json app should execute");
    assert_eq!(output, AppOutput::Value(json(r#"{"value": 42}"#)));
}

#[test]
fn set_as_state_writes_json_value() {
    let fields = fields(vec![
        ("stateKey", text("temperature")),
        ("valueJson", json(r#"{"c": 21.2}"#)),
    ]);
    let mut context = AppExecutionContext::default();

    let output = execute_ported_app("logic/setAsState", &fields, &mut context)
        .expect("setAsState should execute");

    assert_eq!(output, AppOutput::Empty);
    assert_eq!(
        context.state.get("temperature"),
        Some(&json(r#"{"c": 21.2}"#))
    );
}

#[test]
fn if_else_returns_selected_branch() {
    let fields = fields(vec![
        ("condition", JsonValue::Bool(true)),
        ("thenNode", json("12")),
        ("elseNode", json("99")),
    ]);

    let output =
        execute_ported_app("logic/ifElse", &fields, &mut AppExecutionContext::default())
            .expect("ifElse should execute");

    assert_eq!(output, AppOutput::BranchNode(12));
}
