use frameos::apps::{
    execute_ported_app, AppExecutionContext, AppExecutionError, AppOutput,
};
use frameos::json::{parse_json, JsonNumber, JsonObject, JsonValue};
use frameos::scenes::{SceneGraph, SceneNode, SceneRunError};

fn json(text: &str) -> JsonValue {
    parse_json(text).expect("test value should be json")
}

fn fields(document: &str) -> JsonObject {
    match json(document) {
        JsonValue::Object(object) => object,
        _ => panic!("fields should be an object"),
    }
}

fn node(id: u64, keyword: &str, document: &str, next_node: Option<u64>) -> SceneNode {
    SceneNode { id, keyword: keyword.to_string(), fields: fields(document), next_node }
}

fn graph(entry_node: u64, nodes: Vec<SceneNode>) -> SceneGraph {
    SceneGraph { id: "demo".to_string(), entry_node, nodes }
}

fn run(graph: &SceneGraph) -> Result<Vec<u64>, SceneRunError> {
    graph.run(AppExecutionContext::default()).map(|report| report.visited_nodes)
}

#[test]
fn chain_without_a_cycle_visits_each_node_once() {
    let chain = graph(
        7,
        vec![
            node(3, "logic/breakIfRendering", "{}", None),
            node(7, "logic/breakIfRendering", "{}", Some(5)),
            node(5, "logic/breakIfRendering", "{}", Some(3)),
            node(9, "logic/breakIfRendering", "{}", Some(7)),
        ],
    );
    let report = chain.run(AppExecutionContext::default()).expect("chain should run");
    assert_eq!(report.scene_id, "demo");
    assert_eq!(report.visited_nodes, vec![7, 5, 3]);
    assert_eq!(report.outputs, vec![AppOutput::Empty, AppOutput::Empty, AppOutput::Empty]);
}

#[test]
fn cycle_is_reported_at_the_first_node_that_comes_again() {
    let ring = graph(
        1,
        vec![
            node(1, "logic/breakIfRendering", "{}", Some(2)),
            node(2, "logic/breakIfRendering", "{}", Some(3)),
            node(3, "logic/breakIfRendering", "{}", Some(2)),
        ],
    );
    assert_eq!(run(&ring), Err(SceneRunError::LoopDetected { node_id: 2 }));
    let itself = graph(4, vec![node(4, "logic/breakIfRendering", "{}", Some(4))]);
    assert_eq!(run(&itself), Err(SceneRunError::LoopDetected { node_id: 4 }));
}

#[test]
fn branch_can_close_a_cycle_too() {
    let ring = graph(
        1,
        vec![
            node(1, "logic/breakIfRendering", "{}", Some(2)),
            node(2, "logic/ifElse", r#"{"condition": false, "thenNode": 3, "elseNode": 1}"#, Some(3)),
            node(3, "logic/breakIfRendering", "{}", None),
        ],
    );
    assert_eq!(run(&ring), Err(SceneRunError::LoopDetected { node_id: 1 }));
}

#[test]
fn graph_that_is_not_well_formed_is_turned_down_before_any_node_runs() {
    assert_eq!(run(&graph(1, vec![])), Err(SceneRunError::EmptyNodes));
    let twice = graph(
        1,
        vec![
            node(1, "no/such/app", "{}", None),
            node(2, "no/such/app", "{}", None),
            node(1, "no/such/app", "{}", None),
        ],
    );
    assert_eq!(run(&twice), Err(SceneRunError::DuplicateNodeId(1)));
    let lost = graph(8, vec![node(1, "no/such/app", "{}", None)]);
    assert_eq!(run(&lost), Err(SceneRunError::MissingEntryNode(8)));
}

#[test]
fn node_that_does_not_exist_ends_the_run_with_an_error() {
    let open = graph(1, vec![node(1, "logic/breakIfRendering", "{}", Some(6))]);
    assert_eq!(run(&open), Err(SceneRunError::MissingNode(6)));
    let jump = graph(
        1,
        vec![node(1, "logic/ifElse", r#"{"condition": true, "thenNode": 44}"#, None)],
    );
    assert_eq!(run(&jump), Err(SceneRunError::MissingNode(44)));
}

#[test]
fn failure_of_an_app_names_its_node() {
    let failing = graph(
        1,
        vec![
            node(1, "logic/breakIfRendering", "{}", Some(2)),
            node(2, "logic/ifElse", "{}", None),
        ],
    );
    assert_eq!(
        run(&failing),
        Err(SceneRunError::App { node_id: 2, source: AppExecutionError::MissingField("condition") })
    );
    let unknown = graph(1, vec![node(1, "no/such/app", "{}", None)]);
    assert_eq!(
        run(&unknown),
        Err(SceneRunError::App {
            node_id: 1,
            source: AppExecutionError::UnknownKeyword("no/such/app".to_string()),
        })
    );
}

#[test]
fn branch_to_zero_is_no_jump() {
    let chain = graph(
        1,
        vec![
            node(1, "logic/ifElse", r#"{"condition": true, "thenNode": 0, "elseNode": 3}"#, Some(2)),
            node(2, "logic/breakIfRendering", "{}", None),
            node(3, "logic/breakIfRendering", "{}", None),
        ],
    );
    assert_eq!(run(&chain), Ok(vec![1, 2]));
}

#[test]
fn if_else_with_a_zero_target_is_empty() {
    let mut context = AppExecutionContext::default();
    for document in [
        r#"{"condition": true, "thenNode": 0, "elseNode": 9}"#,
        r#"{"condition": true, "elseNode": 9}"#,
        r#"{"condition": true, "thenNode": "4", "elseNode": 9}"#,
        r#"{"condition": true, "thenNode": -4}"#,
        r#"{"condition": false, "thenNode": 4, "elseNode": 0}"#,
        r#"{"condition": false, "thenNode": 4}"#,
    ] {
        assert_eq!(
            execute_ported_app("logic/ifElse", &fields(document), &mut context),
            Ok(AppOutput::Empty),
            "fields {document}"
        );
    }
    assert_eq!(
        execute_ported_app(
            "logicIfElse",
            &fields(r#"{"condition": false, "thenNode": 4, "elseNode": 18446744073709551615}"#),
            &mut context
        ),
        Ok(AppOutput::BranchNode(u64::MAX))
    );
    assert_eq!(
        execute_ported_app("logic/ifElse", &fields(r#"{"condition": "true"}"#), &mut context),
        Err(AppExecutionError::MissingField("condition"))
    );
}

#[test]
fn set_as_state_takes_one_source_or_none() {
    let mut context = AppExecutionContext::default();
    context.state.insert("kept".to_string(), json("1"));
    let before = context.clone();
    assert_eq!(
        execute_ported_app(
            "logic/setAsState",
            &fields(r#"{"stateKey": "k", "valueString": "a", "valueJson": {"b": 1}}"#),
            &mut context
        ),
        Err(AppExecutionError::InvalidField {
            field: "valueString/valueJson",
            reason: "only one of valueString or valueJson can be set".to_string(),
        })
    );
    assert_eq!(context, before);
    assert_eq!(
        execute_ported_app("logic/setAsState", &fields(r#"{"stateKey": "k"}"#), &mut context),
        Ok(AppOutput::Empty)
    );
    assert_eq!(context, before);
    assert_eq!(
        execute_ported_app(
            "logic/setAsState",
            &fields(r#"{"stateKey": "k", "valueJson": null}"#),
            &mut context
        ),
        Ok(AppOutput::Empty)
    );
    assert_eq!(context, before);
    assert_eq!(
        execute_ported_app("logic/setAsState", &fields(r#"{"valueString": "a"}"#), &mut context),
        Err(AppExecutionError::MissingField("stateKey"))
    );
}

#[test]
fn set_as_state_stores_a_text_or_a_json_value() {
    let mut context = AppExecutionContext::default();
    execute_ported_app(
        "logic/setAsState",
        &fields(r#"{"stateKey": "name", "valueString": "frame"}"#),
        &mut context,
    )
    .expect("text should be stored");
    execute_ported_app(
        "logic/setAsState",
        &fields(r#"{"stateKey": "size", "valueJson": [3, 4], "valueString": null}"#),
        &mut context,
    )
    .expect("json should be stored");
    execute_ported_app(
        "logic/setAsState",
        &fields(r#"{"stateKey": "name", "valueString": "other"}"#),
        &mut context,
    )
    .expect("text should be replaced");
    assert_eq!(context.state.get("name"), Some(&JsonValue::Str("other".to_string())));
    assert_eq!(context.state.get("size"), Some(&json("[3, 4]")));
}

#[test]
fn sleep_duration_may_not_be_below_zero() {
    let mut context = AppExecutionContext::default();
    for (document, kept) in [
        (r#"{"duration": 0}"#, JsonNumber::PosInt(0)),
        (r#"{"duration": 90}"#, JsonNumber::PosInt(90)),
        (r#"{"duration": 0.25}"#, JsonNumber::Float("0.25".to_string())),
        (r#"{"duration": -0.0}"#, JsonNumber::Float("-0.0".to_string())),
    ] {
        assert_eq!(
            execute_ported_app("logic/nextSleepDuration", &fields(document), &mut context),
            Ok(AppOutput::Empty)
        );
        assert_eq!(context.next_sleep_seconds, Some(kept), "fields {document}");
    }
    for document in [r#"{"duration": -1}"#, r#"{"duration": -0.5}"#, r#"{"duration": -1e-9}"#] {
        assert_eq!(
            execute_ported_app("logic/nextSleepDuration", &fields(document), &mut context),
            Err(AppExecutionError::InvalidField {
                field: "duration",
                reason: "must be >= 0".to_string(),
            }),
            "fields {document}"
        );
    }
    assert_eq!(context.next_sleep_seconds, Some(JsonNumber::Float("-0.0".to_string())));
    assert_eq!(
        execute_ported_app("logic/nextSleepDuration", &fields(r#"{"duration": "3"}"#), &mut context),
        Err(AppExecutionError::MissingField("duration"))
    );
}

#[test]
fn busy_display_aborts_and_an_idle_one_does_not() {
    let mut context = AppExecutionContext::default();
    assert_eq!(
        execute_ported_app("logic/breakIfRendering", &JsonObject::new(), &mut context),
        Ok(AppOutput::Empty)
    );
    context.is_rendering = true;
    assert!(matches!(
        execute_ported_app("logic/breakIfRendering", &JsonObject::new(), &mut context),
        Err(AppExecutionError::Aborted(_))
    ));
}

#[test]
fn parse_json_reads_its_text_or_says_why_not() {
    let mut context = AppExecutionContext::default();
    assert_eq!(
        execute_ported_app("data/parseJson", &fields(r#"{"text": "[1, {\"a\": null}]"}"#), &mut context),
        Ok(AppOutput::Value(json(r#"[1, {"a": null}]"#)))
    );
    assert_eq!(
        execute_ported_app("data/parseJson", &fields(r#"{"text": 4}"#), &mut context),
        Err(AppExecutionError::MissingField("text"))
    );
    assert!(matches!(
        execute_ported_app("data/parseJson", &fields(r#"{"text": "{oops"}"#), &mut context),
        Err(AppExecutionError::JsonParse(_))
    ));
}

#[test]
fn pretty_json_indents_by_the_width_that_is_asked_for() {
    let mut context = AppExecutionContext::default();
    let pretty = |document: &str, context: &mut AppExecutionContext| {
        execute_ported_app("data/prettyJson", &fields(document), context)
    };
    assert_eq!(
        pretty(r#"{"json": {"hello": "world"}, "prettify": true, "ident": 2}"#, &mut context),
        Ok(AppOutput::Value(JsonValue::Str("{\n  \"hello\": \"world\"\n}".to_string())))
    );
    assert_eq!(
        pretty(r#"{"json": {"hello": [1]}, "prettify": true, "ident": 0}"#, &mut context),
        Ok(AppOutput::Value(JsonValue::Str("{\n\"hello\": [\n1\n]\n}".to_string())))
    );
    assert_eq!(
        pretty(r#"{"json": {"hello": "world"}, "prettify": false, "ident": 2}"#, &mut context),
        Ok(AppOutput::Value(JsonValue::Str("{\"hello\":\"world\"}".to_string())))
    );
    assert!(matches!(
        pretty(r#"{"json": {"hello": "world"}, "prettify": true, "ident": -1}"#, &mut context),
        Err(AppExecutionError::InvalidField { field: "ident", .. })
    ));
}
