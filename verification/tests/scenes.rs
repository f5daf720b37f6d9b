use frameos::apps::{AppExecutionContext, AppOutput};
use frameos::json::{parse_json, JsonNumber, JsonObject, JsonValue};
use frameos::scenes::{SceneGraph, SceneNode, SceneRunError};

fn json(text: &str) -> JsonValue {
    parse_json(text).expect("test value should be json")
}

fn text(value: &str) -> JsonValue {
    JsonValue::Str(value.to_string())
}

fn fields(members: Vec<(&str, JsonValue)>) -> JsonObject {
    let mut object = JsonObject::new();
    for (key, value) in members {
        object.insert(key.to_string(), value);
    }
    object
}

#[test]
fn scene_graph_runs_linear_chain_and_mutates_state() {
    let set_state_fields = fields(vec![("stateKey", text("payload")), ("valueString", text("ok"))]);
    let sleep_fields = fields(vec![("duration", json("2.5"))]);

    let graph = SceneGraph {
        id: "demo/linear".to_string(),
        entry_node: 1,
        nodes: vec![
            SceneNode {
                id: 1,
                keyword: "logic/setAsState".to_string(),
                fields: set_state_fields,
                next_node: Some(2),
            },
            SceneNode {
                id: 2,
                keyword: "logic/nextSleepDuration".to_string(),
                fields: sleep_fields,
                next_node: None,
            },
        ],
    };

    let report = graph
        .run(AppExecutionContext::default())
        .expect("scene graph should execute");

    assert_eq!(report.visited_nodes, vec![1, 2]);
    assert_eq!(report.outputs, vec![AppOutput::Empty, AppOutput::Empty]);
    assert_eq!(report.context.state.get("payload"), Some(&text("ok")));
    assert_eq!(
        report.context.next_sleep_seconds,
        Some(JsonNumber::Float("2.5".to_string()))
    );
}

#[test]
fn scene_graph_uses_branch_output_as_next_node() {
    let branch_fields = fields(vec![
        ("condition", JsonValue::Bool(true)),
        ("thenNode", json("3")),
        ("elseNode", json("2")),
    ]);
    let parse_fields = fields(vec![("text", text("{\"selected\": true}"))]);

    let graph = SceneGraph {
        id: "demo/branch".to_string(),
        entry_node: 1,
        nodes: vec![
            SceneNode {
                id: 1,
                keyword: "logic/ifElse".to_string(),
                fields: branch_fields,
                next_node: Some(2),
            },
            SceneNode {
                id: 2,
                keyword: "logic/breakIfRendering".to_string(),
                fields: JsonObject::new(),
                next_node: None,
            },
            SceneNode {
                id: 3,
                keyword: "data/parseJson".to_string(),
                fields: parse_fields,
                next_node: None,
            },
        ],
    };

    let report = graph
        .run(AppExecutionContext::default())
        .expect("scene graph should execute");

    assert_eq!(report.visited_nodes, vec![1, 3]);
    assert_eq!(
        report.outputs,
        vec![
            AppOutput::BranchNode(3),
            AppOutput::Value(json(r#"{"selected": true}"#)),
        ]
    );
}

#[test]
fn scene_graph_rejects_cycles() {
    let graph = SceneGraph {
        id: "demo/cycle".to_string(),
        entry_node: 1,
        nodes: vec![SceneNode {
            id: 1,
            keyword: "logic/breakIfRendering".to_string(),
            fields: JsonObject::new(),
            next_node: Some(1),
        }],
    };

    let error = graph
        .run(AppExecutionContext::default())
        .expect_err("cycle should be rejected");
    assert_eq!(error, SceneRunError::LoopDetected { node_id: 1 });
}
