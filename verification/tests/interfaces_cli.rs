use frameos::interfaces::{Cli, CliParseError, Command};

#[test]
fn defaults_to_run_command() {
    let cli = Cli::parse(Vec::<String>::new()).expect("cli should parse");
    assert_eq!(cli.command, Command::Run);
}

#[test]
fn rejects_flag_without_value() {
    let error = Cli::parse(vec!["--config".to_string()]).expect_err("must fail");
    assert_eq!(error, CliParseError::MissingValue("--config"));
}

#[test]
fn parses_event_log_flag() {
    let cli = Cli::parse(vec![
        "check".to_string(),
        "--event-log".to_string(),
        "./runtime.jsonl".to_string(),
    ])
    .expect("cli should parse");

    assert_eq!(cli.command, Command::Check);
    assert_eq!(cli.event_log_path, Some("./runtime.jsonl".to_string()));
}

#[test]
fn parses_parity_contract_flags() {
    let cli = Cli::parse(vec![
        "parity".to_string(),
        "--renderer-contract".to_string(),
        "./renderer.json".to_string(),
        "--driver-contract".to_string(),
        "./driver.json".to_string(),
    ])
    .expect("cli should parse");

    assert_eq!(cli.command, Command::Parity);
    assert_eq!(cli.renderer_contract_path, Some("./renderer.json".to_string()));
    assert_eq!(cli.driver_contract_path, Some("./driver.json".to_string()));
}

fn contract() -> serde_json::Value {
    let document = frameos::interfaces::command_contract_json();
    serde_json::from_str(&frameos::json::to_text(&document)).expect("contract should be json")
}

fn text(value: &str) -> serde_json::Value {
    serde_json::Value::String(value.to_string())
}

#[test]
fn contract_lists_expected_commands() {
    let contract = contract();
    let commands = contract
        .get("commands")
        .and_then(serde_json::Value::as_object)
        .expect("commands should be object");

    assert!(commands.contains_key("run"));
    assert!(commands.contains_key("check"));
    assert!(commands.contains_key("parity"));
    assert!(commands.contains_key("contract"));
}

#[test]
fn contract_includes_event_stream_envelope_and_fields() {
    let contract = contract();

    assert_eq!(contract["event_stream"]["transport"], text("websocket"));
    assert_eq!(contract["event_stream"]["path"], text("/ws/events"));
    assert_eq!(
        contract["event_stream"]["message_envelope"]["timestamp"],
        text("number")
    );
    assert!(contract["events"]["runtime:ready"]["fields"]
        .as_array()
        .expect("ready fields should be array")
        .contains(&text("health_endpoint")));
}

#[test]
fn contract_exposes_command_event_field_map() {
    let contract = contract();

    let run_ready_fields = contract["command_event_fields"]["run"]["runtime:ready"]
        .as_array()
        .expect("run runtime:ready fields should be an array");
    assert!(run_ready_fields.contains(&text("health_endpoint")));
    assert!(run_ready_fields.contains(&text("event_stream_transport")));

    let check_ok_fields = contract["command_event_fields"]["check"]["runtime:check_ok"]
        .as_array()
        .expect("check runtime:check_ok fields should be an array");
    assert!(check_ok_fields.contains(&text("apps_loaded")));

    let parity_ok_fields = contract["command_event_fields"]["parity"]["runtime:parity_ok"]
        .as_array()
        .expect("parity runtime:parity_ok fields should be an array");
    assert!(parity_ok_fields.contains(&text("shared_formats")));
    assert!(parity_ok_fields.contains(&text("renderer_target_fps")));
    assert!(parity_ok_fields.contains(&text("renderer_tick_budget_ms")));
    assert!(parity_ok_fields.contains(&text("driver_backpressure_policy")));
}

#[test]
fn contract_is_the_whole_document() {
    let document = frameos::interfaces::command_contract_json();
    let contract = document.get("commands").and_then(|commands| commands.get("contract"));
    assert_eq!(
        contract.map(frameos::json::to_text),
        Some(r#"{"description":"Print the runtime CLI/event contract as JSON.","flags":[]}"#.to_string())
    );
    let heartbeat = document.get("events").and_then(|events| events.get("runtime:heartbeat"));
    assert_eq!(
        heartbeat.map(frameos::json::to_text),
        Some(r#"{"fields":["uptime_seconds","server"],"level":"debug"}"#.to_string())
    );
    let e2e = document.get("command_event_fields").and_then(|fields| fields.get("e2e"));
    assert_eq!(
        e2e.map(frameos::json::to_text),
        Some(
            [
                r#"{"runtime:e2e_failed":["scenes_checked","scenes_failed","max_diff","failing_scenes"],"#,
                r#""runtime:e2e_ok":["scenes_checked","scenes_failed","max_diff"]}"#,
            ]
            .join("")
        )
    );
}
