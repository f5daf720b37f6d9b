use frameos::config::FrameOSConfig;
use frameos::runtime::{Runtime, RuntimeEvent, TickState};

fn test_config() -> FrameOSConfig {
    let mut config = FrameOSConfig::default();
    config.server_host = "127.0.0.1".to_string();
    config.server_port = 0;
    config
}

const MILLISECOND: u64 = 1_000_000;
const SECOND: u64 = 1_000_000_000;

#[test]
fn start_completes_for_scaffolding_mode() {
    let runtime = Runtime::new(test_config());
    let events = runtime.start();
    assert_eq!(
        events,
        vec![RuntimeEvent::Start, RuntimeEvent::Ready, RuntimeEvent::Stop]
    );
}

#[test]
fn tick_state_reports_heartbeat_at_one_second_boundary() {
    let now = 5 * SECOND;
    let tick_state = TickState::new(now);

    assert!(!tick_state.should_emit_heartbeat(now + 900 * MILLISECOND));
    assert!(tick_state.should_emit_heartbeat(now + SECOND));
}

#[test]
fn tick_state_reports_metrics_on_interval() {
    let now = 5 * SECOND;
    let tick_state = TickState::new(now);
    let interval = 5 * SECOND;

    assert!(!tick_state.should_emit_metrics_tick(now + 4 * SECOND, interval));
    assert!(tick_state.should_emit_metrics_tick(now + 5 * SECOND, interval));
}

#[test]
fn run_reports_what_falls_due_at_each_turn() {
    let mut config = test_config();
    config.metrics_interval_seconds = 2;
    let runtime = Runtime::new(config);
    let ticks = vec![SECOND / 2, SECOND, 2 * SECOND, 2 * SECOND + 1, 4 * SECOND];
    let events = runtime.run_until_stopped(0, &ticks);
    assert_eq!(
        events,
        vec![
            RuntimeEvent::Start,
            RuntimeEvent::Ready,
            RuntimeEvent::Heartbeat,
            RuntimeEvent::Heartbeat,
            RuntimeEvent::MetricsTick,
            RuntimeEvent::Heartbeat,
            RuntimeEvent::MetricsTick,
            RuntimeEvent::Stop,
        ]
    );
}

#[test]
fn a_clock_that_ran_backwards_makes_nothing_due() {
    let state = TickState::new(10 * SECOND);
    assert!(!state.should_emit_heartbeat(3 * SECOND));
    assert!(!state.should_emit_metrics_tick(3 * SECOND, SECOND));
}

#[test]
fn metrics_interval_is_a_second_at_least() {
    let mut config = test_config();
    config.metrics_interval_seconds = 0;
    assert_eq!(Runtime::new(config).metrics_interval(), SECOND);
    let mut config = test_config();
    config.metrics_interval_seconds = 60;
    assert_eq!(Runtime::new(config).metrics_interval(), 60 * SECOND);
    let mut config = test_config();
    config.metrics_interval_seconds = u64::MAX;
    assert_eq!(Runtime::new(config).metrics_interval(), u64::MAX);
}

#[test]
fn event_names_are_those_of_the_event_stream() {
    assert_eq!(RuntimeEvent::Start.name(), "runtime:start");
    assert_eq!(RuntimeEvent::Ready.name(), "runtime:ready");
    assert_eq!(RuntimeEvent::Heartbeat.name(), "runtime:heartbeat");
    assert_eq!(RuntimeEvent::MetricsTick.name(), "runtime:metrics_tick");
    assert_eq!(RuntimeEvent::Stop.name(), "runtime:stop");
}

fn loaded_runtime() -> Runtime {
    let mut config = FrameOSConfig::default();
    config.name = "Hall".to_string();
    config.server_host = "0.0.0.0".to_string();
    config.metrics_interval_seconds = 30;
    let scene = frameos::models::SceneDescriptor {
        id: "clock/default".to_string(),
        app_id: "clock".to_string(),
        version: "1.0.0".to_string(),
        source: frameos::models::SceneSource::InlineJson,
        metadata: Vec::new(),
    };
    Runtime::new(config).with_scene_manifest(vec![scene]).expect("scenes should load")
}

#[test]
fn events_of_a_run_say_where_it_serves_and_what_it_has_loaded() {
    let runtime = loaded_runtime();
    let load = r#""apps_loaded":0,"event":"runtime:check_ok","metrics_interval_seconds":30,"scenes_loaded":1,"server":"0.0.0.0:8989""#;
    assert_eq!(frameos::json::to_text(&runtime.check_event()), format!("{{{load}}}"));
    assert_eq!(
        frameos::json::to_text(&runtime.stop_event()),
        r#"{"apps_loaded":0,"event":"runtime:stop","metrics_interval_seconds":30,"scenes_loaded":1,"server":"0.0.0.0:8989"}"#
    );
    assert_eq!(
        frameos::json::to_text(&runtime.ready_event("127.0.0.1:4000")),
        [
            r#"{"apps_loaded":0,"event":"runtime:ready","event_stream_transport":"websocket_stub","#,
            r#""health_endpoint":"http://127.0.0.1:4000/healthz","metrics_interval_seconds":30,"#,
            r#""scenes_loaded":1,"server":"0.0.0.0:8989"}"#,
        ]
        .join("")
    );
}

#[test]
fn start_event_shows_the_configuration() {
    assert_eq!(
        frameos::json::to_text(&loaded_runtime().start_event()),
        [
            r#"{"config":{"assets_path":"/srv/assets","device":"web_only","frame_host":"localhost","#,
            r#""frame_port":8787,"height":1080,"mode":"rpios","name":"Hall","server_host":"0.0.0.0","#,
            r#""server_port":8989,"width":1920},"event":"runtime:start"}"#,
        ]
        .join("")
    );
}

#[test]
fn only_heartbeats_and_metrics_fall_due_at_a_turn() {
    let runtime = loaded_runtime();
    let uptime = || frameos::json::parse_json("12.5").unwrap();
    assert_eq!(
        runtime.due_event(RuntimeEvent::Heartbeat, uptime()).map(|event| frameos::json::to_text(&event)),
        Some(r#"{"event":"runtime:heartbeat","server":"0.0.0.0:8989","uptime_seconds":12.5}"#.to_string())
    );
    assert_eq!(
        runtime.due_event(RuntimeEvent::MetricsTick, uptime()).map(|event| frameos::json::to_text(&event)),
        Some(
            r#"{"apps_loaded":0,"event":"runtime:metrics_tick","metrics_interval_seconds":30,"scenes_loaded":1,"uptime_seconds":12.5}"#
                .to_string()
        )
    );
    for other in [RuntimeEvent::Start, RuntimeEvent::Ready, RuntimeEvent::Stop] {
        assert_eq!(runtime.due_event(other, uptime()), None);
    }
}

#[test]
fn failed_check_says_why() {
    let error = frameos::runtime::RuntimeError::Config(frameos::config::ConfigError::ValidationFailed(
        "width and height must be positive".to_string(),
    ));
    assert_eq!(
        frameos::json::to_text(&frameos::runtime::check_failed_event(&error)),
        r#"{"error":"config error: invalid config: width and height must be positive","event":"runtime:check_failed"}"#
    );
    assert_eq!(
        frameos::runtime::RuntimeError::Io("bind failed".to_string()).message(),
        "runtime io error: bind failed"
    );
}

#[test]
fn events_carry_the_fields_that_the_contract_document_lists() {
    let document = frameos::interfaces::command_contract_json();
    let runtime = loaded_runtime();
    let uptime = frameos::json::parse_json("1").unwrap();
    let events = vec![
        runtime.check_event(),
        runtime.ready_event("127.0.0.1:4000"),
        runtime.stop_event(),
        runtime.due_event(RuntimeEvent::Heartbeat, uptime.clone()).unwrap(),
        runtime.due_event(RuntimeEvent::MetricsTick, uptime).unwrap(),
    ];
    for event in events {
        let name = event.get("event").and_then(|name| name.as_str()).expect("event name");
        let listed = document
            .get("events")
            .and_then(|events| events.get(name))
            .and_then(|entry| entry.get("fields"))
            .and_then(|fields| fields.as_array())
            .expect("event should be listed");
        let mut expected: Vec<&str> = listed.iter().filter_map(|field| field.as_str()).collect();
        expected.push("event");
        expected.sort();
        let members = event.as_object().expect("event should be an object");
        let mut carried: Vec<&str> = members.entries.iter().map(|entry| entry.key.as_str()).collect();
        carried.sort();
        assert_eq!(carried, expected, "event {name}");
    }
}
