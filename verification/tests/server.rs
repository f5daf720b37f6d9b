use frameos::config::FrameOSConfig;
use frameos::server::{
    read_client_frame, write_ws_control_frame, write_ws_text_frame, ClientFrame, FrameRead, Server,
};

#[test]
fn bind_addr_falls_back_to_loopback_when_host_missing() {
    let mut config = FrameOSConfig::default();
    config.server_host = String::new();
    config.server_port = 8989;
    let server = Server::from_config(&config);

    assert_eq!(server.bind_addr(), "127.0.0.1:8989");
}

#[test]
fn event_fanout_tracks_publish_counts() {
    let mut fanout = frameos::server::EventFanout::new();
    fanout.publish("runtime:start");
    let payload = fanout.publish_with_fields(
        "runtime:ready",
        frameos::json::parse_json("1700000000.5").unwrap(),
        frameos::json::parse_json(r#"{"server": "127.0.0.1:8787"}"#).unwrap(),
    );

    assert_eq!(fanout.published_total(), 2);
    assert_eq!(
        fanout.recent_events(),
        vec!["runtime:start", "runtime:ready"]
    );
    assert_eq!(
        payload,
        r#"{"event":"runtime:ready","fields":{"server":"127.0.0.1:8787"},"timestamp":1700000000.5}"#
    );
}

#[test]
fn event_history_keeps_the_latest_names() {
    let mut fanout = frameos::server::EventFanout::new();
    for i in 0..300 {
        fanout.publish(&format!("event:{i}"));
    }
    let recent = fanout.recent_events();
    assert_eq!(recent.len(), 256);
    assert_eq!(recent[0], "event:44");
    assert_eq!(recent[255], "event:299");
    assert_eq!(fanout.published_total(), 300);
}

#[test]
fn clients_are_counted_while_they_listen() {
    let mut fanout = frameos::server::EventFanout::new();
    let first = fanout.register_websocket_client();
    let second = fanout.register_websocket_client();
    assert_eq!((first, second), (0, 1));
    assert_eq!(fanout.websocket_client_count(), 2);
    fanout.drop_websocket_client(first);
    assert_eq!(fanout.websocket_client_count(), 1);
    fanout.drop_websocket_client(7);
    assert_eq!(fanout.websocket_client_count(), 1);
}

#[test]
fn accept_key_is_that_of_the_protocol() {
    assert_eq!(
        frameos::server::websocket_accept_key("dGhlIHNhbXBsZSBub25jZQ=="),
        "s3pPLMBiTxaQ9kYGzzhZRbK+xOo="
    );
}

#[test]
fn endpoint_joins_host_and_port() {
    let mut config = FrameOSConfig::default();
    config.server_host = "frame.local".to_string();
    config.server_port = 8989;
    let server = Server::from_config(&config);
    assert_eq!(server.endpoint(), "frame.local:8989");
    assert_eq!(server.bind_addr(), "frame.local:8989");
}

#[test]
fn client_frames_are_read_and_unmasked() {
    let mask = [0x11u8, 0x22, 0x33, 0x44];
    let payload = b"hello";
    let mut frame = vec![0x80 | 0x9, 0x80 | (payload.len() as u8)];
    frame.extend_from_slice(&mask);
    for (index, byte) in payload.iter().enumerate() {
        frame.push(*byte ^ mask[index % 4]);
    }
    frame.push(0xAA);
    assert_eq!(
        read_client_frame(&frame),
        FrameRead::Frame(
            ClientFrame { fin: true, opcode: 0x9, payload: payload.to_vec() },
            11
        )
    );
    assert_eq!(read_client_frame(&frame[..8].to_vec()), FrameRead::Incomplete);
    assert_eq!(read_client_frame(&vec![0x81]), FrameRead::Incomplete);
    assert_eq!(
        read_client_frame(&vec![0x81, 0x05, 1, 2, 3, 4, 5]),
        FrameRead::Invalid("client frames must be masked")
    );
    assert_eq!(
        read_client_frame(&vec![0x81, 0xFF, 0, 0, 0, 0]),
        FrameRead::Invalid("unsupported websocket frame size")
    );
    let mut long = vec![0x82, 0x80 | 126, 0x01, 0x00, 0, 0, 0, 0];
    long.extend(std::iter::repeat(7u8).take(256));
    match read_client_frame(&long) {
        FrameRead::Frame(frame, taken) => {
            assert_eq!(frame.payload.len(), 256);
            assert_eq!(frame.opcode, 2);
            assert_eq!(taken, 8 + 256);
        }
        other => panic!("expected a frame, got {other:?}"),
    }
}

#[test]
fn server_frames_hold_125_bytes_at_most() {
    assert_eq!(
        write_ws_control_frame(0xA, &vec![1, 2, 3]),
        Some(vec![0x8A, 3, 1, 2, 3])
    );
    assert_eq!(write_ws_control_frame(0x1A, &vec![]), Some(vec![0x8A, 0]));
    assert_eq!(write_ws_control_frame(0x1, &vec![0; 126]), None);
    assert_eq!(write_ws_text_frame("hi"), Some(vec![0x81, 2, b'h', b'i']));
}

fn health_of(running: bool) -> frameos::json::JsonValue {
    let mut fanout = frameos::server::EventFanout::new();
    fanout.publish("runtime:start");
    fanout.register_websocket_client();
    let state = frameos::server::HealthState {
        running,
        server_time: frameos::json::parse_json("1700000001.25").unwrap(),
        started_at: frameos::json::parse_json("1700000000.5").unwrap(),
        heartbeats: 3,
        metrics_ticks: 1,
        snapshot: frameos::server::ServerHealthSnapshot {
            apps_loaded: 2,
            scenes_loaded: 4,
            metrics_interval_seconds: 60,
        },
    };
    frameos::server::health_payload(&state, &fanout)
}

#[test]
fn health_report_lists_state_and_event_stream() {
    assert_eq!(
        frameos::json::to_text(&health_of(true)),
        [
            r#"{"apps_loaded":2,"event_stream":{"connected_clients":1,"path":"/ws/events","#,
            r#""published_total":1,"recent_events":["runtime:start"],"transport":"websocket"},"#,
            r#""heartbeats":3,"metrics_interval_seconds":60,"metrics_ticks":1,"scenes_loaded":4,"#,
            r#""server_time":1700000001.25,"started_at":1700000000.5,"status":"ok"}"#,
        ]
        .join("")
    );
    let stopping = health_of(false);
    assert_eq!(stopping.get("status").and_then(|status| status.as_str()), Some("stopping"));
}

#[test]
fn health_request_is_answered_with_the_report() {
    let report = frameos::json::parse_json(r#"{"status":"ok"}"#).unwrap();
    for line in ["GET /healthz HTTP/1.1\r\n", "GET /health HTTP/1.1\r\n"] {
        assert_eq!(
            frameos::server::answer_request(line, &vec!["Host: frame\r\n".to_string()], &report),
            frameos::server::RequestAnswer::Respond(
                "HTTP/1.1 200 OK\r\nContent-Type: application/json\r\nContent-Length: 15\r\nConnection: close\r\n\r\n{\"status\":\"ok\"}"
                    .to_string()
            )
        );
    }
}

#[test]
fn response_announces_the_length_of_its_body_in_bytes() {
    assert_eq!(
        frameos::server::http_response("200 OK", "text/plain", "grüß"),
        "HTTP/1.1 200 OK\r\nContent-Type: text/plain\r\nContent-Length: 6\r\nConnection: close\r\n\r\ngrüß"
    );
}

#[test]
fn handshake_is_accepted_with_the_answer_to_its_key() {
    let report = frameos::json::parse_json("{}").unwrap();
    let lines = vec![
        "Host: frame\r\n".to_string(),
        "UPGRADE: WebSocket\r\n".to_string(),
        "sec-websocket-KEY:  dGhlIHNhbXBsZSBub25jZQ==  \r\n".to_string(),
    ];
    assert_eq!(
        frameos::server::answer_request("GET /ws/events HTTP/1.1\r\n", &lines, &report),
        frameos::server::RequestAnswer::Upgrade(
            "HTTP/1.1 101 Switching Protocols\r\nUpgrade: websocket\r\nConnection: Upgrade\r\nSec-WebSocket-Accept: s3pPLMBiTxaQ9kYGzzhZRbK+xOo=\r\n\r\n"
                .to_string()
        )
    );
}

#[test]
fn handshake_takes_the_last_key_and_fails_without_one() {
    let report = frameos::json::parse_json("{}").unwrap();
    let without = vec!["Upgrade: websocket\r\n".to_string()];
    assert_eq!(
        frameos::server::answer_request("GET /ws/events HTTP/1.1\r\n", &without, &report),
        frameos::server::RequestAnswer::MissingKey
    );
    let twice = vec![
        "Upgrade: websocket\r\n".to_string(),
        "Sec-WebSocket-Key: first\r\n".to_string(),
        "Sec-WebSocket-Key: dGhlIHNhbXBsZSBub25jZQ==\r\n".to_string(),
    ];
    match frameos::server::answer_request("GET /ws/events HTTP/1.1\r\n", &twice, &report) {
        frameos::server::RequestAnswer::Upgrade(response) => {
            assert!(response.contains("Sec-WebSocket-Accept: s3pPLMBiTxaQ9kYGzzhZRbK+xOo=\r\n"))
        }
        other => panic!("expected an upgrade, got {other:?}"),
    }
}

#[test]
fn other_requests_find_nothing() {
    let report = frameos::json::parse_json("{}").unwrap();
    let not_found = frameos::server::RequestAnswer::Respond(
        "HTTP/1.1 404 Not Found\r\nContent-Type: application/json\r\nContent-Length: 21\r\nConnection: close\r\n\r\n{\"error\":\"not_found\"}"
            .to_string(),
    );
    let key = vec!["Sec-WebSocket-Key: dGhlIHNhbXBsZSBub25jZQ==\r\n".to_string()];
    assert_eq!(
        frameos::server::answer_request("GET /ws/events HTTP/1.1\r\n", &key, &report),
        not_found
    );
    assert_eq!(frameos::server::answer_request("POST /healthz HTTP/1.1\r\n", &key, &report), not_found);
    assert_eq!(frameos::server::answer_request("GET /healthz/ HTTP/1.1\r\n", &key, &report), not_found);
    assert_eq!(frameos::server::answer_request("", &Vec::new(), &report), not_found);
}

#[test]
fn control_frames_are_answered_in_kind() {
    let ping = ClientFrame { fin: true, opcode: 0x9, payload: b"abc".to_vec() };
    assert_eq!(
        frameos::server::answer_frame(&ping),
        frameos::server::FrameAnswer::Pong(Some(vec![0x8A, 3, b'a', b'b', b'c']))
    );
    let long = ClientFrame { fin: true, opcode: 0x9, payload: vec![0; 126] };
    assert_eq!(frameos::server::answer_frame(&long), frameos::server::FrameAnswer::Pong(None));
    let close = ClientFrame { fin: true, opcode: 0x8, payload: vec![3, 232] };
    assert_eq!(
        frameos::server::answer_frame(&close),
        frameos::server::FrameAnswer::Close(Some(vec![0x88, 0]))
    );
    let part = ClientFrame { fin: false, opcode: 0x1, payload: b"he".to_vec() };
    assert_eq!(frameos::server::answer_frame(&part), frameos::server::FrameAnswer::Fragmented);
    let text = ClientFrame { fin: true, opcode: 0x1, payload: b"hello".to_vec() };
    assert_eq!(frameos::server::answer_frame(&text), frameos::server::FrameAnswer::Ignore);
}
