use sidecar_supervisor::errors::SidecarError;
use sidecar_supervisor::manager::SidecarManager;
use sidecar_supervisor::rpc::classify_frame;
use sidecar_supervisor::rpc::correlate_frames;
use sidecar_supervisor::rpc::FrameAction;
use sidecar_supervisor::rpc::FrameEvent;
use sidecar_supervisor::wire::encode_request;
use sidecar_supervisor::wire::u16_to_string;
use sidecar_supervisor::wire::ws_url_text;

fn reply_text(id: &str, result: &str) -> String {
    format!("{{\"jsonrpc\":\"2.0\",\"id\":\"{}\",\"result\":\"{}\"}}", id, result)
}

#[test]
fn decimal_rendering_is_exact() {
    assert_eq!(u16_to_string(0), "0");
    assert_eq!(u16_to_string(7), "7");
    assert_eq!(u16_to_string(9000), "9000");
    assert_eq!(u16_to_string(19000), "19000");
    assert_eq!(u16_to_string(65535), "65535");
}

#[test]
fn request_frame_is_exact() {
    let text = encode_request("ping", "{}", "abc-123");
    assert_eq!(
        text,
        "{\"jsonrpc\":\"2.0\",\"method\":\"ping\",\"params\":{},\"id\":\"abc-123\"}"
    );
}

#[test]
fn request_frame_escapes_method_and_id() {
    let text = encode_request("a\"b\\c\nd", "[1,2]", "i\td");
    assert_eq!(
        text,
        "{\"jsonrpc\":\"2.0\",\"method\":\"a\\\"b\\\\c\\u000ad\",\"params\":[1,2],\"id\":\"i\\u0009d\"}"
    );
}

#[test]
fn request_frame_parses_back_as_json() {
    let text = encode_request("do\"thing", "{\"x\":1}", "id-1");
    let v: serde_json::Value = serde_json::from_str(&text).unwrap();
    assert_eq!(v.get("jsonrpc").and_then(|x| x.as_str()), Some("2.0"));
    assert_eq!(v.get("method").and_then(|x| x.as_str()), Some("do\"thing"));
    assert_eq!(v.get("id").and_then(|x| x.as_str()), Some("id-1"));
    assert_eq!(
        v.get("params").and_then(|x| x.get("x")).and_then(|x| x.as_i64()),
        Some(1)
    );
}

#[test]
fn ws_url_names_loopback_and_port() {
    assert_eq!(ws_url_text(9123), "ws://127.0.0.1:9123");
}

#[test]
fn correlate_returns_matching_payload() {
    let frames = vec![FrameEvent::Text(reply_text("id-7", "ok"))];
    let reply = correlate_frames(&frames, "id-7").unwrap();
    assert_eq!(reply.raw, reply_text("id-7", "ok"));
    let expected: serde_json::Value = serde_json::from_str(&reply_text("id-7", "ok")).unwrap();
    assert_eq!(reply.value, expected);
}

#[test]
fn correlate_discards_unrelated_ids_first() {
    let frames = vec![
        FrameEvent::Text(reply_text("someone-else", "nope")),
        FrameEvent::Other,
        FrameEvent::Text(reply_text("id-7", "ok")),
    ];
    let reply = correlate_frames(&frames, "id-7").unwrap();
    assert_eq!(reply.raw, reply_text("id-7", "ok"));
    let expected: serde_json::Value = serde_json::from_str(&reply_text("id-7", "ok")).unwrap();
    assert_eq!(reply.value, expected);
}

#[test]
fn correlate_fails_closed_without_matching_id() {
    let frames = vec![
        FrameEvent::Text(reply_text("someone-else", "nope")),
        FrameEvent::Close,
        FrameEvent::Text(reply_text("id-7", "too-late")),
    ];
    let err = correlate_frames(&frames, "id-7").unwrap_err();
    assert_eq!(err, SidecarError::ConnectionClosed);
}

#[test]
fn correlate_fails_closed_when_stream_ends() {
    let frames: Vec<FrameEvent> = Vec::new();
    let err = correlate_frames(&frames, "id-7").unwrap_err();
    assert_eq!(err, SidecarError::ConnectionClosed);
}

#[test]
fn correlate_fails_on_malformed_frame() {
    let frames = vec![FrameEvent::Text("this is not json".to_string())];
    let err = correlate_frames(&frames, "id-7").unwrap_err();
    assert_eq!(err, SidecarError::ProtocolError);
}

#[test]
fn classify_discards_reply_without_string_id() {
    let frame = FrameEvent::Text("{\"jsonrpc\":\"2.0\",\"id\":7,\"result\":\"ok\"}".to_string());
    assert!(matches!(classify_frame(&frame, "7"), FrameAction::Discard));
    let frame = FrameEvent::Text("{\"jsonrpc\":\"2.0\",\"result\":\"ok\"}".to_string());
    assert!(matches!(classify_frame(&frame, "7"), FrameAction::Discard));
}

#[test]
fn prepare_command_plans_a_call() {
    let mut m = SidecarManager::new();
    m.register_sidecar("w1", "/tmp/v1".to_string(), 9000);
    let plan = m.prepare_command("w1", "ping", "{}").unwrap();
    assert_eq!(plan.ws_port, 9000);
    assert_eq!(plan.ws_url, "ws://127.0.0.1:9000/");
    assert_eq!(plan.request_id.len(), 36);
    assert!(plan
        .request_id
        .chars()
        .all(|c| c == '-' || c.is_ascii_digit() || ('a'..='f').contains(&c)));
    let v: serde_json::Value = serde_json::from_str(&plan.request_text).unwrap();
    assert_eq!(v.get("jsonrpc").and_then(|x| x.as_str()), Some("2.0"));
    assert_eq!(v.get("method").and_then(|x| x.as_str()), Some("ping"));
    assert_eq!(
        v.get("id").and_then(|x| x.as_str()),
        Some(plan.request_id.as_str())
    );
    // Two plans never share a correlation id.
    let again = m.prepare_command("w1", "ping", "{}").unwrap();
    assert_ne!(plan.request_id, again.request_id);
}

#[test]
fn prepare_command_unknown_session_fails() {
    let m = SidecarManager::new();
    let err = m.prepare_command("w1", "ping", "{}").unwrap_err();
    assert_eq!(err, SidecarError::SessionNotFound);
}

#[test]
fn prepare_command_json_serializes_params() {
    let mut m = SidecarManager::new();
    m.register_sidecar("w1", "/tmp/v1".to_string(), 9000);
    let mut obj = serde_json::Map::new();
    obj.insert("x".to_string(), serde_json::Value::from(1));
    let params = serde_json::Value::Object(obj);
    let plan = m.prepare_command_json("w1", "ping", &params).unwrap();
    let v: serde_json::Value = serde_json::from_str(&plan.request_text).unwrap();
    assert_eq!(v.get("params"), Some(&params));
}

#[test]
fn end_to_end_spawn_call_terminate() {
    let mut m = SidecarManager::new();

    // Spawn session "w1" for vault /tmp/v1: allocate a port (the
    // shell's probe finds the first candidate free), then record the
    // session.
    let port = m.allocate_port(&vec![true]).unwrap();
    assert!((9000..=19000).contains(&port));
    assert!(m.register_sidecar("w1", "/tmp/v1".to_string(), port).is_none());

    // Call method "ping" with params {}.
    let plan = m.prepare_command("w1", "ping", "{}").unwrap();
    assert_eq!(plan.ws_port, port);

    // The worker stub replies with the matching id and "pong".
    let stub_reply = reply_text(&plan.request_id, "pong");
    let frames = vec![FrameEvent::Text(stub_reply.clone())];
    let reply = correlate_frames(&frames, &plan.request_id).unwrap();
    let expected: serde_json::Value = serde_json::from_str(&stub_reply).unwrap();
    assert_eq!(reply.value, expected);

    // Terminate the session; a later call fails with SessionNotFound.
    assert!(m.terminate_sidecar("w1").is_some());
    let err = m.prepare_command("w1", "ping", "{}").unwrap_err();
    assert_eq!(err, SidecarError::SessionNotFound);
}
