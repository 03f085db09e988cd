use moonbridge::json::{Json, JsonNum};
use moonbridge::plugin::convert::{apply_table_to_message, message_table_of, parse_raw_action};
use moonbridge::protocol::ir::Protocol;
use moonbridge::protocol::raw::{RawBody, RawMessage, RawStage, RawVerdict};

fn message(stage: RawStage, session: Option<&str>) -> RawMessage {
    RawMessage {
        stage,
        protocol: Protocol::OpenAiChat,
        provider: None,
        method: Some("POST".to_string()),
        url: Some("/v1/chat/completions".to_string()),
        status: None,
        headers: vec![("x-opencode-session".to_string(), "oc-abc".to_string())],
        body: RawBody::Text { text: "hello".to_string() },
        session_id: session.map(|s| s.to_string()),
    }
}

fn with_field(t: &Json, k: &str, v: Option<Json>) -> Json {
    match t {
        Json::Object(fs) => {
            let mut out: Vec<(String, Json)> =
                fs.iter().filter(|(n, _)| n != k).map(|(n, x)| (n.clone(), x.deep_clone())).collect();
            if let Some(v) = v {
                out.push((k.to_string(), v));
            }
            Json::Object(out)
        }
        _ => panic!("table is an object"),
    }
}

#[test]
fn client_request_hook_sets_session_id() {
    let mut m = message(RawStage::ClientRequest, None);
    let t = message_table_of(&m, 1024);
    let t = with_field(&t, "session_id", Some(Json::Str("oc-abc".to_string())));
    apply_table_to_message(&t, &mut m).unwrap();
    assert_eq!(m.session_id.as_deref(), Some("oc-abc"));
}

#[test]
fn client_request_hook_clears_session_id() {
    let mut m = message(RawStage::ClientRequest, Some("host-sid"));
    let t = message_table_of(&m, 1024);
    assert_eq!(t.get_str("session_id"), Some("host-sid"));
    let t = with_field(&t, "session_id", None);
    apply_table_to_message(&t, &mut m).unwrap();
    assert!(m.session_id.is_none());
}

#[test]
fn untouched_table_keeps_session_id() {
    let mut m = message(RawStage::ClientRequest, Some("host-sid"));
    let t = message_table_of(&m, 1024);
    apply_table_to_message(&t, &mut m).unwrap();
    assert_eq!(m.session_id.as_deref(), Some("host-sid"));
    assert_eq!(m.url.as_deref(), Some("/v1/chat/completions"));
    assert_eq!(m.body, RawBody::Text { text: "hello".to_string() });
}

#[test]
fn other_stages_keep_session_id() {
    for stage in [RawStage::UpstreamRequest, RawStage::UpstreamResponse, RawStage::ClientResponse] {
        let mut m = message(stage, Some("host-sid"));
        let t = message_table_of(&m, 1024);
        let t = with_field(&t, "session_id", Some(Json::Str("other".to_string())));
        apply_table_to_message(&t, &mut m).unwrap();
        assert_eq!(m.session_id.as_deref(), Some("host-sid"));
        let t2 = with_field(&message_table_of(&m, 1024), "session_id", None);
        apply_table_to_message(&t2, &mut m).unwrap();
        assert_eq!(m.session_id.as_deref(), Some("host-sid"));
    }
}

fn obj(fs: Vec<(&str, Json)>) -> Json {
    Json::Object(fs.into_iter().map(|(k, v)| (k.to_string(), v)).collect())
}

#[test]
fn hook_values_read_as_lua_reads_them() {

    // A number where a string is wanted reads as its text.
    let abort = obj(vec![("action", Json::Str("abort".into())), ("message", Json::Num(JsonNum::PosInt(42)))]);
    match parse_raw_action(&abort).unwrap() {
        Some(RawVerdict::Abort { message }) => assert_eq!(message, "42"),
        _ => panic!("expected an abort"),
    }
    // A numeric string or a float where a status is wanted reads as its whole part.
    for status in [Json::Str("429".into()), Json::Num(JsonNum::Float("429.0".into())), Json::Str("429.7".into())] {
        let sc = obj(vec![("action", Json::Str("short_circuit".into())), ("status", status)]);
        match parse_raw_action(&sc).unwrap() {
            Some(RawVerdict::ShortCircuit { status, .. }) => assert_eq!(status, 429),
            _ => panic!("expected a short circuit"),
        }
    }
    // Not a number: the field's error.
    let bad = obj(vec![("action", Json::Str("short_circuit".into())), ("status", Json::Str("soon".into()))]);
    assert!(parse_raw_action(&bad).is_err());

    // Any value other than false or nil is a true flag.
    let mut m = message(RawStage::UpstreamResponse, None);
    let t = with_field(&message_table_of(&m, 1024), "body_truncated", Some(Json::Str("yes".into())));
    let t = with_field(&t, "body", None);
    apply_table_to_message(&t, &mut m).unwrap();
    assert_eq!(m.body, RawBody::Text { text: "hello".to_string() });
}
