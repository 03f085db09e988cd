use moonbridge::json::{Json, JsonNum};
use moonbridge::protocol::adapters::AnthropicAdapter;
use moonbridge::protocol::context::ReqCtx;
use moonbridge::protocol::ir::{ContentBlock, CoreStreamEvent, Protocol, StopReason, StreamDelta, Usage};
use moonbridge::protocol::raw::{ChunkStage, RawBody, RawChunk};
use moonbridge::protocol::stream_state::StreamEncodeState;

fn s(x: &str) -> Json {
    Json::Str(x.to_string())
}

fn num(u: u64) -> Json {
    Json::Num(JsonNum::PosInt(u))
}

fn obj(fs: Vec<(&str, Json)>) -> Json {
    Json::Object(fs.into_iter().map(|(k, v)| (k.to_string(), v)).collect())
}

fn key<'a>(j: &'a Json, k: &str) -> &'a Json {
    j.get(k).unwrap_or_else(|| panic!("no member {k}"))
}

fn chunk(v: Json) -> RawChunk {
    RawChunk::json(ChunkStage::UpstreamChunk, Protocol::Anthropic, None, v)
}

fn ctx() -> ReqCtx {
    let mut c = ReqCtx::new("r1".to_string(), Protocol::Anthropic);
    c.model_alias = "m".to_string();
    c
}

fn data_of(c: &RawChunk) -> &Json {
    let RawBody::Json { value } = &c.data else { panic!("expected a JSON chunk") };
    value
}

fn delta(index: usize, d: StreamDelta) -> CoreStreamEvent {
    CoreStreamEvent::BlockDelta { index, delta: d }
}

#[test]
fn signature_delta_roundtrips() {
    let adapter = AnthropicAdapter;
    let evs = adapter.decode(
        &ctx(),
        &chunk(obj(vec![
            ("type", s("content_block_delta")),
            ("index", num(0)),
            ("delta", obj(vec![("type", s("signature_delta")), ("signature", s("SIG"))])),
        ])),
    );
    match &evs[0] {
        CoreStreamEvent::BlockDelta { delta: StreamDelta::ReasoningSignature { signature }, .. } => assert_eq!(signature, "SIG"),
        other => panic!("expected signature delta, got {other:?}"),
    }

    let chunks = adapter.encode(
        &ctx(),
        &delta(0, StreamDelta::ReasoningSignature { signature: "SIG".to_string() }),
        &mut StreamEncodeState::new(),
    );
    assert_eq!(chunks.len(), 1);
    let cb = data_of(&chunks[0]);
    assert_eq!(key(cb, "type"), &s("content_block_start"));
    assert_eq!(key(key(cb, "content_block"), "type"), &s("redacted_thinking"));
    assert_eq!(key(key(cb, "content_block"), "data"), &s("SIG"));

    let mut st = StreamEncodeState::new();
    adapter.encode(&ctx(), &delta(0, StreamDelta::Reasoning { text: "think".to_string() }), &mut st);
    let chunks = adapter.encode(&ctx(), &delta(0, StreamDelta::ReasoningSignature { signature: "SIG".to_string() }), &mut st);
    assert_eq!(chunks.len(), 1);
    let d = data_of(&chunks[0]);
    assert_eq!(key(d, "type"), &s("content_block_delta"));
    assert_eq!(key(key(d, "delta"), "type"), &s("signature_delta"));
    assert_eq!(key(key(d, "delta"), "signature"), &s("SIG"));
}

#[test]
fn empty_reasoning_block_emits_nothing() {
    let adapter = AnthropicAdapter;
    let mut st = StreamEncodeState::new();
    let chunks = adapter.encode(
        &ctx(),
        &CoreStreamEvent::BlockStart {
            index: 0,
            block: ContentBlock::Reasoning { text: String::new(), signature: None, redacted: false },
        },
        &mut st,
    );
    assert!(chunks.is_empty());
    let chunks = adapter.encode(&ctx(), &CoreStreamEvent::BlockStop { index: 0, block: None }, &mut st);
    assert!(chunks.is_empty());
}

#[test]
fn decodes_text_stream() {
    let adapter = AnthropicAdapter;
    let evs = adapter.decode(
        &ctx(),
        &chunk(obj(vec![
            ("type", s("message_start")),
            ("message", obj(vec![("id", s("m1")), ("model", s("model-x")), ("usage", obj(vec![("input_tokens", num(7))]))])),
        ])),
    );
    assert!(matches!(evs[0], CoreStreamEvent::MessageStart { .. }));

    let evs = adapter.decode(
        &ctx(),
        &chunk(obj(vec![
            ("type", s("content_block_start")),
            ("index", num(0)),
            ("content_block", obj(vec![("type", s("text")), ("text", s(""))])),
        ])),
    );
    assert!(matches!(evs[0], CoreStreamEvent::BlockStart { index: 0, .. }));

    let evs = adapter.decode(
        &ctx(),
        &chunk(obj(vec![
            ("type", s("content_block_delta")),
            ("index", num(0)),
            ("delta", obj(vec![("type", s("text_delta")), ("text", s("Hi"))])),
        ])),
    );
    match &evs[0] {
        CoreStreamEvent::BlockDelta { delta: StreamDelta::Text { text }, .. } => assert_eq!(text, "Hi"),
        _ => panic!("expected text delta"),
    }

    let evs = adapter.decode(
        &ctx(),
        &chunk(obj(vec![
            ("type", s("message_delta")),
            ("delta", obj(vec![("stop_reason", s("end_turn"))])),
            ("usage", obj(vec![("output_tokens", num(3))])),
        ])),
    );
    match &evs[0] {
        CoreStreamEvent::MessageDelta { stop_reason, usage } => {
            assert_eq!(*stop_reason, Some(StopReason::EndTurn));
            assert_eq!(usage.unwrap().output_tokens, 3);
        }
        _ => panic!("expected message delta"),
    }
}

#[test]
fn decodes_tool_use_delta() {
    let evs = AnthropicAdapter.decode(
        &ctx(),
        &chunk(obj(vec![
            ("type", s("content_block_delta")),
            ("index", num(1)),
            ("delta", obj(vec![("type", s("input_json_delta")), ("partial_json", s("{\"a\":"))])),
        ])),
    );
    match &evs[0] {
        CoreStreamEvent::BlockDelta { index, delta: StreamDelta::ToolInput { partial_json } } => {
            assert_eq!(*index, 1);
            assert_eq!(partial_json, "{\"a\":");
        }
        _ => panic!("expected tool input delta"),
    }
}

#[test]
fn ignores_ping() {
    let evs = AnthropicAdapter.decode(&ctx(), &chunk(obj(vec![("type", s("ping"))])));
    assert!(evs.is_empty());
}

#[test]
fn redacted_block_start_passes_data_on_as_signature() {
    let evs = AnthropicAdapter.decode(
        &ctx(),
        &chunk(obj(vec![
            ("type", s("content_block_start")),
            ("index", num(2)),
            ("content_block", obj(vec![("type", s("redacted_thinking")), ("data", s("ENC"))])),
        ])),
    );
    assert_eq!(evs.len(), 2);
    assert!(matches!(&evs[0], CoreStreamEvent::BlockStart { index: 2, block: ContentBlock::Reasoning { redacted: true, .. } }));
    assert!(matches!(&evs[1], CoreStreamEvent::BlockDelta { index: 2, delta: StreamDelta::ReasoningSignature { signature } } if signature == "ENC"));
}

#[test]
fn error_event_without_message_gets_default() {
    let evs = AnthropicAdapter.decode(&ctx(), &chunk(obj(vec![("type", s("error"))])));
    assert!(matches!(&evs[0], CoreStreamEvent::Error { message } if message == "upstream stream error"));
}

#[test]
fn encode_text_opens_block_once_and_usage_excludes_cache() {
    let adapter = AnthropicAdapter;
    let mut st = StreamEncodeState::new();
    let first = adapter.encode(&ctx(), &delta(0, StreamDelta::Text { text: "a".to_string() }), &mut st);
    assert_eq!(first.len(), 2);
    assert_eq!(first[0].event.as_deref(), Some("content_block_start"));
    let second = adapter.encode(&ctx(), &delta(0, StreamDelta::Text { text: "b".to_string() }), &mut st);
    assert_eq!(second.len(), 1);
    let stop = adapter.encode(&ctx(), &CoreStreamEvent::BlockStop { index: 0, block: None }, &mut st);
    assert_eq!(stop.len(), 1);
    assert!(st.open_blocks.is_empty());

    let md = adapter.encode(
        &ctx(),
        &CoreStreamEvent::MessageDelta {
            stop_reason: None,
            usage: Some(Usage { input_tokens: 10, output_tokens: 2, cache_read_tokens: 3, cache_write_tokens: 4, reasoning_tokens: 0 }),
        },
        &mut st,
    );
    let d = data_of(&md[0]);
    assert_eq!(key(key(d, "delta"), "stop_reason"), &s("end_turn"));
    assert_eq!(key(key(d, "usage"), "input_tokens"), &num(3));
    assert_eq!(key(key(d, "usage"), "cache_read_input_tokens"), &num(3));
}

#[test]
fn block_starts_and_stops_pair_up() {
    let a = AnthropicAdapter;
    let c = ctx();
    let mut st = StreamEncodeState::new();
    let r = ContentBlock::Reasoning { text: String::new(), signature: None, redacted: false };
    assert!(a.encode(&c, &CoreStreamEvent::BlockStart { index: 0, block: r }, &mut st).is_empty());
    assert!(a.encode(&c, &CoreStreamEvent::BlockStop { index: 0, block: None }, &mut st).is_empty());

    let t = ContentBlock::Text { text: String::new() };
    let start = a.encode(&c, &CoreStreamEvent::BlockStart { index: 1, block: t }, &mut st);
    assert_eq!(start.len(), 1);
    assert_eq!(start[0].event.as_deref(), Some("content_block_start"));
    // A delta of an open block starts nothing.
    let d = a.encode(&c, &delta(1, StreamDelta::Text { text: "x".into() }), &mut st);
    assert_eq!(d.len(), 1);
    assert_eq!(d[0].event.as_deref(), Some("content_block_delta"));
    let stop = a.encode(&c, &CoreStreamEvent::BlockStop { index: 1, block: None }, &mut st);
    assert_eq!(stop.len(), 1);
    assert_eq!(stop[0].event.as_deref(), Some("content_block_stop"));
    // Closed once: a second stop emits nothing.
    assert!(a.encode(&c, &CoreStreamEvent::BlockStop { index: 1, block: None }, &mut st).is_empty());
    // A delta of a closed block starts it lazily.
    let lazy = a.encode(&c, &delta(2, StreamDelta::Reasoning { text: "r".into() }), &mut st);
    assert_eq!(lazy.len(), 2);
    assert_eq!(lazy[0].event.as_deref(), Some("content_block_start"));
}
