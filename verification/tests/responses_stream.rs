use moonbridge::json::{Json, JsonNum};
use moonbridge::protocol::adapters::OpenAiResponsesAdapter;
use moonbridge::protocol::context::ReqCtx;
use moonbridge::protocol::ir::{ContentBlock, CoreStreamEvent, Protocol, StopReason, StreamDelta, Usage};
use moonbridge::protocol::raw::{ChunkStage, RawBody, RawChunk};
use moonbridge::protocol::stream_state::{StreamDecodeState, StreamEncodeState};

fn s(x: &str) -> Json {
    Json::Str(x.to_string())
}

fn num(u: u64) -> Json {
    Json::Num(JsonNum::PosInt(u))
}

fn obj(fs: Vec<(&str, Json)>) -> Json {
    Json::Object(fs.into_iter().map(|(k, v)| (k.to_string(), v)).collect())
}

fn arr(items: Vec<Json>) -> Json {
    Json::Array(items)
}

fn key<'a>(j: &'a Json, k: &str) -> &'a Json {
    j.get(k).unwrap_or_else(|| panic!("no member {k}"))
}

fn item(j: &Json, i: usize) -> &Json {
    &j.as_array().expect("array")[i]
}

fn chunk(v: Json) -> RawChunk {
    RawChunk::json(ChunkStage::UpstreamChunk, Protocol::OpenAiResponse, None, v)
}

fn ctx() -> ReqCtx {
    ReqCtx::new("r1".to_string(), Protocol::OpenAiResponse)
}

fn data_of(c: &RawChunk) -> &Json {
    let RawBody::Json { value } = &c.data else { panic!("expected a JSON chunk") };
    value
}

fn decode(v: Json) -> Vec<CoreStreamEvent> {
    OpenAiResponsesAdapter.decode(&ctx(), &mut StreamDecodeState::new(), &chunk(v))
}

#[test]
fn decodes_reasoning_item_and_deltas() {
    let evs = decode(obj(vec![
        ("type", s("response.output_item.added")),
        ("output_index", num(0)),
        ("item", obj(vec![("type", s("reasoning")), ("summary", arr(vec![]))])),
    ]));
    assert!(matches!(&evs[0], CoreStreamEvent::BlockStart { block: ContentBlock::Reasoning { .. }, .. }));
    for ty in ["response.reasoning_summary_text.delta", "response.reasoning_text.delta"] {
        let evs = decode(obj(vec![("type", s(ty)), ("output_index", num(0)), ("delta", s("hmm"))]));
        match &evs[0] {
            CoreStreamEvent::BlockDelta { delta: StreamDelta::Reasoning { text }, .. } => assert_eq!(text, "hmm"),
            other => panic!("expected reasoning delta for {ty}, got {other:?}"),
        }
    }
}

#[test]
fn decodes_responses_stream() {
    let evs = decode(obj(vec![
        ("type", s("response.created")),
        ("response", obj(vec![("id", s("resp_1")), ("model", s("gpt-x"))])),
    ]));
    assert!(matches!(evs[0], CoreStreamEvent::MessageStart { .. }));
    let evs = decode(obj(vec![("type", s("response.output_text.delta")), ("output_index", num(0)), ("delta", s("Hi"))]));
    match &evs[0] {
        CoreStreamEvent::BlockDelta { delta: StreamDelta::Text { text }, .. } => assert_eq!(text, "Hi"),
        _ => panic!("expected text delta"),
    }
    let evs = decode(obj(vec![
        ("type", s("response.completed")),
        ("response", obj(vec![("usage", obj(vec![("input_tokens", num(5)), ("output_tokens", num(3))]))])),
    ]));
    assert!(matches!(evs[0], CoreStreamEvent::MessageDelta { .. }));
    assert!(matches!(evs[1], CoreStreamEvent::MessageStop));
}

#[test]
fn reasoning_encrypted_content_roundtrips_via_stop() {
    let evs = decode(obj(vec![
        ("type", s("response.output_item.done")),
        ("output_index", num(0)),
        (
            "item",
            obj(vec![("type", s("reasoning")), ("summary", arr(vec![])), ("encrypted_content", s("ENC"))]),
        ),
    ]));
    match &evs[0] {
        CoreStreamEvent::BlockDelta { delta: StreamDelta::ReasoningSignature { signature }, .. } => {
            assert_eq!(signature, "oai:ENC")
        }
        other => panic!("expected signature delta, got {other:?}"),
    }
    match &evs[1] {
        CoreStreamEvent::BlockStop { block: Some(ContentBlock::Reasoning { text, signature: Some(enc), .. }), .. } => {
            assert!(text.is_empty());
            assert_eq!(enc, "oai:ENC");
        }
        other => panic!("expected reasoning stop block, got {other:?}"),
    }
    let cchunks = OpenAiResponsesAdapter.encode(&ctx(), &evs[1], &mut StreamEncodeState::new());
    assert!(cchunks[0].raw.contains("encrypted_content"));
    assert!(cchunks[0].raw.contains("ENC"));

    let evs = decode(obj(vec![
        ("type", s("response.output_item.done")),
        ("output_index", num(0)),
        ("item", obj(vec![("type", s("reasoning")), ("summary", arr(vec![]))])),
    ]));
    assert!(matches!(&evs[0], CoreStreamEvent::BlockStop { block: None, .. }));
}

fn tool_use(input: Json) -> ContentBlock {
    ContentBlock::ToolUse {
        id: "call_9".to_string(),
        name: "get_time".to_string(),
        namespace: None,
        input,
        signature: None,
    }
}

#[test]
fn encodes_tool_use_stop_as_function_call() {
    let adapter = OpenAiResponsesAdapter;
    let mut st = StreamEncodeState::new();
    let start = adapter.encode(&ctx(), &CoreStreamEvent::BlockStart { index: 1, block: tool_use(obj(vec![])) }, &mut st);
    let it = data_of(&start[0]);
    assert_eq!(key(it, "type"), &s("response.output_item.added"));
    assert_eq!(key(key(it, "item"), "type"), &s("function_call"));
    assert_eq!(key(key(it, "item"), "call_id"), &s("call_9"));

    adapter.encode(
        &ctx(),
        &CoreStreamEvent::BlockDelta { index: 1, delta: StreamDelta::ToolInput { partial_json: "{\"tz\":\"UTC\"}".to_string() } },
        &mut st,
    );
    let stop = adapter.encode(
        &ctx(),
        &CoreStreamEvent::BlockStop { index: 1, block: Some(tool_use(obj(vec![("tz", s("UTC"))]))) },
        &mut st,
    );
    let types: Vec<&Json> = stop.iter().map(|c| key(data_of(c), "type")).collect();
    assert_eq!(types, vec![&s("response.function_call_arguments.done"), &s("response.output_item.done")]);
    let done_item = key(data_of(&stop[1]), "item");
    assert_eq!(key(done_item, "type"), &s("function_call"));
    assert_eq!(key(done_item, "call_id"), &s("call_9"));
    assert_eq!(key(done_item, "arguments"), &s("{\"tz\":\"UTC\"}"));
    assert_eq!(key(done_item, "status"), &s("completed"));
}

#[test]
fn completed_carries_assembled_output() {
    let adapter = OpenAiResponsesAdapter;
    let mut st = StreamEncodeState::new();
    let reasoning = || ContentBlock::Reasoning { text: "t".to_string(), signature: Some("oai:ENC".to_string()), redacted: false };
    adapter.encode(&ctx(), &CoreStreamEvent::MessageStart { id: "resp_x".to_string(), model: "gpt-x".to_string() }, &mut st);
    adapter.encode(&ctx(), &CoreStreamEvent::BlockStart { index: 0, block: reasoning() }, &mut st);
    adapter.encode(&ctx(), &CoreStreamEvent::BlockStop { index: 0, block: Some(reasoning()) }, &mut st);
    adapter.encode(&ctx(), &CoreStreamEvent::BlockStart { index: 1, block: ContentBlock::Text { text: String::new() } }, &mut st);
    adapter.encode(
        &ctx(),
        &CoreStreamEvent::BlockDelta { index: 1, delta: StreamDelta::Text { text: "Hi".to_string() } },
        &mut st,
    );
    adapter.encode(&ctx(), &CoreStreamEvent::BlockStop { index: 1, block: Some(ContentBlock::Text { text: "Hi".to_string() }) }, &mut st);
    let done = adapter.encode(&ctx(), &CoreStreamEvent::MessageDelta { stop_reason: Some(StopReason::EndTurn), usage: None }, &mut st);
    let completed = data_of(&done[0]);
    let output = key(key(completed, "response"), "output");
    assert_eq!(output.as_array().unwrap().len(), 2);
    assert_eq!(key(item(output, 0), "type"), &s("reasoning"));
    assert_eq!(key(item(output, 0), "encrypted_content"), &s("ENC"));
    assert_eq!(key(item(output, 1), "type"), &s("message"));
    assert_eq!(key(item(key(item(output, 1), "content"), 0), "text"), &s("Hi"));
}

#[test]
fn truncated_stop_is_incomplete_with_usage() {
    let adapter = OpenAiResponsesAdapter;
    let mut st = StreamEncodeState::new();
    let none = adapter.encode(
        &ctx(),
        &CoreStreamEvent::MessageDelta {
            stop_reason: None,
            usage: Some(Usage { input_tokens: 4, output_tokens: 0, cache_read_tokens: 0, cache_write_tokens: 0, reasoning_tokens: 0 }),
        },
        &mut st,
    );
    assert!(none.is_empty());
    let done = adapter.encode(
        &ctx(),
        &CoreStreamEvent::MessageDelta {
            stop_reason: Some(StopReason::MaxTokens),
            usage: Some(Usage { input_tokens: 0, output_tokens: 6, cache_read_tokens: 0, cache_write_tokens: 0, reasoning_tokens: 0 }),
        },
        &mut st,
    );
    assert_eq!(done[0].event.as_deref(), Some("response.incomplete"));
    let resp = key(data_of(&done[0]), "response");
    assert_eq!(key(resp, "status"), &s("incomplete"));
    assert_eq!(key(key(resp, "incomplete_details"), "reason"), &s("max_output_tokens"));
    assert_eq!(key(key(resp, "usage"), "total_tokens"), &num(10));
}

#[test]
fn failed_and_incomplete_decode() {
    let evs = decode(obj(vec![("type", s("response.failed"))]));
    assert!(matches!(&evs[0], CoreStreamEvent::Error { message } if message == "response failed"));
    let evs = decode(obj(vec![
        ("type", s("response.incomplete")),
        ("response", obj(vec![("incomplete_details", obj(vec![("reason", s("content_filter"))]))])),
    ]));
    assert!(matches!(evs[0], CoreStreamEvent::MessageDelta { stop_reason: Some(StopReason::ContentFilter), usage: None }));
}

#[test]
fn stop_law_one_terminal_event_per_stop() {
    let a = OpenAiResponsesAdapter;
    let c = ctx();
    let mut st = StreamEncodeState::new();
    let none = a.encode(&c, &CoreStreamEvent::MessageDelta { stop_reason: None, usage: None }, &mut st);
    assert!(none.is_empty());
    for (reason, ev, status, detail) in [
        (StopReason::MaxTokens, "response.incomplete", "incomplete", Some("max_output_tokens")),
        (StopReason::ContentFilter, "response.incomplete", "incomplete", Some("content_filter")),
        (StopReason::EndTurn, "response.completed", "completed", None),
        (StopReason::ToolUse, "response.completed", "completed", None),
    ] {
        let mut st = StreamEncodeState::new();
        let out = a.encode(&c, &CoreStreamEvent::MessageDelta { stop_reason: Some(reason), usage: None }, &mut st);
        assert_eq!(out.len(), 1);
        assert_eq!(out[0].event.as_deref(), Some(ev));
        let resp = key(data_of(&out[0]), "response");
        assert_eq!(key(resp, "status"), &s(status));
        match detail {
            Some(d) => assert_eq!(key(key(resp, "incomplete_details"), "reason"), &s(d)),
            None => assert!(resp.get("incomplete_details").is_none()),
        }
    }
}
