use moonbridge::json::{Json, JsonNum};
use moonbridge::protocol::adapters::OpenAiChatAdapter;
use moonbridge::protocol::context::ReqCtx;
use moonbridge::protocol::ir::{ContentBlock, CoreStreamEvent, Protocol, StopReason, StreamDelta, Usage};
use moonbridge::protocol::raw::{ChunkStage, RawBody, RawChunk};
use moonbridge::protocol::stream_state::{StreamDecodeState, StreamEncodeState};

fn s(x: &str) -> Json {
    Json::Str(x.to_string())
}

fn num(u: u64) -> Json {
    Json::Num(JsonNum::PosInt(u))
}

fn obj(fs: Vec<(&str, Json)>) -> Json {
    Json::Object(fs.into_iter().map(|(k, v)| (k.to_string(), v)).collect())
}

fn arr(items: Vec<Json>) -> Json {
    Json::Array(items)
}

fn key<'a>(j: &'a Json, k: &str) -> &'a Json {
    j.get(k).unwrap_or_else(|| panic!("no member {k}"))
}

fn item(j: &Json, i: usize) -> &Json {
    &j.as_array().expect("array")[i]
}

fn chunk(v: Json) -> RawChunk {
    RawChunk::json(ChunkStage::UpstreamChunk, Protocol::OpenAiChat, None, v)
}

fn ctx(alias: &str) -> ReqCtx {
    let mut c = ReqCtx::new("r1".to_string(), Protocol::OpenAiChat);
    c.model_alias = alias.to_string();
    c
}

/// `{"choices":[{"index":0,"delta":delta, ...extra}]}` plus top-level members.
fn choice_chunk(delta: Json, extra: Vec<(&str, Json)>, top: Vec<(&str, Json)>) -> RawChunk {
    let mut c = vec![("index", num(0)), ("delta", delta)];
    c.extend(extra);
    let mut fs = top;
    fs.push(("choices", arr(vec![obj(c)])));
    chunk(obj(fs))
}

fn first_delta(c: &RawChunk) -> &Json {
    let RawBody::Json { value } = &c.data else { panic!("expected a JSON chunk") };
    key(item(key(value, "choices"), 0), "delta")
}

#[test]
fn encodes_text_delta_and_done() {
    let adapter = OpenAiChatAdapter;
    let ctx = ctx("gpt-4o");
    let evs = adapter.encode(
        &ctx,
        &CoreStreamEvent::BlockDelta { index: 0, delta: StreamDelta::Text { text: "Hi".to_string() } },
        &mut StreamEncodeState::new(),
    );
    assert_eq!(evs.len(), 1);
    assert_eq!(key(first_delta(&evs[0]), "content"), &s("Hi"));

    let evs = adapter.encode(&ctx, &CoreStreamEvent::MessageStop, &mut StreamEncodeState::new());
    match &evs[0].data {
        RawBody::Text { text } => assert_eq!(text, "[DONE]"),
        other => panic!("expected [DONE] text, got {other:?}"),
    }
}

#[test]
fn encodes_reasoning_delta_with_both_conventions() {
    let adapter = OpenAiChatAdapter;
    let evs = adapter.encode(
        &ctx("m"),
        &CoreStreamEvent::BlockDelta { index: 0, delta: StreamDelta::Reasoning { text: "think".to_string() } },
        &mut StreamEncodeState::new(),
    );
    let d = first_delta(&evs[0]);
    assert_eq!(key(d, "reasoning_content"), &s("think"));
    assert_eq!(key(d, "reasoning"), &s("think"));
}

fn tool_start(index: usize, id: &str, name: &str) -> CoreStreamEvent {
    CoreStreamEvent::BlockStart {
        index,
        block: ContentBlock::ToolUse {
            id: id.to_string(),
            name: name.to_string(),
            namespace: None,
            input: obj(vec![]),
            signature: None,
        },
    }
}

#[test]
fn encode_renumbers_tool_call_index() {
    let adapter = OpenAiChatAdapter;
    let ctx = ctx("");
    let mut st = StreamEncodeState::new();
    let evs = adapter.encode(&ctx, &tool_start(2, "call_1", "get_time"), &mut st);
    assert_eq!(key(item(key(first_delta(&evs[0]), "tool_calls"), 0), "index"), &num(0));

    let evs = adapter.encode(
        &ctx,
        &CoreStreamEvent::BlockDelta { index: 2, delta: StreamDelta::ToolInput { partial_json: "{\"a\":".to_string() } },
        &mut st,
    );
    assert_eq!(key(item(key(first_delta(&evs[0]), "tool_calls"), 0), "index"), &num(0));

    let evs = adapter.encode(&ctx, &tool_start(5, "call_2", "f"), &mut st);
    assert_eq!(key(item(key(first_delta(&evs[0]), "tool_calls"), 0), "index"), &num(1));
}

#[test]
fn encode_message_delta_carries_merged_usage_and_null_finish() {
    let adapter = OpenAiChatAdapter;
    let ctx = ctx("m");
    let mut st = StreamEncodeState::new();
    let u = |i: u32, o: u32| Usage {
        input_tokens: i,
        output_tokens: o,
        cache_read_tokens: 0,
        cache_write_tokens: 0,
        reasoning_tokens: 0,
    };
    let evs = adapter.encode(&ctx, &CoreStreamEvent::MessageDelta { stop_reason: None, usage: Some(u(10, 0)) }, &mut st);
    let RawBody::Json { value } = &evs[0].data else { panic!() };
    assert_eq!(key(item(key(value, "choices"), 0), "finish_reason"), &Json::Null);
    let evs = adapter.encode(
        &ctx,
        &CoreStreamEvent::MessageDelta { stop_reason: Some(StopReason::EndTurn), usage: Some(u(0, 4)) },
        &mut st,
    );
    let RawBody::Json { value } = &evs[0].data else { panic!() };
    assert_eq!(key(item(key(value, "choices"), 0), "finish_reason"), &s("stop"));
    assert_eq!(key(key(value, "usage"), "total_tokens"), &num(14));
}

#[test]
fn encode_uses_message_id_once_known() {
    let adapter = OpenAiChatAdapter;
    let ctx = ctx("m");
    let mut st = StreamEncodeState::new();
    let evs = adapter.encode(&ctx, &CoreStreamEvent::BlockStop { index: 0, block: None }, &mut st);
    assert!(evs.is_empty());
    let evs = adapter.encode(
        &ctx,
        &CoreStreamEvent::BlockDelta { index: 0, delta: StreamDelta::Text { text: "x".to_string() } },
        &mut st,
    );
    let RawBody::Json { value } = &evs[0].data else { panic!() };
    assert_eq!(key(value, "id"), &s("chatcmpl-r1"));
    adapter.encode(&ctx, &CoreStreamEvent::MessageStart { id: "resp-9".to_string(), model: "m".to_string() }, &mut st);
    let evs = adapter.encode(
        &ctx,
        &CoreStreamEvent::BlockDelta { index: 0, delta: StreamDelta::ReasoningSignature { signature: "S".to_string() } },
        &mut st,
    );
    let RawBody::Json { value } = &evs[0].data else { panic!() };
    assert_eq!(key(value, "id"), &s("resp-9"));
    assert_eq!(key(first_delta(&evs[0]), "reasoning_content"), &s("<mb-cot>S</mb-cot>"));
}

#[test]
fn decodes_reasoning_content_from_upstream() {
    let adapter = OpenAiChatAdapter;
    let ctx = ctx("");
    for k in ["reasoning_content", "reasoning"] {
        let evs = adapter.decode(
            &ctx,
            &mut StreamDecodeState::new(),
            &choice_chunk(obj(vec![(k, s("hmm"))]), vec![], vec![]),
        );
        let has_reasoning = evs.iter().any(|e| {
            matches!(e, CoreStreamEvent::BlockDelta { delta: StreamDelta::Reasoning { text }, .. } if text == "hmm")
        });
        assert!(has_reasoning, "{k}: {evs:?}");
    }
}

#[test]
fn decodes_chat_stream() {
    let adapter = OpenAiChatAdapter;
    let ctx = ctx("");
    let evs = adapter.decode(
        &ctx,
        &mut StreamDecodeState::new(),
        &choice_chunk(
            obj(vec![("role", s("assistant")), ("content", s("Hello"))]),
            vec![("finish_reason", Json::Null)],
            vec![("id", s("c1")), ("model", s("gpt-4o"))],
        ),
    );
    assert!(matches!(evs[0], CoreStreamEvent::MessageStart { .. }));
    assert!(matches!(evs[1], CoreStreamEvent::BlockStart { .. }));
    match &evs[2] {
        CoreStreamEvent::BlockDelta { delta: StreamDelta::Text { text }, .. } => assert_eq!(text, "Hello"),
        other => panic!("expected text delta, got {other:?}"),
    }

    let mut st = StreamDecodeState::new();
    st.message_started = true;
    let evs = adapter.decode(
        &ctx,
        &mut st,
        &choice_chunk(
            obj(vec![]),
            vec![("finish_reason", s("stop"))],
            vec![("usage", obj(vec![("prompt_tokens", num(3)), ("completion_tokens", num(2))]))],
        ),
    );
    assert!(evs.iter().any(|e| matches!(e, CoreStreamEvent::MessageDelta { .. })));

    let done = RawChunk {
        stage: ChunkStage::UpstreamChunk,
        protocol: Protocol::OpenAiChat,
        provider: None,
        event: None,
        data: RawBody::Text { text: "[DONE]".to_string() },
        raw: String::new(),
    };
    let evs = adapter.decode(&ctx, &mut st, &done);
    assert!(evs.iter().any(|e| matches!(e, CoreStreamEvent::MessageStop)));
}

#[test]
fn reasoning_and_text_use_distinct_block_indexes() {
    let adapter = OpenAiChatAdapter;
    let ctx = ctx("");
    let mut st = StreamDecodeState::new();
    let evs = adapter.decode(
        &ctx,
        &mut st,
        &choice_chunk(obj(vec![("role", s("assistant")), ("reasoning_content", s("think"))]), vec![], vec![]),
    );
    let r_idx = evs
        .iter()
        .find_map(|e| match e {
            CoreStreamEvent::BlockDelta { index, delta: StreamDelta::Reasoning { .. } } => Some(*index),
            _ => None,
        })
        .expect("a reasoning delta");
    let evs = adapter.decode(&ctx, &mut st, &choice_chunk(obj(vec![("content", s("visible"))]), vec![], vec![]));
    let t_idx = evs
        .iter()
        .find_map(|e| match e {
            CoreStreamEvent::BlockDelta { index, delta: StreamDelta::Text { .. } } => Some(*index),
            _ => None,
        })
        .expect("a text delta");
    assert_ne!(r_idx, t_idx);
}

#[test]
fn tool_calls_get_own_indexes_and_close_at_finish() {
    let adapter = OpenAiChatAdapter;
    let ctx = ctx("");
    let mut st = StreamDecodeState::new();
    adapter.decode(&ctx, &mut st, &choice_chunk(obj(vec![("role", s("assistant")), ("content", s("Hi"))]), vec![], vec![]));
    let call = obj(vec![
        ("index", num(0)),
        ("id", s("call_1")),
        ("function", obj(vec![("name", s("f")), ("arguments", s("{\"a\":1}"))])),
    ]);
    let evs = adapter.decode(&ctx, &mut st, &choice_chunk(obj(vec![("tool_calls", arr(vec![call]))]), vec![], vec![]));
    let tc_idx = evs
        .iter()
        .find_map(|e| match e {
            CoreStreamEvent::BlockStart { index, block: ContentBlock::ToolUse { .. } } => Some(*index),
            _ => None,
        })
        .expect("a tool use block start");
    assert_ne!(tc_idx, 0);

    let evs = adapter.decode(&ctx, &mut st, &choice_chunk(obj(vec![]), vec![("finish_reason", s("tool_calls"))], vec![]));
    let stops: Vec<usize> = evs
        .iter()
        .filter_map(|e| match e {
            CoreStreamEvent::BlockStop { index, .. } => Some(*index),
            _ => None,
        })
        .collect();
    assert!(stops.contains(&0) && stops.contains(&tc_idx), "{stops:?}");
    let tool_stop = evs.iter().find(|e| matches!(e, CoreStreamEvent::BlockStop { index, .. } if *index == tc_idx));
    if let Some(CoreStreamEvent::BlockStop { block: Some(ContentBlock::ToolUse { input, .. }), .. }) = tool_stop {
        assert_eq!(key(input, "a"), &num(1));
    } else {
        panic!("the tool use stop carries the whole block: {tool_stop:?}");
    }
    assert!(evs.iter().any(|e| matches!(e, CoreStreamEvent::MessageDelta { stop_reason: Some(_), .. })));
}

#[test]
fn second_tool_call_closes_the_first_and_bad_arguments_are_kept_raw() {
    let adapter = OpenAiChatAdapter;
    let ctx = ctx("");
    let mut st = StreamDecodeState::new();
    let call = |i: u64, args: &str| {
        obj(vec![
            ("index", num(i)),
            ("id", s("c")),
            ("function", obj(vec![("name", s("f")), ("arguments", s(args))])),
        ])
    };
    adapter.decode(&ctx, &mut st, &choice_chunk(obj(vec![("tool_calls", arr(vec![call(0, "{not json")]))]), vec![], vec![]));
    let evs = adapter.decode(&ctx, &mut st, &choice_chunk(obj(vec![("tool_calls", arr(vec![call(1, "{}")]))]), vec![], vec![]));
    match &evs[0] {
        CoreStreamEvent::BlockStop { index: 0, block: Some(ContentBlock::ToolUse { input, .. }) } => {
            assert_eq!(key(input, "_raw"), &s("{not json"));
        }
        other => panic!("expected the first call to stop, got {other:?}"),
    }
    assert_eq!(st.open_blocks, vec![1]);
}

#[test]
fn non_json_chunk_decodes_to_nothing() {
    let adapter = OpenAiChatAdapter;
    let mut st = StreamDecodeState::new();
    let c = RawChunk {
        stage: ChunkStage::UpstreamChunk,
        protocol: Protocol::OpenAiChat,
        provider: None,
        event: None,
        data: RawBody::Text { text: "keep-alive".to_string() },
        raw: "keep-alive".to_string(),
    };
    assert!(adapter.decode(&ctx(""), &mut st, &c).is_empty());
    assert!(!st.message_started);
}

#[test]
fn chat_try_decode_refuses_when_block_indexes_would_overflow() {
    let a = OpenAiChatAdapter;
    let c = ctx("m");
    let data = obj(vec![(
        "choices",
        arr(vec![obj(vec![("delta", obj(vec![("content", s("Hi"))]))])]),
    )]);
    let mut st = StreamDecodeState::new();
    let evs = a.try_decode(&c, &mut st, &chunk(data.deep_clone())).expect("fits");
    assert!(!evs.is_empty());

    let mut full = StreamDecodeState::new();
    full.next_block_index = usize::MAX - 2;
    assert!(a.try_decode(&c, &mut full, &chunk(data)).is_none());
    assert_eq!(full.next_block_index, usize::MAX - 2);
}
