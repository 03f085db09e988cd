use moonbridge::json::{Json, JsonNum};
use moonbridge::protocol::adapters::GoogleGenAiAdapter;
use moonbridge::protocol::context::ReqCtx;
use moonbridge::protocol::ir::{ContentBlock, CoreStreamEvent, Protocol, StopReason, StreamDelta, Usage};
use moonbridge::protocol::raw::{ChunkStage, RawBody, RawChunk};
use moonbridge::protocol::stream_state::{StreamDecodeState, StreamEncodeState};

fn s(x: &str) -> Json {
    Json::Str(x.to_string())
}

fn num(u: u64) -> Json {
    Json::Num(JsonNum::PosInt(u))
}

fn obj(fs: Vec<(&str, Json)>) -> Json {
    Json::Object(fs.into_iter().map(|(k, v)| (k.to_string(), v)).collect())
}

fn arr(items: Vec<Json>) -> Json {
    Json::Array(items)
}

fn key<'a>(j: &'a Json, k: &str) -> &'a Json {
    j.get(k).unwrap_or_else(|| panic!("no member {k}"))
}

fn item(j: &Json, i: usize) -> &Json {
    &j.as_array().expect("array")[i]
}

fn chunk(v: Json) -> RawChunk {
    RawChunk::json(ChunkStage::UpstreamChunk, Protocol::GoogleGenai, None, v)
}

fn ctx() -> ReqCtx {
    ReqCtx::new("r1".to_string(), Protocol::GoogleGenai)
}

/// A chunk with one candidate holding `parts`, plus candidate and top-level
/// members.
fn parts_chunk(parts: Vec<Json>, cand_extra: Vec<(&str, Json)>, top: Vec<(&str, Json)>) -> RawChunk {
    let mut c = vec![("content", obj(vec![("role", s("model")), ("parts", arr(parts))])), ("index", num(0))];
    c.extend(cand_extra);
    let mut fs = vec![("candidates", arr(vec![obj(c)]))];
    fs.extend(top);
    chunk(obj(fs))
}

fn data_of(c: &RawChunk) -> &Json {
    let RawBody::Json { value } = &c.data else { panic!("expected a JSON chunk") };
    value
}

#[test]
fn decodes_signature_only_trailing_part() {
    let mut st = StreamDecodeState::new();
    let evs = GoogleGenAiAdapter.decode(
        &ctx(),
        &mut st,
        &parts_chunk(vec![obj(vec![("text", s("")), ("thoughtSignature", s("SIG"))])], vec![], vec![]),
    );
    assert!(evs.iter().any(|e| matches!(
        e,
        CoreStreamEvent::BlockDelta { delta: StreamDelta::ReasoningSignature { signature }, .. } if signature == "gem:SIG"
    )));
}

#[test]
fn decodes_first_text_chunk() {
    let mut st = StreamDecodeState::new();
    let evs = GoogleGenAiAdapter.decode(
        &ctx(),
        &mut st,
        &parts_chunk(
            vec![obj(vec![("text", s("Hello"))])],
            vec![],
            vec![("modelVersion", s("gemini-2.0-flash")), ("responseId", s("resp-1"))],
        ),
    );
    assert!(matches!(evs[0], CoreStreamEvent::MessageStart { .. }));
    assert!(matches!(evs[1], CoreStreamEvent::BlockStart { index: 0, .. }));
    match &evs[2] {
        CoreStreamEvent::BlockDelta { index: 0, delta: StreamDelta::Text { text } } => assert_eq!(text, "Hello"),
        other => panic!("expected text delta, got {other:?}"),
    }
}

#[test]
fn middle_chunk_only_emits_delta() {
    let mut st = StreamDecodeState::new();
    GoogleGenAiAdapter.decode(&ctx(), &mut st, &parts_chunk(vec![obj(vec![("text", s("Hello"))])], vec![], vec![]));
    let evs = GoogleGenAiAdapter.decode(&ctx(), &mut st, &parts_chunk(vec![obj(vec![("text", s(" world"))])], vec![], vec![]));
    assert_eq!(evs.len(), 1, "{evs:?}");
    assert!(matches!(evs[0], CoreStreamEvent::BlockDelta { index: 0, delta: StreamDelta::Text { .. } }));
}

#[test]
fn thought_parts_use_separate_reasoning_block() {
    let mut st = StreamDecodeState::new();
    let evs = GoogleGenAiAdapter.decode(
        &ctx(),
        &mut st,
        &parts_chunk(
            vec![obj(vec![("thought", Json::Bool(true)), ("text", s("ponder"))]), obj(vec![("text", s("answer"))])],
            vec![],
            vec![],
        ),
    );
    let r_idx = evs
        .iter()
        .find_map(|e| match e {
            CoreStreamEvent::BlockDelta { index, delta: StreamDelta::Reasoning { text } } if text == "ponder" => Some(*index),
            _ => None,
        })
        .expect("a reasoning delta");
    let t_idx = evs
        .iter()
        .find_map(|e| match e {
            CoreStreamEvent::BlockDelta { index, delta: StreamDelta::Text { text } } if text == "answer" => Some(*index),
            _ => None,
        })
        .expect("a text delta");
    assert_ne!(r_idx, t_idx);
}

fn call_part(name: &str, args: Json) -> Json {
    obj(vec![("functionCall", obj(vec![("name", s(name)), ("args", args)]))])
}

#[test]
fn function_call_indexes_are_stable_across_chunks() {
    let mut st = StreamDecodeState::new();
    GoogleGenAiAdapter.decode(&ctx(), &mut st, &parts_chunk(vec![obj(vec![("text", s("a"))])], vec![], vec![]));
    let mut idxs = Vec::new();
    for call in ["f1", "f2"] {
        let evs = GoogleGenAiAdapter.decode(&ctx(), &mut st, &parts_chunk(vec![call_part(call, obj(vec![]))], vec![], vec![]));
        let idx = evs
            .iter()
            .find_map(|e| match e {
                CoreStreamEvent::BlockStart { index, block: ContentBlock::ToolUse { .. } } => Some(*index),
                _ => None,
            })
            .expect("a tool use block start");
        idxs.push(idx);
    }
    assert_eq!(idxs, vec![1, 2]);
}

#[test]
fn decodes_finish_chunk() {
    let evs = GoogleGenAiAdapter.decode(
        &ctx(),
        &mut StreamDecodeState::new(),
        &parts_chunk(
            vec![obj(vec![("text", s("!"))])],
            vec![("finishReason", s("STOP"))],
            vec![(
                "usageMetadata",
                obj(vec![("promptTokenCount", num(8)), ("candidatesTokenCount", num(4)), ("totalTokenCount", num(12))]),
            )],
        ),
    );
    assert!(evs.iter().any(|e| matches!(e, CoreStreamEvent::BlockDelta { .. })));
    assert!(evs.iter().any(|e| matches!(e, CoreStreamEvent::BlockStop { index: 0, .. })));
    let (sr, usage) = evs
        .iter()
        .find_map(|e| match e {
            CoreStreamEvent::MessageDelta { stop_reason, usage } => Some((stop_reason, usage)),
            _ => None,
        })
        .expect("a message delta");
    assert_eq!(*sr, Some(StopReason::EndTurn));
    assert_eq!(
        usage.unwrap(),
        Usage { input_tokens: 8, output_tokens: 4, cache_read_tokens: 0, cache_write_tokens: 0, reasoning_tokens: 0 }
    );
    assert!(matches!(evs.last().unwrap(), CoreStreamEvent::MessageStop));
}

#[test]
fn decodes_function_call_chunk() {
    let evs = GoogleGenAiAdapter.decode(
        &ctx(),
        &mut StreamDecodeState::new(),
        &parts_chunk(vec![call_part("get_time", obj(vec![("tz", s("UTC"))]))], vec![], vec![]),
    );
    let (idx, name) = evs
        .iter()
        .find_map(|e| match e {
            CoreStreamEvent::BlockStart { index, block: ContentBlock::ToolUse { name, .. } } => Some((*index, name.clone())),
            _ => None,
        })
        .expect("a tool use block start");
    assert_eq!(idx, 0);
    assert_eq!(name, "get_time");
    assert!(evs.iter().any(|e| matches!(e, CoreStreamEvent::BlockDelta { delta: StreamDelta::ToolInput { .. }, .. })));
}

#[test]
fn signed_function_call_gets_carrier_and_synthesized_id() {
    let p = obj(vec![
        ("functionCall", obj(vec![("name", s("f")), ("args", obj(vec![]))])),
        ("thoughtSignature", s("SIG")),
    ]);
    let evs = GoogleGenAiAdapter.decode(&ctx(), &mut StreamDecodeState::new(), &parts_chunk(vec![p], vec![], vec![]));
    assert_eq!(evs.len(), 6, "{evs:?}");
    assert!(matches!(&evs[0], CoreStreamEvent::BlockStart { index: 0, block: ContentBlock::Reasoning { .. } }));
    match &evs[3] {
        CoreStreamEvent::BlockStart { index: 1, block: ContentBlock::ToolUse { id, signature, .. } } => {
            assert_eq!(id, "f-call-0");
            assert_eq!(signature.as_deref(), Some("gem:SIG"));
        }
        other => panic!("expected the tool use start, got {other:?}"),
    }
}

#[test]
fn blocked_prompt_ends_as_content_filter() {
    let c = chunk(obj(vec![("promptFeedback", obj(vec![("blockReason", s("SAFETY"))]))]));
    let evs = GoogleGenAiAdapter.decode(&ctx(), &mut StreamDecodeState::new(), &c);
    assert_eq!(evs.len(), 3);
    assert!(matches!(evs[0], CoreStreamEvent::MessageDelta { stop_reason: Some(StopReason::ContentFilter), usage: None }));
    assert!(matches!(&evs[1], CoreStreamEvent::Error { message } if message == "gemini prompt blocked: SAFETY"));
    assert!(matches!(evs[2], CoreStreamEvent::MessageStop));
}

#[test]
fn finish_closes_open_blocks_in_index_order() {
    let mut st = StreamDecodeState::new();
    st.open_blocks = vec![3, 1, 2];
    let evs = GoogleGenAiAdapter.decode(&ctx(), &mut st, &parts_chunk(vec![], vec![("finishReason", s("STOP"))], vec![]));
    let stops: Vec<usize> = evs
        .iter()
        .filter_map(|e| match e {
            CoreStreamEvent::BlockStop { index, .. } => Some(*index),
            _ => None,
        })
        .collect();
    assert_eq!(stops, vec![1, 2, 3]);
    assert!(st.open_blocks.is_empty());
}

#[test]
fn encodes_text_delta_and_finish() {
    let evs = GoogleGenAiAdapter.encode(
        &ctx(),
        &CoreStreamEvent::BlockDelta { index: 0, delta: StreamDelta::Text { text: "Hi".to_string() } },
        &mut StreamEncodeState::new(),
    );
    assert_eq!(evs.len(), 1);
    let parts = key(key(item(key(data_of(&evs[0]), "candidates"), 0), "content"), "parts");
    assert_eq!(key(item(parts, 0), "text"), &s("Hi"));

    let evs = GoogleGenAiAdapter.encode(
        &ctx(),
        &CoreStreamEvent::MessageDelta {
            stop_reason: Some(StopReason::EndTurn),
            usage: Some(Usage { input_tokens: 3, output_tokens: 2, cache_read_tokens: 0, cache_write_tokens: 0, reasoning_tokens: 0 }),
        },
        &mut StreamEncodeState::new(),
    );
    let data = data_of(&evs[0]);
    assert_eq!(key(item(key(data, "candidates"), 0), "finishReason"), &s("STOP"));
    assert_eq!(key(key(data, "usageMetadata"), "promptTokenCount"), &num(3));
}

#[test]
fn encode_message_start_and_stop_are_silent() {
    assert!(GoogleGenAiAdapter
        .encode(
            &ctx(),
            &CoreStreamEvent::MessageStart { id: "x".to_string(), model: "g".to_string() },
            &mut StreamEncodeState::new()
        )
        .is_empty());
    assert!(GoogleGenAiAdapter.encode(&ctx(), &CoreStreamEvent::MessageStop, &mut StreamEncodeState::new()).is_empty());
}

#[test]
fn encode_tool_use_carries_own_signature_only() {
    let ev = |sig: &str| CoreStreamEvent::BlockStart {
        index: 0,
        block: ContentBlock::ToolUse {
            id: "c".to_string(),
            name: "f".to_string(),
            namespace: None,
            input: obj(vec![]),
            signature: Some(sig.to_string()),
        },
    };
    let evs = GoogleGenAiAdapter.encode(&ctx(), &ev("gem:S"), &mut StreamEncodeState::new());
    let part = item(key(key(item(key(data_of(&evs[0]), "candidates"), 0), "content"), "parts"), 0);
    assert_eq!(key(key(part, "functionCall"), "thoughtSignature"), &s("S"));
    let evs = GoogleGenAiAdapter.encode(&ctx(), &ev("ant:X"), &mut StreamEncodeState::new());
    let part = item(key(key(item(key(data_of(&evs[0]), "candidates"), 0), "content"), "parts"), 0);
    assert!(key(part, "functionCall").get("thoughtSignature").is_none());
}

#[test]
fn gemini_try_decode_refuses_when_block_indexes_would_overflow() {
    let a = GoogleGenAiAdapter;
    let c = ctx();
    let data = obj(vec![(
        "candidates",
        arr(vec![obj(vec![("content", obj(vec![("role", s("model")), ("parts", arr(vec![obj(vec![("text", s("Hi"))])]))]))])]),
    )]);
    let mut st = StreamDecodeState::new();
    let evs = a.try_decode(&c, &mut st, &chunk(data.deep_clone())).expect("fits");
    assert!(!evs.is_empty());

    let mut full = StreamDecodeState::new();
    full.next_block_index = usize::MAX - 1;
    assert!(a.try_decode(&c, &mut full, &chunk(data)).is_none());
    assert_eq!(full.next_block_index, usize::MAX - 1);
}
