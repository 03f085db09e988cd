use moonbridge::json::{Json, JsonNum};
use moonbridge::protocol::adapters::{OpenAiChatAdapter, ProviderEndpoint};
use moonbridge::protocol::context::ReqCtx;
use moonbridge::protocol::ir::{ContentBlock, CoreRequest, CoreResponse, Message, Protocol, Reasoning, Role, StopReason, Usage};

fn s(x: &str) -> Json {
    Json::Str(x.to_string())
}

fn num(u: u64) -> Json {
    Json::Num(JsonNum::PosInt(u))
}

fn obj(fs: Vec<(&str, Json)>) -> Json {
    Json::Object(fs.into_iter().map(|(k, v)| (k.to_string(), v)).collect())
}

fn arr(items: Vec<Json>) -> Json {
    Json::Array(items)
}

fn key<'a>(j: &'a Json, k: &str) -> &'a Json {
    j.get(k).unwrap_or_else(|| panic!("no member {k}"))
}

fn at(j: &Json, i: usize) -> &Json {
    &j.as_array().expect("array")[i]
}

fn ctx(p: Protocol) -> ReqCtx {
    ReqCtx::new("r1".to_string(), p)
}

fn text(t: &str) -> ContentBlock {
    ContentBlock::Text { text: t.to_string() }
}

fn endpoint() -> ProviderEndpoint {
    ProviderEndpoint::new("openai", Protocol::OpenAiChat, "https://api.openai.com", "sk-test")
}

#[test]
fn builds_chat_request() {
    let mut req = CoreRequest::new("gpt-4o");
    req.system.push(text("Be brief"));
    req.messages.push(Message { role: Role::User, content: vec![text("Hi")] });
    req.max_tokens = Some(128);

    let adapter = OpenAiChatAdapter;
    let c = ctx(Protocol::Anthropic);
    let up = adapter.from_core_request(&c, &req, &endpoint());

    assert!(up.url.ends_with("/v1/chat/completions"));
    let msgs = key(&up.body, "messages");
    assert_eq!(key(at(msgs, 0), "role"), &s("system"));
    assert_eq!(key(at(msgs, 0), "content"), &s("Be brief"));
    assert_eq!(key(at(msgs, 1), "role"), &s("user"));
    assert_eq!(key(&up.body, "max_tokens"), &num(128));
    assert!(up.headers.iter().any(|(k, v)| k == "authorization" && v == "Bearer sk-test"));
}

#[test]
fn propagates_reasoning_effort() {
    let mut req = CoreRequest::new("o3");
    req.messages.push(Message { role: Role::User, content: vec![text("Hi")] });
    req.reasoning = Some(Reasoning { effort: Some("high".into()), summary: None });
    let adapter = OpenAiChatAdapter;
    let c = ctx(Protocol::OpenAiChat);
    let up = adapter.from_core_request(&c, &req, &endpoint());
    assert_eq!(key(&up.body, "reasoning_effort"), &s("high"));

    let plain = CoreRequest::new("gpt-4o");
    let up2 = adapter.from_core_request(&c, &plain, &endpoint());
    assert!(up2.body.get("reasoning_effort").is_none());
    assert!(up2.body.get("max_tokens").is_none());
}

#[test]
fn parses_chat_response() {
    let raw = obj(vec![
        ("id", s("chatcmpl-2")),
        ("model", s("gpt-4o")),
        (
            "choices",
            arr(vec![obj(vec![
                ("index", num(0)),
                (
                    "message",
                    obj(vec![
                        ("role", s("assistant")),
                        ("content", Json::Null),
                        (
                            "tool_calls",
                            arr(vec![obj(vec![
                                ("id", s("c9")),
                                ("type", s("function")),
                                ("function", obj(vec![("name", s("get_time")), ("arguments", s("{\"tz\":\"UTC\"}"))])),
                            ])]),
                        ),
                    ]),
                ),
                ("finish_reason", s("tool_calls")),
            ])]),
        ),
        ("usage", obj(vec![("prompt_tokens", num(11)), ("completion_tokens", num(4)), ("total_tokens", num(15))])),
    ]);
    let adapter = OpenAiChatAdapter;
    let c = ctx(Protocol::Anthropic);
    let resp = adapter.to_core_response(&c, &raw);

    assert_eq!(resp.id, "chatcmpl-2");
    assert_eq!(resp.stop_reason, Some(StopReason::ToolUse));
    match &resp.content[0] {
        ContentBlock::ToolUse { id, name, input, .. } => {
            assert_eq!(id, "c9");
            assert_eq!(name, "get_time");
            assert_eq!(key(input, "tz"), &s("UTC"));
        }
        other => panic!("expected tool_use, got {other:?}"),
    }
    assert_eq!(resp.usage.input_tokens, 11);
}

fn parse_request_raw() -> Json {
    obj(vec![
        ("model", s("gpt-4o")),
        (
            "messages",
            arr(vec![
                obj(vec![("role", s("system")), ("content", s("Be brief"))]),
                obj(vec![("role", s("user")), ("content", s("Hi"))]),
                obj(vec![
                    ("role", s("assistant")),
                    ("content", Json::Null),
                    (
                        "tool_calls",
                        arr(vec![obj(vec![
                            ("id", s("c1")),
                            ("type", s("function")),
                            ("function", obj(vec![("name", s("get_time")), ("arguments", s("{\"tz\":\"UTC\"}"))])),
                        ])]),
                    ),
                ]),
                obj(vec![("role", s("tool")), ("tool_call_id", s("c1")), ("content", s("12:00"))]),
            ]),
        ),
        (
            "tools",
            arr(vec![obj(vec![
                ("type", s("function")),
                ("function", obj(vec![("name", s("get_time")), ("parameters", obj(vec![("type", s("object"))]))])),
            ])]),
        ),
        ("tool_choice", s("auto")),
        ("max_tokens", num(256)),
        ("stream", Json::Bool(false)),
    ])
}

#[test]
fn parses_chat_request() {
    let adapter = OpenAiChatAdapter;
    let c = ctx(Protocol::OpenAiChat);
    let req = adapter.to_core_request(&c, &parse_request_raw());

    assert_eq!(req.model, "gpt-4o");
    assert_eq!(req.system.len(), 1);
    assert_eq!(req.messages.len(), 3);
    assert!(matches!(req.messages[1].content[0], ContentBlock::ToolUse { .. }));
    assert!(matches!(req.messages[2].content[0], ContentBlock::ToolResult { .. }));
    assert_eq!(req.tools.len(), 1);
    assert_eq!(req.max_tokens, Some(256));
    assert!(!req.stream);
}

#[test]
fn carries_reasoning_in_response_message() {
    let resp = CoreResponse {
        id: "chatcmpl-2".into(),
        model: "m".into(),
        content: vec![
            ContentBlock::Reasoning { text: "thought".into(), signature: None, redacted: false },
            text("Hi"),
        ],
        stop_reason: Some(StopReason::EndTurn),
        usage: Usage::zero(),
    };
    let adapter = OpenAiChatAdapter;
    let c = ctx(Protocol::OpenAiChat);
    let out = adapter.from_core_response(&c, &resp);

    let msg = key(at(key(&out, "choices"), 0), "message");
    assert_eq!(key(msg, "content"), &s("Hi"));
    assert_eq!(key(msg, "reasoning_content"), &s("thought"));
    assert_eq!(key(msg, "reasoning"), &s("thought"));
}

#[test]
fn parses_reasoning_effort() {
    let adapter = OpenAiChatAdapter;
    let c = ctx(Protocol::OpenAiChat);
    let req = adapter.to_core_request(
        &c,
        &obj(vec![
            ("model", s("m")),
            ("reasoning_effort", s("high")),
            ("messages", arr(vec![obj(vec![("role", s("user")), ("content", s("Hi"))])])),
        ]),
    );
    assert_eq!(req.reasoning.as_ref().and_then(|r| r.effort.as_deref()), Some("high"));

    // The nested form, and an empty effort that asks for nothing.
    let req = adapter.to_core_request(&c, &obj(vec![("reasoning", obj(vec![("effort", s("low"))]))]));
    assert_eq!(req.reasoning.as_ref().and_then(|r| r.effort.as_deref()), Some("low"));
    let req = adapter.to_core_request(&c, &obj(vec![("reasoning_effort", s(""))]));
    assert!(req.reasoning.is_none());
}

#[test]
fn builds_chat_response() {
    let resp = CoreResponse {
        id: "chatcmpl-1".into(),
        model: "gpt-4o".into(),
        content: vec![text("Hello")],
        stop_reason: Some(StopReason::EndTurn),
        usage: Usage { input_tokens: 7, output_tokens: 2, cache_read_tokens: 0, cache_write_tokens: 0, reasoning_tokens: 0 },
    };
    let adapter = OpenAiChatAdapter;
    let c = ctx(Protocol::OpenAiChat);
    let out = adapter.from_core_response(&c, &resp);

    assert_eq!(key(&out, "object"), &s("chat.completion"));
    let choice = at(key(&out, "choices"), 0);
    assert_eq!(key(key(choice, "message"), "role"), &s("assistant"));
    assert_eq!(key(key(choice, "message"), "content"), &s("Hello"));
    assert_eq!(key(choice, "finish_reason"), &s("stop"));
    assert_eq!(key(key(&out, "usage"), "prompt_tokens"), &num(7));
}

#[test]
fn chat_stop_and_token_limit_fallbacks() {
    let adapter = OpenAiChatAdapter;
    let c = ctx(Protocol::OpenAiChat);
    let req = adapter.to_core_request(&c, &obj(vec![("stop", s("END")), ("max_completion_tokens", num(9))]));
    assert_eq!(req.stop, vec!["END".to_string()]);
    assert_eq!(req.max_tokens, Some(9));
    let up = adapter.from_core_request(&c, &req, &endpoint());
    assert_eq!(key(&up.body, "stop"), &arr(vec![s("END")]));
}
