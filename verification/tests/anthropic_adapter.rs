use moonbridge::protocol::anthropic_adapter::parse_ant_tool_choice;
use moonbridge::json::{Json, JsonNum};
use moonbridge::protocol::adapters::{AnthropicAdapter, ProviderEndpoint};
use moonbridge::protocol::anthropic::DEFAULT_VERSION;
use moonbridge::protocol::anthropic_adapter::build_messages;
use moonbridge::protocol::anthropic_blocks::{anthropic_to_block, block_to_anthropic};
use moonbridge::protocol::context::ReqCtx;
use moonbridge::protocol::ir::{
    ContentBlock, CoreRequest, CoreResponse, Message, Protocol, Reasoning, Role, StopReason, ToolChoice, Usage,
};

fn s(x: &str) -> Json {
    Json::Str(x.to_string())
}

fn num(u: u64) -> Json {
    Json::Num(JsonNum::PosInt(u))
}

fn obj(fs: Vec<(&str, Json)>) -> Json {
    Json::Object(fs.into_iter().map(|(k, v)| (k.to_string(), v)).collect())
}

fn arr(items: Vec<Json>) -> Json {
    Json::Array(items)
}

fn key<'a>(j: &'a Json, k: &str) -> &'a Json {
    j.get(k).unwrap_or_else(|| panic!("no member {k}"))
}

fn at(j: &Json, i: usize) -> &Json {
    &j.as_array().expect("array")[i]
}

fn ctx(p: Protocol) -> ReqCtx {
    ReqCtx::new("r1".to_string(), p)
}

fn text(t: &str) -> ContentBlock {
    ContentBlock::Text { text: t.to_string() }
}

fn endpoint() -> ProviderEndpoint {
    let mut e = ProviderEndpoint::new("anthropic", Protocol::Anthropic, "https://api.anthropic.com", "sk-test");
    e.user_agent = Some("moonbridge-next/0.1".into());
    e
}

#[test]
fn omitted_thinking_keeps_thinking_form() {
    let block = obj(vec![("type", s("thinking")), ("thinking", s("")), ("signature", s("SIG"))]);
    let core = anthropic_to_block(&block).unwrap();
    match &core {
        ContentBlock::Reasoning { text, signature: Some(sig), redacted } => {
            assert_eq!(text, "");
            assert_eq!(sig, "SIG");
            assert!(!redacted);
        }
        other => panic!("expected reasoning, got {other:?}"),
    }
    let back = block_to_anthropic(&core).unwrap();
    assert_eq!(key(&back, "type"), &s("thinking"));
    assert_eq!(key(&back, "thinking"), &s(""));
    assert_eq!(key(&back, "signature"), &s("SIG"));
    assert!(back.get("data").is_none());
}

#[test]
fn redacted_thinking_roundtrips() {
    let block = obj(vec![("type", s("redacted_thinking")), ("data", s("ENC"))]);
    let core = anthropic_to_block(&block).unwrap();
    match &core {
        ContentBlock::Reasoning { text, signature: Some(enc), redacted: true } => {
            assert_eq!(text, "");
            assert_eq!(enc, "ENC");
        }
        other => panic!("expected reasoning with credential, got {other:?}"),
    }
    let back = block_to_anthropic(&core).unwrap();
    assert_eq!(key(&back, "type"), &s("redacted_thinking"));
    assert_eq!(key(&back, "data"), &s("ENC"));
}

#[test]
fn builds_anthropic_request() {
    let mut req = CoreRequest::new("model-x-4");
    req.system.push(text("You are helpful"));
    req.messages.push(Message { role: Role::User, content: vec![text("Hello")] });
    req.max_tokens = Some(1024);

    let adapter = AnthropicAdapter;
    let c = ctx(Protocol::OpenAiResponse);
    let up = adapter.from_core_request(&c, &req, &endpoint());

    assert!(up.url.ends_with("/v1/messages"));
    assert_eq!(key(&up.body, "model"), &s("model-x-4"));
    assert_eq!(key(&up.body, "max_tokens"), &num(1024));
    assert_eq!(key(at(key(&up.body, "system"), 0), "text"), &s("You are helpful"));
    assert_eq!(key(at(key(&up.body, "messages"), 0), "role"), &s("user"));
    assert!(up.headers.iter().any(|(k, v)| k == "anthropic-version" && v == DEFAULT_VERSION));
    assert!(up.headers.iter().any(|(k, v)| k == "user-agent" && v == "moonbridge-next/0.1"));
}

#[test]
fn merges_consecutive_same_role() {
    let messages = vec![
        Message {
            role: Role::Assistant,
            content: vec![ContentBlock::ToolUse {
                id: "t1".into(),
                name: "f".into(),
                namespace: None,
                input: obj(vec![]),
                signature: None,
            }],
        },
        Message {
            role: Role::Tool,
            content: vec![ContentBlock::ToolResult { tool_use_id: "t1".into(), content: vec![text("ok")], is_error: false }],
        },
    ];
    let msgs = build_messages(&messages);
    assert_eq!(msgs.len(), 2);
    assert_eq!(key(&msgs[0], "role"), &s("assistant"));
    assert_eq!(key(&msgs[1], "role"), &s("user"));
    assert_eq!(key(at(key(&msgs[1], "content"), 0), "type"), &s("tool_result"));
    // A lone text result is sent as a string.
    assert_eq!(key(at(key(&msgs[1], "content"), 0), "content"), &s("ok"));
}

#[test]
fn consecutive_user_turns_join() {
    let messages = vec![
        Message { role: Role::User, content: vec![text("a")] },
        Message { role: Role::Tool, content: vec![text("b")] },
        Message { role: Role::Assistant, content: vec![] },
        Message { role: Role::User, content: vec![text("c")] },
    ];
    let msgs = build_messages(&messages);
    assert_eq!(msgs.len(), 1);
    assert_eq!(key(&msgs[0], "content").as_array().unwrap().len(), 3);
}

#[test]
fn parses_anthropic_response() {
    let raw = obj(vec![
        ("id", s("msg_1")),
        ("model", s("model-x-4")),
        ("role", s("assistant")),
        (
            "content",
            arr(vec![
                obj(vec![("type", s("text")), ("text", s("Hi there"))]),
                obj(vec![
                    ("type", s("tool_use")),
                    ("id", s("call_9")),
                    ("name", s("get_time")),
                    ("input", obj(vec![("tz", s("UTC"))])),
                ]),
            ]),
        ),
        ("stop_reason", s("tool_use")),
        (
            "usage",
            obj(vec![("input_tokens", num(10)), ("output_tokens", num(5)), ("cache_read_input_tokens", num(3))]),
        ),
    ]);
    let adapter = AnthropicAdapter;
    let c = ctx(Protocol::OpenAiResponse);
    let resp = adapter.to_core_response(&c, &raw);
    assert_eq!(resp.id, "msg_1");
    assert_eq!(resp.stop_reason, Some(StopReason::ToolUse));
    assert_eq!(resp.usage.input_tokens, 13);
    assert_eq!(resp.usage.cache_read_tokens, 3);
    assert!(matches!(resp.content[1], ContentBlock::ToolUse { .. }));
}

#[test]
fn propagates_reasoning_as_thinking_budget() {
    let adapter = AnthropicAdapter;
    let c = ctx(Protocol::OpenAiResponse);

    let make = |mt: u32| {
        let mut req = CoreRequest::new("model-x-4");
        req.messages.push(Message { role: Role::User, content: vec![text("Hi")] });
        req.max_tokens = Some(mt);
        req.reasoning = Some(Reasoning { effort: Some("high".into()), summary: None });
        req
    };
    let up = adapter.from_core_request(&c, &make(32000), &endpoint());
    assert_eq!(key(key(&up.body, "thinking"), "type"), &s("enabled"));
    assert_eq!(key(key(&up.body, "thinking"), "budget_tokens"), &num(16384));

    let up2 = adapter.from_core_request(&c, &make(3000), &endpoint());
    assert_eq!(key(key(&up2.body, "thinking"), "budget_tokens"), &num(2999));

    let up3 = adapter.from_core_request(&c, &make(500), &endpoint());
    assert!(up3.body.get("thinking").is_none());

    let plain = CoreRequest::new("model-x");
    let up4 = adapter.from_core_request(&c, &plain, &endpoint());
    assert!(up4.body.get("thinking").is_none());
    assert_eq!(key(&up4.body, "max_tokens"), &num(4096));
}

#[test]
fn parses_anthropic_request() {
    let raw = obj(vec![
        ("model", s("model-x-4")),
        ("system", s("You are helpful")),
        ("max_tokens", num(1024)),
        (
            "messages",
            arr(vec![
                obj(vec![("role", s("user")), ("content", s("Hi"))]),
                obj(vec![("role", s("assistant")), ("content", arr(vec![obj(vec![("type", s("text")), ("text", s("Hello"))])]))]),
                obj(vec![
                    ("role", s("user")),
                    (
                        "content",
                        arr(vec![obj(vec![("type", s("tool_result")), ("tool_use_id", s("t1")), ("content", s("ok"))])]),
                    ),
                ]),
            ]),
        ),
        (
            "tools",
            arr(vec![obj(vec![
                ("name", s("get_time")),
                ("description", s("get tz time")),
                ("input_schema", obj(vec![("type", s("object"))])),
            ])]),
        ),
        ("tool_choice", obj(vec![("type", s("auto"))])),
        ("stream", Json::Bool(true)),
    ]);
    let adapter = AnthropicAdapter;
    let c = ctx(Protocol::Anthropic);
    let req = adapter.to_core_request(&c, &raw);

    assert_eq!(req.model, "model-x-4");
    assert_eq!(req.system.len(), 1);
    assert_eq!(req.messages.len(), 3);
    assert_eq!(req.messages[0].role, Role::User);
    assert_eq!(req.messages[1].role, Role::Assistant);
    assert!(matches!(req.messages[2].content[0], ContentBlock::ToolResult { .. }));
    assert_eq!(req.tools.len(), 1);
    assert_eq!(req.tools[0].name, "get_time");
    assert!(matches!(req.tool_choice, Some(ToolChoice::Auto)));
    assert_eq!(req.max_tokens, Some(1024));
    assert!(req.stream);
}

#[test]
fn client_parses_thinking_config_to_reasoning() {
    let adapter = AnthropicAdapter;
    let c = ctx(Protocol::Anthropic);
    let req = adapter.to_core_request(
        &c,
        &obj(vec![
            ("model", s("model-x")),
            ("max_tokens", num(16000)),
            ("thinking", obj(vec![("type", s("enabled")), ("budget_tokens", num(16384))])),
            ("messages", arr(vec![obj(vec![("role", s("user")), ("content", s("Hi"))])])),
        ]),
    );
    assert_eq!(req.reasoning.as_ref().and_then(|r| r.effort.as_deref()), Some("high"));

    let req = adapter.to_core_request(
        &c,
        &obj(vec![
            ("model", s("model-x")),
            ("max_tokens", num(16000)),
            ("thinking", obj(vec![("type", s("adaptive"))])),
            ("output_config", obj(vec![("effort", s("low"))])),
            ("messages", arr(vec![obj(vec![("role", s("user")), ("content", s("Hi"))])])),
        ]),
    );
    assert_eq!(req.reasoning.as_ref().and_then(|r| r.effort.as_deref()), Some("low"));

    let req = adapter.to_core_request(&c, &obj(vec![("thinking", obj(vec![("type", s("disabled"))]))]));
    assert!(req.reasoning.is_none());
}

#[test]
fn builds_anthropic_response() {
    let resp = CoreResponse {
        id: "msg_1".into(),
        model: "model-x-4".into(),
        content: vec![text("Hi there")],
        stop_reason: Some(StopReason::EndTurn),
        usage: Usage { input_tokens: 10, output_tokens: 5, cache_read_tokens: 0, cache_write_tokens: 0, reasoning_tokens: 0 },
    };
    let adapter = AnthropicAdapter;
    let c = ctx(Protocol::Anthropic);
    let out = adapter.from_core_response(&c, &resp);

    assert_eq!(key(&out, "type"), &s("message"));
    assert_eq!(key(&out, "role"), &s("assistant"));
    assert_eq!(key(&out, "stop_reason"), &s("end_turn"));
    assert_eq!(key(at(key(&out, "content"), 0), "type"), &s("text"));
    assert_eq!(key(at(key(&out, "content"), 0), "text"), &s("Hi there"));
    assert_eq!(key(key(&out, "usage"), "input_tokens"), &num(10));
    assert_eq!(key(&out, "stop_sequence"), &Json::Null);
}

#[test]
fn stop_sequences_and_sampling_carry_both_ways() {
    let raw = obj(vec![
        ("model", s("m")),
        ("stop_sequences", arr(vec![s("END"), num(3), s("STOP")])),
        ("temperature", Json::Num(JsonNum::Float("0.2".into()))),
    ]);
    let adapter = AnthropicAdapter;
    let c = ctx(Protocol::Anthropic);
    let req = adapter.to_core_request(&c, &raw);
    assert_eq!(req.stop, vec!["END".to_string(), "STOP".to_string()]);
    assert_eq!(req.temperature, Some(JsonNum::Float("0.2".into())));
    let up = adapter.from_core_request(&c, &req, &endpoint());
    assert_eq!(key(&up.body, "stop_sequences"), &arr(vec![s("END"), s("STOP")]));
    assert_eq!(key(&up.body, "temperature"), &Json::Num(JsonNum::Float("0.2".into())));
}

#[test]
fn tool_choice_and_usage_read_back() {
    let adapter = AnthropicAdapter;
    let c = ctx(Protocol::Anthropic);
    for tc in [ToolChoice::Auto, ToolChoice::NoTools, ToolChoice::Required, ToolChoice::Tool { name: "f".into() }] {
        let mut req = CoreRequest::new("m");
        req.tool_choice = Some(tc.clone());
        let up = adapter.from_core_request(&c, &req, &endpoint());
        assert_eq!(parse_ant_tool_choice(key(&up.body, "tool_choice")), Some(tc));
    }
    let u = Usage { input_tokens: 20, output_tokens: 5, cache_read_tokens: 7, cache_write_tokens: 3, reasoning_tokens: 0 };
    let resp = CoreResponse { id: "m1".into(), model: "m".into(), content: vec![], stop_reason: None, usage: u };
    let out = adapter.from_core_response(&c, &resp);
    assert_eq!(key(key(&out, "usage"), "input_tokens"), &num(10));
    let back = adapter.to_core_response(&c, &out);
    assert_eq!(back.usage, u);
    assert_eq!(back.stop_reason, Some(StopReason::EndTurn));
}

#[test]
fn upstream_output_limit_is_the_fallback_token_limit() {
    let adapter = AnthropicAdapter;
    let mut c = ctx(Protocol::OpenAiChat);
    c.upstream_max_output_tokens = Some(8192);
    let mut req = CoreRequest::new("model-x");
    req.messages.push(Message { role: Role::User, content: vec![text("Hi")] });
    let up = adapter.from_core_request(&c, &req, &endpoint());
    assert_eq!(key(&up.body, "max_tokens"), &num(8192));

    // The thinking budget is clamped against that limit.
    req.reasoning = Some(Reasoning { effort: Some("high".into()), summary: None });
    let up2 = adapter.from_core_request(&c, &req, &endpoint());
    assert_eq!(key(key(&up2.body, "thinking"), "budget_tokens"), &num(8191));

    // The request's own limit comes first.
    req.max_tokens = Some(100);
    let up3 = adapter.from_core_request(&c, &req, &endpoint());
    assert_eq!(key(&up3.body, "max_tokens"), &num(100));

    // Neither: the default.
    c.upstream_max_output_tokens = None;
    req.max_tokens = None;
    let up4 = adapter.from_core_request(&c, &req, &endpoint());
    assert_eq!(key(&up4.body, "max_tokens"), &num(4096));
}
