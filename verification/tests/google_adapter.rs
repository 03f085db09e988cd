use moonbridge::json::{Json, JsonNum};
use moonbridge::protocol::adapters::{GoogleGenAiAdapter, ProviderEndpoint};
use moonbridge::protocol::context::ReqCtx;
use moonbridge::protocol::ir::{ContentBlock, CoreRequest, CoreResponse, Message, Protocol, Reasoning, Role, StopReason, Tool, ToolChoice, Usage};

fn s(x: &str) -> Json {
    Json::Str(x.to_string())
}

fn num(u: u64) -> Json {
    Json::Num(JsonNum::PosInt(u))
}

fn obj(fs: Vec<(&str, Json)>) -> Json {
    Json::Object(fs.into_iter().map(|(k, v)| (k.to_string(), v)).collect())
}

fn arr(items: Vec<Json>) -> Json {
    Json::Array(items)
}

fn key<'a>(j: &'a Json, k: &str) -> &'a Json {
    j.get(k).unwrap_or_else(|| panic!("no member {k}"))
}

fn at(j: &Json, i: usize) -> &Json {
    &j.as_array().expect("array")[i]
}

fn ctx(p: Protocol) -> ReqCtx {
    ReqCtx::new("r1".to_string(), p)
}

fn text(t: &str) -> ContentBlock {
    ContentBlock::Text { text: t.to_string() }
}

fn endpoint() -> ProviderEndpoint {
    let mut e = ProviderEndpoint::new("google", Protocol::GoogleGenai, "https://generativelanguage.googleapis.com", "AIza-test");
    e.version = Some("v1beta".into());
    e
}

#[test]
fn builds_generate_content_request() {
    let mut req = CoreRequest::new("gemini-2.0-flash");
    req.system.push(text("Be brief"));
    req.messages.push(Message { role: Role::User, content: vec![text("Hi")] });
    req.tools.push(Tool {
        name: "get_time".into(),
        description: Some("tz time".into()),
        input_schema: obj(vec![("type", s("object"))]),
    });
    req.tool_choice = Some(ToolChoice::Auto);
    req.max_tokens = Some(256);
    req.temperature = Some(JsonNum::Float("0.5".into()));

    let adapter = GoogleGenAiAdapter;
    let c = ctx(Protocol::OpenAiChat);
    let up = adapter.from_core_request(&c, &req, &endpoint());

    assert!(up.url.ends_with("/v1beta/models/gemini-2.0-flash:generateContent"));
    assert_eq!(key(at(key(key(&up.body, "systemInstruction"), "parts"), 0), "text"), &s("Be brief"));
    assert_eq!(key(at(key(&up.body, "contents"), 0), "role"), &s("user"));
    assert_eq!(key(at(key(at(key(&up.body, "contents"), 0), "parts"), 0), "text"), &s("Hi"));
    assert_eq!(key(at(key(at(key(&up.body, "tools"), 0), "functionDeclarations"), 0), "name"), &s("get_time"));
    assert_eq!(key(key(key(&up.body, "toolConfig"), "functionCallingConfig"), "mode"), &s("AUTO"));
    assert_eq!(key(key(&up.body, "generationConfig"), "maxOutputTokens"), &num(256));
    assert!(up.headers.iter().any(|(k, v)| k == "x-goog-api-key" && v == "AIza-test"));
}

#[test]
fn stream_request_uses_sse_path() {
    let mut req = CoreRequest::new("gemini-2.0-flash");
    req.messages.push(Message { role: Role::User, content: vec![text("Hi")] });
    req.stream = true;
    let adapter = GoogleGenAiAdapter;
    let c = ctx(Protocol::OpenAiChat);
    let up = adapter.from_core_request(&c, &req, &endpoint());
    assert!(up.url.contains(":streamGenerateContent?alt=sse"));
    assert!(up.stream);
}

#[test]
fn bearer_auth_and_carried_config_merge() {
    let mut e = endpoint();
    e.extra.push(("auth".to_string(), s("Bearer")));
    let mut req = CoreRequest::new("g");
    req.max_tokens = Some(10);
    req.meta.push((
        "gemini.extra".to_string(),
        obj(vec![
            ("safetySettings", arr(vec![])),
            ("generationConfig", obj(vec![("responseMimeType", s("application/json")), ("maxOutputTokens", num(1))])),
        ]),
    ));
    let adapter = GoogleGenAiAdapter;
    let c = ctx(Protocol::GoogleGenai);
    let up = adapter.from_core_request(&c, &req, &e);
    assert!(up.headers.iter().any(|(k, v)| k == "authorization" && v == "Bearer AIza-test"));
    assert!(!up.headers.iter().any(|(k, _)| k == "x-goog-api-key"));
    assert_eq!(key(&up.body, "safetySettings"), &arr(vec![]));
    let gc = key(&up.body, "generationConfig");
    assert_eq!(key(gc, "responseMimeType"), &s("application/json"));
    assert_eq!(key(gc, "maxOutputTokens"), &num(10));
}

#[test]
fn parses_generate_content_response() {
    let raw = obj(vec![
        (
            "candidates",
            arr(vec![obj(vec![
                ("content", obj(vec![("role", s("model")), ("parts", arr(vec![obj(vec![("text", s("Hello there"))])]))])),
                ("finishReason", s("STOP")),
                ("index", num(0)),
            ])]),
        ),
        ("usageMetadata", obj(vec![("promptTokenCount", num(9)), ("candidatesTokenCount", num(3)), ("totalTokenCount", num(12))])),
        ("modelVersion", s("gemini-2.0-flash")),
        ("responseId", s("resp-abc")),
    ]);
    let adapter = GoogleGenAiAdapter;
    let c = ctx(Protocol::OpenAiChat);
    let resp = adapter.to_core_response(&c, &raw);

    assert_eq!(resp.id, "resp-abc");
    assert_eq!(resp.model, "gemini-2.0-flash");
    assert_eq!(resp.stop_reason, Some(StopReason::EndTurn));
    match &resp.content[0] {
        ContentBlock::Text { text } => assert_eq!(text, "Hello there"),
        other => panic!("expected text, got {other:?}"),
    }
    assert_eq!(resp.usage.input_tokens, 9);
    assert_eq!(resp.usage.output_tokens, 3);
}

#[test]
fn function_call_response_maps_to_tool_use() {
    let raw = obj(vec![(
        "candidates",
        arr(vec![obj(vec![
            (
                "content",
                obj(vec![
                    ("role", s("model")),
                    (
                        "parts",
                        arr(vec![obj(vec![(
                            "functionCall",
                            obj(vec![("name", s("get_time")), ("args", obj(vec![("tz", s("UTC"))]))]),
                        )])]),
                    ),
                ]),
            ),
            ("finishReason", s("STOP")),
        ])]),
    )]);
    let adapter = GoogleGenAiAdapter;
    let c = ctx(Protocol::OpenAiChat);
    let resp = adapter.to_core_response(&c, &raw);
    assert_eq!(resp.stop_reason, Some(StopReason::ToolUse));
    assert!(matches!(resp.content[0], ContentBlock::ToolUse { .. }));
}

#[test]
fn propagates_reasoning_as_thinking_config() {
    let adapter = GoogleGenAiAdapter;
    let c = ctx(Protocol::OpenAiChat);

    let mut req = CoreRequest::new("gemini-2.5-pro");
    req.messages.push(Message { role: Role::User, content: vec![text("Hi")] });
    req.max_tokens = Some(32000);
    req.reasoning = Some(Reasoning { effort: Some("low".into()), summary: None });
    let up = adapter.from_core_request(&c, &req, &endpoint());
    let tc = key(key(&up.body, "generationConfig"), "thinkingConfig");
    assert_eq!(key(tc, "thinkingBudget"), &num(2048));
    assert_eq!(key(tc, "includeThoughts"), &Json::Bool(true));

    let plain = CoreRequest::new("gemini-2.0-flash");
    let up2 = adapter.from_core_request(&c, &plain, &endpoint());
    assert!(up2.body.get("generationConfig").and_then(|g| g.get("thinkingConfig")).is_none());
}

#[test]
fn parses_gemini_request() {
    let raw = obj(vec![
        ("model", s("gemini-2.0-flash")),
        ("systemInstruction", obj(vec![("parts", arr(vec![obj(vec![("text", s("Be brief"))])]))])),
        (
            "contents",
            arr(vec![
                obj(vec![("role", s("user")), ("parts", arr(vec![obj(vec![("text", s("Hi"))])]))]),
                obj(vec![
                    ("role", s("model")),
                    (
                        "parts",
                        arr(vec![obj(vec![(
                            "functionCall",
                            obj(vec![("name", s("get_time")), ("args", obj(vec![("tz", s("UTC"))]))]),
                        )])]),
                    ),
                ]),
                obj(vec![
                    ("role", s("user")),
                    (
                        "parts",
                        arr(vec![obj(vec![(
                            "functionResponse",
                            obj(vec![("name", s("get_time")), ("response", obj(vec![("result", s("12:00"))]))]),
                        )])]),
                    ),
                ]),
            ]),
        ),
        (
            "tools",
            arr(vec![obj(vec![(
                "functionDeclarations",
                arr(vec![obj(vec![("name", s("get_time")), ("parameters", obj(vec![("type", s("object"))]))])]),
            )])]),
        ),
        ("toolConfig", obj(vec![("functionCallingConfig", obj(vec![("mode", s("AUTO"))]))])),
        (
            "generationConfig",
            obj(vec![
                ("maxOutputTokens", num(256)),
                ("temperature", Json::Num(JsonNum::Float("0.7".into()))),
                ("stopSequences", arr(vec![s("END")])),
            ]),
        ),
    ]);
    let adapter = GoogleGenAiAdapter;
    let c = ctx(Protocol::GoogleGenai);
    let req = adapter.to_core_request(&c, &raw);

    assert_eq!(req.model, "gemini-2.0-flash");
    assert_eq!(req.system.len(), 1);
    assert_eq!(req.messages.len(), 3);
    assert!(matches!(req.messages[1].content[0], ContentBlock::ToolUse { .. }));
    assert!(matches!(req.messages[2].content[0], ContentBlock::ToolResult { .. }));
    assert_eq!(req.tools.len(), 1);
    assert_eq!(req.max_tokens, Some(256));
    assert_eq!(req.temperature, Some(JsonNum::Float("0.7".into())));
    assert_eq!(req.stop, vec!["END".to_string()]);
    assert_eq!(req.tool_choice, Some(ToolChoice::Auto));
    assert!(req.meta.is_empty());
}

#[test]
fn gemini_client_parses_thinking_config_to_reasoning() {
    let adapter = GoogleGenAiAdapter;
    let c = ctx(Protocol::GoogleGenai);
    let req = adapter.to_core_request(
        &c,
        &obj(vec![
            ("model", s("gemini")),
            ("generationConfig", obj(vec![("thinkingConfig", obj(vec![("thinkingLevel", s("high"))]))])),
            ("contents", arr(vec![obj(vec![("role", s("user")), ("parts", arr(vec![obj(vec![("text", s("Hi"))])]))])])),
        ]),
    );
    assert_eq!(req.reasoning.as_ref().and_then(|r| r.effort.as_deref()), Some("high"));
}

#[test]
fn unparsed_members_are_carried_as_metadata() {
    let mut c = ctx(Protocol::GoogleGenai);
    c.model_alias = "alias-m".into();
    c.stream = true;
    let raw = obj(vec![
        ("safetySettings", arr(vec![])),
        ("generationConfig", obj(vec![("responseMimeType", s("application/json")), ("topP", num(1))])),
    ]);
    let req = GoogleGenAiAdapter.to_core_request(&c, &raw);
    assert_eq!(req.model, "alias-m");
    assert!(req.stream);
    assert_eq!(req.top_p, Some(JsonNum::PosInt(1)));
    assert_eq!(req.meta.len(), 1);
    assert_eq!(req.meta[0].0, "gemini.extra");
    let extra = &req.meta[0].1;
    assert_eq!(key(extra, "safetySettings"), &arr(vec![]));
    assert_eq!(key(key(extra, "generationConfig"), "responseMimeType"), &s("application/json"));
    assert!(key(extra, "generationConfig").get("topP").is_none());
}

#[test]
fn builds_gemini_response() {
    let resp = CoreResponse {
        id: "resp-9".into(),
        model: "gemini-2.0-flash".into(),
        content: vec![text("Hello")],
        stop_reason: Some(StopReason::EndTurn),
        usage: Usage { input_tokens: 6, output_tokens: 2, cache_read_tokens: 0, cache_write_tokens: 0, reasoning_tokens: 0 },
    };
    let adapter = GoogleGenAiAdapter;
    let c = ctx(Protocol::GoogleGenai);
    let out = adapter.from_core_response(&c, &resp);

    let cand = at(key(&out, "candidates"), 0);
    assert_eq!(key(key(cand, "content"), "role"), &s("model"));
    assert_eq!(key(at(key(key(cand, "content"), "parts"), 0), "text"), &s("Hello"));
    assert_eq!(key(cand, "finishReason"), &s("STOP"));
    assert_eq!(key(key(&out, "usageMetadata"), "promptTokenCount"), &num(6));
    assert_eq!(key(&out, "modelVersion"), &s("gemini-2.0-flash"));
}
