use moonbridge::protocol::responses_client::{parse_tool, parse_tool_choice};
use moonbridge::json::{Json, JsonNum};
use moonbridge::protocol::adapters::{OpenAiResponsesAdapter, ProviderEndpoint};
use moonbridge::protocol::context::ReqCtx;
use moonbridge::protocol::ir::{
    ContentBlock, CoreRequest, CoreResponse, DocSource, Message, Protocol, Reasoning, Role,
    StopReason, Tool, ToolChoice, Usage,
};
use moonbridge::protocol::responses_client::{call_item_to_message, parse_content_item};

fn s(x: &str) -> Json {
    Json::Str(x.to_string())
}

fn num(u: u64) -> Json {
    Json::Num(JsonNum::PosInt(u))
}

fn obj(fs: Vec<(&str, Json)>) -> Json {
    Json::Object(fs.into_iter().map(|(k, v)| (k.to_string(), v)).collect())
}

fn arr(items: Vec<Json>) -> Json {
    Json::Array(items)
}

fn key<'a>(j: &'a Json, k: &str) -> &'a Json {
    j.get(k).unwrap_or_else(|| panic!("no member {k}"))
}

fn items(j: &Json) -> &Vec<Json> {
    j.as_array().expect("array")
}

/// JSON equality as `serde_json` compares values: object members in any order.
fn same(a: &Json, b: &Json) -> bool {
    match (a, b) {
        (Json::Object(x), Json::Object(y)) => {
            x.len() == y.len()
                && x.iter().all(|(k, v)| y.iter().any(|(k2, v2)| k == k2 && same(v, v2)))
        }
        (Json::Array(x), Json::Array(y)) => {
            x.len() == y.len() && x.iter().zip(y.iter()).all(|(p, q)| same(p, q))
        }
        _ => a == b,
    }
}

fn ctx(p: Protocol) -> ReqCtx {
    ReqCtx::new("r1".to_string(), p)
}

fn endpoint() -> ProviderEndpoint {
    ProviderEndpoint::new("openai", Protocol::OpenAiResponse, "https://api.openai.com", "sk-test")
}

fn text(t: &str) -> ContentBlock {
    ContentBlock::Text { text: t.to_string() }
}

fn msg(role: Role, content: Vec<ContentBlock>) -> Message {
    Message { role, content }
}

fn is_type(i: &Json, t: &str) -> bool {
    i.get_str("type") == Some(t)
}

#[test]
fn extracts_reasoning_from_content_and_skips_empty() {
    let adapter = OpenAiResponsesAdapter;
    let c = ctx(Protocol::OpenAiResponse);
    let raw = obj(vec![
        ("id", s("resp_1")),
        ("model", s("m")),
        (
            "output",
            arr(vec![
                obj(vec![
                    ("type", s("reasoning")),
                    ("summary", arr(vec![])),
                    ("content", arr(vec![obj(vec![("type", s("reasoning_text")), ("text", s("deep thought"))])])),
                ]),
                obj(vec![
                    ("type", s("message")),
                    ("role", s("assistant")),
                    ("content", arr(vec![obj(vec![("type", s("output_text")), ("text", s("Hi"))])])),
                ]),
            ]),
        ),
        ("usage", obj(vec![("input_tokens", num(3)), ("output_tokens", num(9))])),
    ]);
    let resp = adapter.to_core_response(&c, &raw);
    assert_eq!(resp.content.len(), 2);
    match &resp.content[0] {
        ContentBlock::Reasoning { text, .. } => assert_eq!(text, "deep thought"),
        other => panic!("expected reasoning first, got {other:?}"),
    }

    let raw2 = obj(vec![
        ("id", s("resp_2")),
        ("model", s("m")),
        ("output", arr(vec![obj(vec![("type", s("reasoning")), ("summary", arr(vec![]))])])),
    ]);
    let resp2 = adapter.to_core_response(&c, &raw2);
    assert!(resp2.content.is_empty());

    let raw3 = obj(vec![
        ("id", s("resp_3")),
        ("model", s("m")),
        (
            "output",
            arr(vec![obj(vec![
                ("type", s("reasoning")),
                ("summary", arr(vec![])),
                ("encrypted_content", s("ENC")),
            ])]),
        ),
    ]);
    let resp3 = adapter.to_core_response(&c, &raw3);
    match &resp3.content[0] {
        ContentBlock::Reasoning { text, signature: Some(enc), .. } => {
            assert_eq!(text, "");
            assert_eq!(enc, "oai:ENC");
        }
        other => panic!("expected reasoning, got {other:?}"),
    }
}

#[test]
fn roundtrips_reasoning_item_with_encrypted_content() {
    let adapter = OpenAiResponsesAdapter;
    let c = ctx(Protocol::OpenAiResponse);
    let raw = obj(vec![
        ("model", s("m")),
        (
            "input",
            arr(vec![
                obj(vec![("type", s("reasoning")), ("summary", arr(vec![])), ("encrypted_content", s("ENC"))]),
                obj(vec![
                    ("type", s("function_call")),
                    ("call_id", s("c1")),
                    ("name", s("get_time")),
                    ("arguments", s("{}")),
                ]),
                obj(vec![("type", s("function_call_output")), ("call_id", s("c1")), ("output", s("12:00"))]),
                obj(vec![
                    ("type", s("message")),
                    ("role", s("user")),
                    ("content", arr(vec![obj(vec![("type", s("input_text")), ("text", s("thanks"))])])),
                ]),
            ]),
        ),
    ]);
    let req = adapter.to_core_request(&c, &raw);
    assert!(req.messages.iter().any(|m| m.content.iter().any(|b| matches!(
        b, ContentBlock::Reasoning { signature: Some(enc), .. } if enc == "oai:ENC"
    ))));

    let up = adapter.from_core_request(&c, &req, &endpoint());
    let input = items(key(&up.body, "input"));
    let back = input.iter().find(|i| is_type(i, "reasoning")).expect("reasoning item sent back");
    assert_eq!(key(back, "encrypted_content"), &s("ENC"));
    assert!(back.get("content").is_none());
}

#[test]
fn plain_text_reasoning_without_signature_is_not_sent_back() {
    let adapter = OpenAiResponsesAdapter;
    let c = ctx(Protocol::OpenAiResponse);
    let mut req = CoreRequest::new("m");
    req.messages.push(msg(
        Role::Assistant,
        vec![ContentBlock::Reasoning { text: "thought".into(), signature: None, redacted: false }],
    ));
    req.messages.push(msg(Role::User, vec![text("go")]));
    let up = adapter.from_core_request(&c, &req, &endpoint());
    let input = items(key(&up.body, "input"));
    assert!(!input.iter().any(|i| is_type(i, "reasoning")));
}

#[test]
fn builds_responses_request() {
    let mut req = CoreRequest::new("gpt-x");
    req.system.push(text("Be helpful"));
    req.messages.push(msg(Role::User, vec![text("Hi")]));
    req.tools.push(Tool {
        name: "get_time".into(),
        description: Some("tz time".into()),
        input_schema: obj(vec![("type", s("object"))]),
    });
    req.max_tokens = Some(512);

    let adapter = OpenAiResponsesAdapter;
    let c = ctx(Protocol::Anthropic);
    let up = adapter.from_core_request(&c, &req, &endpoint());

    assert!(up.url.ends_with("/v1/responses"));
    assert_eq!(key(&up.body, "instructions"), &s("Be helpful"));
    let input = items(key(&up.body, "input"));
    assert_eq!(key(&input[0], "role"), &s("user"));
    assert_eq!(key(&items(key(&input[0], "content"))[0], "text"), &s("Hi"));
    assert_eq!(key(&items(key(&up.body, "tools"))[0], "name"), &s("get_time"));
    assert_eq!(key(&up.body, "max_output_tokens"), &num(512));
    assert!(up.headers.iter().any(|(k, v)| k == "authorization" && v == "Bearer sk-test"));
}

#[test]
fn omits_max_output_tokens_when_unset() {
    let adapter = OpenAiResponsesAdapter;
    let c = ctx(Protocol::Anthropic);
    let req = CoreRequest::new("gpt-x");
    let up = adapter.from_core_request(&c, &req, &endpoint());
    assert!(up.body.get("max_output_tokens").is_none());
}

#[test]
fn assistant_history_text_uses_output_text() {
    let mut req = CoreRequest::new("gpt-x");
    req.messages.push(msg(Role::User, vec![text("Hi")]));
    req.messages.push(msg(Role::Assistant, vec![text("Hello!")]));
    req.messages.push(msg(Role::User, vec![text("thanks")]));

    let adapter = OpenAiResponsesAdapter;
    let c = ctx(Protocol::Anthropic);
    let up = adapter.from_core_request(&c, &req, &endpoint());

    let input = items(key(&up.body, "input"));
    let assistant = input
        .iter()
        .find(|it| is_type(it, "message") && it.get_str("role") == Some("assistant"))
        .expect("assistant message item");
    let part = &items(key(assistant, "content"))[0];
    assert_eq!(key(part, "type"), &s("output_text"));
    assert_eq!(key(part, "text"), &s("Hello!"));
    let user = input
        .iter()
        .find(|it| is_type(it, "message") && it.get_str("role") == Some("user"))
        .unwrap();
    assert_eq!(key(&items(key(user, "content"))[0], "type"), &s("input_text"));
}

#[test]
fn parses_responses_output() {
    let raw = obj(vec![
        ("id", s("resp_1")),
        ("object", s("response")),
        ("model", s("gpt-x")),
        ("status", s("completed")),
        (
            "output",
            arr(vec![
                obj(vec![
                    ("type", s("message")),
                    ("role", s("assistant")),
                    ("content", arr(vec![obj(vec![("type", s("output_text")), ("text", s("Hello"))])])),
                ]),
                obj(vec![
                    ("type", s("function_call")),
                    ("call_id", s("c1")),
                    ("name", s("get_time")),
                    ("arguments", s("{\"tz\":\"UTC\"}")),
                ]),
            ]),
        ),
        ("usage", obj(vec![("input_tokens", num(8)), ("output_tokens", num(4)), ("total_tokens", num(12))])),
    ]);
    let adapter = OpenAiResponsesAdapter;
    let c = ctx(Protocol::Anthropic);
    let resp = adapter.to_core_response(&c, &raw);

    assert_eq!(resp.id, "resp_1");
    assert_eq!(resp.content.len(), 2);
    assert!(matches!(resp.content[0], ContentBlock::Text { .. }));
    match &resp.content[1] {
        ContentBlock::ToolUse { id, name, input, .. } => {
            assert_eq!(id, "c1");
            assert_eq!(name, "get_time");
            assert_eq!(key(input, "tz"), &s("UTC"));
        }
        other => panic!("expected tool_use, got {other:?}"),
    }
    assert_eq!(resp.stop_reason, Some(StopReason::ToolUse));
    assert_eq!(
        resp.usage,
        Usage { input_tokens: 8, output_tokens: 4, cache_read_tokens: 0, cache_write_tokens: 0, reasoning_tokens: 0 }
    );
}

#[test]
fn propagates_reasoning_object() {
    let adapter = OpenAiResponsesAdapter;
    let c = ctx(Protocol::OpenAiResponse);

    let mut req = CoreRequest::new("gpt-5");
    req.messages.push(msg(Role::User, vec![text("Hi")]));
    req.reasoning = Some(Reasoning { effort: Some("medium".into()), summary: Some(s("auto")) });
    let up = adapter.from_core_request(&c, &req, &endpoint());
    assert_eq!(key(key(&up.body, "reasoning"), "effort"), &s("medium"));
    assert_eq!(key(key(&up.body, "reasoning"), "summary"), &s("auto"));

    let plain = CoreRequest::new("gpt-5");
    let up2 = adapter.from_core_request(&c, &plain, &endpoint());
    assert!(up2.body.get("reasoning").is_none());
}

#[test]
fn tool_result_image_stays_inside_function_call_output() {
    let mut req = CoreRequest::new("gpt-x");
    req.messages.push(msg(
        Role::Tool,
        vec![
            ContentBlock::ToolResult {
                tool_use_id: "c1".into(),
                content: vec![
                    text("shot"),
                    ContentBlock::Image { data: "AAA".into(), media_type: "image/png".into() },
                    ContentBlock::Image { data: "https://example.com/x.png".into(), media_type: "url".into() },
                ],
                is_error: false,
            },
            ContentBlock::ToolResult { tool_use_id: "c2".into(), content: vec![text("plain")], is_error: false },
        ],
    ));
    let adapter = OpenAiResponsesAdapter;
    let c = ctx(Protocol::Anthropic);
    let up = adapter.from_core_request(&c, &req, &endpoint());
    let input = items(key(&up.body, "input"));
    let fco = input
        .iter()
        .find(|i| is_type(i, "function_call_output") && i.get_str("call_id") == Some("c1"))
        .unwrap();
    let parts = items(key(fco, "output"));
    assert!(same(&parts[0], &obj(vec![("type", s("input_text")), ("text", s("shot"))])));
    assert!(same(
        &parts[1],
        &obj(vec![("type", s("input_image")), ("image_url", s("data:image/png;base64,AAA"))])
    ));
    assert!(same(
        &parts[2],
        &obj(vec![("type", s("input_image")), ("image_url", s("https://example.com/x.png"))])
    ));
    let fco2 = input
        .iter()
        .find(|i| is_type(i, "function_call_output") && i.get_str("call_id") == Some("c2"))
        .unwrap();
    assert_eq!(key(fco2, "output"), &s("plain"));
}

#[test]
fn documents_and_typed_call_items_roundtrip() {
    let mut req = CoreRequest::new("gpt-x");
    req.messages.push(msg(
        Role::User,
        vec![
            ContentBlock::Document {
                source: DocSource::File,
                media_type: "application/pdf".into(),
                data: "file-1".into(),
                name: Some("a.pdf".into()),
            },
            ContentBlock::Document {
                source: DocSource::Base64,
                media_type: "application/pdf".into(),
                data: "PP".into(),
                name: None,
            },
        ],
    ));
    req.messages.push(msg(
        Role::Assistant,
        vec![ContentBlock::ToolUse {
            id: "ct1".into(),
            name: "exec".into(),
            namespace: Some("custom_tool_call".into()),
            input: obj(vec![("c", s("ls"))]),
            signature: None,
        }],
    ));
    req.messages.push(msg(
        Role::Tool,
        vec![ContentBlock::ToolResult {
            tool_use_id: "ct1".into(),
            content: vec![
                text("ok"),
                ContentBlock::Document {
                    source: DocSource::Url,
                    media_type: "application/pdf".into(),
                    data: "https://x/r.pdf".into(),
                    name: None,
                },
            ],
            is_error: false,
        }],
    ));

    let adapter = OpenAiResponsesAdapter;
    let c = ctx(Protocol::Anthropic);
    let up = adapter.from_core_request(&c, &req, &endpoint());
    let input = items(key(&up.body, "input"));

    let m = input.iter().find(|i| is_type(i, "message")).unwrap();
    let content = items(key(m, "content"));
    assert!(same(
        &content[0],
        &obj(vec![("type", s("input_file")), ("file_id", s("file-1")), ("filename", s("a.pdf"))])
    ));
    assert_eq!(key(&content[1], "file_data"), &s("data:application/pdf;base64,PP"));

    let call = input.iter().find(|i| is_type(i, "custom_tool_call")).unwrap();
    assert_eq!(key(call, "call_id"), &s("ct1"));
    assert_eq!(key(call, "input"), &s("{\"c\":\"ls\"}"));

    let out = input
        .iter()
        .find(|i| is_type(i, "custom_tool_call_output") && i.get_str("call_id") == Some("ct1"))
        .unwrap();
    let parts = items(key(out, "output"));
    assert!(same(&parts[0], &obj(vec![("type", s("input_text")), ("text", s("ok"))])));
    assert!(same(&parts[1], &obj(vec![("type", s("input_file")), ("file_url", s("https://x/r.pdf"))])));
}

#[test]
fn function_call_output_array_parts_parse() {
    let raw = obj(vec![
        ("model", s("gpt-x")),
        (
            "input",
            arr(vec![
                obj(vec![
                    ("type", s("function_call_output")),
                    ("call_id", s("c1")),
                    (
                        "output",
                        arr(vec![
                            obj(vec![("type", s("output_text")), ("text", s("shot"))]),
                            obj(vec![("type", s("input_image")), ("image_url", s("data:image/png;base64,AAA"))]),
                            obj(vec![("type", s("input_image")), ("image_url", s("https://example.com/x.png"))]),
                        ]),
                    ),
                ]),
                obj(vec![("type", s("function_call_output")), ("call_id", s("c2")), ("output", s("plain"))]),
            ]),
        ),
    ]);
    let adapter = OpenAiResponsesAdapter;
    let c = ctx(Protocol::OpenAiResponse);
    let req = adapter.to_core_request(&c, &raw);

    assert_eq!(req.messages.len(), 2);
    let ContentBlock::ToolResult { tool_use_id, content, .. } = &req.messages[0].content[0] else {
        panic!("expected a tool result: {:?}", req.messages[0].content)
    };
    assert_eq!(tool_use_id, "c1");
    assert_eq!(content.len(), 3);
    assert!(matches!(&content[0], ContentBlock::Text { text } if text == "shot"));
    assert!(matches!(&content[1], ContentBlock::Image { data, media_type }
        if data == "AAA" && media_type == "image/png"));
    assert!(matches!(&content[2], ContentBlock::Image { data, media_type }
        if data == "https://example.com/x.png" && media_type == "url"));

    let ContentBlock::ToolResult { content, .. } = &req.messages[1].content[0] else {
        panic!("expected a tool result: {:?}", req.messages[1].content)
    };
    assert_eq!(content.len(), 1);
    assert!(matches!(&content[0], ContentBlock::Text { text } if text == "plain"));
}

#[test]
fn inline_source_image_dispatches_by_type() {
    let b64 = parse_content_item(&obj(vec![
        ("type", s("input_image")),
        ("source", obj(vec![("type", s("base64")), ("media_type", s("image/jpeg")), ("data", s("JJJ"))])),
    ]))
    .unwrap();
    assert!(matches!(&b64, ContentBlock::Image { data, media_type }
        if data == "JJJ" && media_type == "image/jpeg"));

    let file = parse_content_item(&obj(vec![
        ("type", s("input_image")),
        ("source", obj(vec![("type", s("file")), ("file_id", s("file_x"))])),
    ]))
    .unwrap();
    assert!(matches!(&file, ContentBlock::Image { data, media_type }
        if data == "file_x" && media_type == "file"));

    let fallback = parse_content_item(&obj(vec![
        ("type", s("input_image")),
        ("image_url", s("https://example.com/f.png")),
        ("source", obj(vec![])),
    ]))
    .unwrap();
    assert!(matches!(&fallback, ContentBlock::Image { data, media_type }
        if data == "https://example.com/f.png" && media_type == "url"));
}

#[test]
fn input_file_parts_parse() {
    let by_id = parse_content_item(&obj(vec![
        ("type", s("input_file")),
        ("file_id", s("file-1")),
        ("filename", s("a.pdf")),
    ]))
    .unwrap();
    assert!(matches!(&by_id, ContentBlock::Document { source, data, name, .. }
        if *source == DocSource::File && data == "file-1" && name.as_deref() == Some("a.pdf")));

    let by_data = parse_content_item(&obj(vec![
        ("type", s("input_file")),
        ("file_data", s("data:application/pdf;base64,PP")),
        ("filename", s("b.pdf")),
    ]))
    .unwrap();
    assert!(matches!(&by_data, ContentBlock::Document { source, media_type, data, .. }
        if *source == DocSource::Base64 && media_type == "application/pdf" && data == "PP"));
}

#[test]
fn non_function_call_items_parse() {
    let raw = obj(vec![
        ("model", s("gpt-x")),
        (
            "input",
            arr(vec![
                obj(vec![
                    ("type", s("custom_tool_call")),
                    ("call_id", s("ct1")),
                    ("name", s("exec")),
                    ("input", s("{\"c\":\"ls\"}")),
                ]),
                obj(vec![("type", s("custom_tool_call_output")), ("call_id", s("ct1")), ("output", s("done"))]),
                obj(vec![
                    ("type", s("computer_call")),
                    ("call_id", s("cc1")),
                    ("action", obj(vec![("type", s("click")), ("x", num(1))])),
                ]),
                obj(vec![
                    ("type", s("computer_call_output")),
                    ("call_id", s("cc1")),
                    ("output", obj(vec![("type", s("computer_screenshot")), ("image_url", s("https://x/s.png"))])),
                ]),
            ]),
        ),
    ]);
    let adapter = OpenAiResponsesAdapter;
    let c = ctx(Protocol::OpenAiResponse);
    let req = adapter.to_core_request(&c, &raw);
    assert_eq!(req.messages.len(), 4);

    let ContentBlock::ToolUse { id, name, namespace, input, .. } = &req.messages[0].content[0] else {
        panic!()
    };
    assert_eq!((id.as_str(), name.as_str()), ("ct1", "exec"));
    assert_eq!(namespace.as_deref(), Some("custom_tool_call"));
    assert_eq!(key(input, "c"), &s("ls"));

    let ContentBlock::ToolResult { tool_use_id, .. } = &req.messages[1].content[0] else { panic!() };
    assert_eq!(tool_use_id, "ct1");

    let ContentBlock::ToolUse { id, namespace, input, .. } = &req.messages[2].content[0] else { panic!() };
    assert_eq!((id.as_str(), namespace.as_deref()), ("cc1", Some("computer_call")));
    assert_eq!(key(input, "type"), &s("click"));

    let ContentBlock::ToolResult { content, .. } = &req.messages[3].content[0] else { panic!() };
    assert!(matches!(&content[0], ContentBlock::Image { .. }));
}

#[test]
fn object_form_arguments_parse() {
    let m = call_item_to_message(
        &obj(vec![
            ("type", s("function_call")),
            ("call_id", s("c1")),
            ("name", s("f")),
            ("arguments", obj(vec![("x", num(1))])),
        ]),
        None,
    );
    let ContentBlock::ToolUse { input, .. } = &m.content[0] else { panic!() };
    assert_eq!(key(input, "x"), &num(1));
}

#[test]
fn instructions_and_sampling_fields_carry_over() {
    let raw = obj(vec![
        ("model", s("gpt-x")),
        ("instructions", s("be brief")),
        ("input", s("hello")),
        ("max_output_tokens", num(100)),
        ("max_tokens", num(7)),
        ("temperature", Json::Num(JsonNum::Float("0.5".into()))),
        ("stream", Json::Bool(true)),
        ("tool_choice", obj(vec![("type", s("function")), ("name", s("f"))])),
        ("store", Json::Bool(false)),
        ("reasoning", obj(vec![("effort", s("high"))])),
    ]);
    let adapter = OpenAiResponsesAdapter;
    let c = ctx(Protocol::OpenAiResponse);
    let req = adapter.to_core_request(&c, &raw);
    assert_eq!(req.model, "gpt-x");
    assert_eq!(req.model_alias, "gpt-x");
    assert_eq!(req.system, vec![text("be brief")]);
    assert_eq!(req.messages, vec![msg(Role::User, vec![text("hello")])]);
    assert_eq!(req.max_tokens, Some(100));
    assert_eq!(req.temperature, Some(JsonNum::Float("0.5".into())));
    assert!(req.stream);
    assert_eq!(req.tool_choice, Some(ToolChoice::Tool { name: "f".into() }));
    assert_eq!(req.reasoning, Some(Reasoning { effort: Some("high".into()), summary: None }));
    assert_eq!(req.meta.len(), 1);
    assert_eq!(req.meta[0].0, "responses.extra");
    assert!(same(&req.meta[0].1, &obj(vec![("store", Json::Bool(false))])));

    // The carried-along members go back into the upstream body.
    let up = adapter.from_core_request(&c, &req, &endpoint());
    assert_eq!(key(&up.body, "store"), &Json::Bool(false));
    assert_eq!(key(&up.body, "stream"), &Json::Bool(true));
    assert!(same(key(&up.body, "include"), &arr(vec![s("reasoning.encrypted_content")])));
    assert!(same(key(&up.body, "tool_choice"), &obj(vec![("type", s("function")), ("name", s("f"))])));
    assert_eq!(up.method, "POST");
}

#[test]
fn response_object_groups_text_and_marks_truncation() {
    let adapter = OpenAiResponsesAdapter;
    let c = ctx(Protocol::OpenAiResponse);
    let resp = CoreResponse {
        id: "resp_9".into(),
        model: "m".into(),
        content: vec![
            text("a"),
            ContentBlock::Reasoning { text: "why".into(), signature: Some("oai:E".into()), redacted: false },
            text("b"),
            ContentBlock::ToolUse {
                id: "c1".into(),
                name: "f".into(),
                namespace: None,
                input: obj(vec![]),
                signature: None,
            },
            text("c"),
        ],
        stop_reason: Some(StopReason::MaxTokens),
        usage: Usage { input_tokens: 2, output_tokens: 3, cache_read_tokens: 0, cache_write_tokens: 0, reasoning_tokens: 0 },
    };
    let v = adapter.from_core_response_at(&c, &resp, 42);
    assert_eq!(key(&v, "created_at"), &num(42));
    assert_eq!(key(&v, "status"), &s("incomplete"));
    assert!(same(key(&v, "incomplete_details"), &obj(vec![("reason", s("max_output_tokens"))])));
    let out = items(key(&v, "output"));
    assert_eq!(out.len(), 4);
    assert_eq!(key(&out[0], "id"), &s("rs_1"));
    assert_eq!(key(&out[0], "encrypted_content"), &s("E"));
    assert_eq!(key(&out[1], "id"), &s("msg_1"));
    let part = &items(key(&out[1], "content"))[0];
    assert_eq!(key(part, "text"), &s("ab"));
    assert_eq!(key(&out[2], "type"), &s("function_call"));
    assert_eq!(key(&out[2], "arguments"), &s("{}"));
    assert_eq!(key(&out[3], "id"), &s("msg_2"));
    assert_eq!(key(key(&v, "usage"), "total_tokens"), &num(5));

    let now = adapter.from_core_response(&c, &resp);
    assert!(now.get("created_at").and_then(|x| x.as_u64()).is_some());
}

#[test]
fn tool_choice_and_tools_read_back() {
    let adapter = OpenAiResponsesAdapter;
    let c = ctx(Protocol::OpenAiResponse);
    for tc in [ToolChoice::Auto, ToolChoice::NoTools, ToolChoice::Required, ToolChoice::Tool { name: "f".into() }] {
        let mut req = CoreRequest::new("m");
        req.tool_choice = Some(tc.clone());
        req.tools.push(Tool { name: "f".into(), description: None, input_schema: obj(vec![("type", s("object"))]) });
        let up = adapter.from_core_request(&c, &req, &endpoint());
        assert_eq!(parse_tool_choice(key(&up.body, "tool_choice")), Some(tc));
        let t = parse_tool(&items(key(&up.body, "tools"))[0]).unwrap();
        assert_eq!(t, Tool { name: "f".into(), description: None, input_schema: obj(vec![("type", s("object"))]) });
    }
}

#[test]
fn instructions_become_the_system_once() {
    let raw = obj(vec![("model", s("gpt-x")), ("instructions", s("Be helpful")), ("input", s("Hi"))]);
    let adapter = OpenAiResponsesAdapter;
    let req = adapter.to_core_request(&ctx(Protocol::OpenAiResponse), &raw);
    assert_eq!(req.model, "gpt-x");
    assert_eq!(req.model_alias, "gpt-x");
    assert_eq!(req.system, vec![text("Be helpful")]);
    assert_eq!(req.messages, vec![msg(Role::User, vec![text("Hi")])]);
    assert!(req.meta.iter().all(|(k, _)| k != "responses.extra"));
}
