use moonbridge::json::{Json, JsonNum};
use moonbridge::protocol::chat::{
    chat_choice_to_core, chat_to_core_messages, chat_tools_to_core, core_to_chat_messages,
    core_to_chat_response_message, core_to_chat_tools, extract_system, map_finish_reason,
    parse_chat_content, parse_tool_choice, split_mb_cot, str_field, unmap_stop_reason,
    unparse_tool_choice, usage_from_chat, usage_object,
};
use moonbridge::protocol::ir::{ContentBlock, Message, Role, StopReason, Tool, ToolChoice, Usage};

fn s(x: &str) -> Json {
    Json::Str(x.to_string())
}

fn obj(fs: Vec<(&str, Json)>) -> Json {
    Json::Object(fs.into_iter().map(|(k, v)| (k.to_string(), v)).collect())
}

fn num(u: u64) -> Json {
    Json::Num(JsonNum::PosInt(u))
}

fn key<'a>(j: &'a Json, k: &str) -> &'a Json {
    j.get(k).unwrap_or_else(|| panic!("no member {k}"))
}

fn reasoning(text: &str, signature: Option<&str>) -> ContentBlock {
    ContentBlock::Reasoning {
        text: text.to_string(),
        signature: signature.map(String::from),
        redacted: false,
    }
}

#[test]
fn chat_choice_to_core_carries_reasoning() {
    let choice = obj(vec![
        (
            "message",
            obj(vec![
                ("role", s("assistant")),
                ("content", s("pong")),
                ("reasoning_content", s("let me think")),
            ]),
        ),
        ("finish_reason", s("stop")),
    ]);
    let (content, finish) = chat_choice_to_core(&choice);
    assert_eq!(finish, Some(StopReason::EndTurn));
    assert_eq!(content.len(), 2);
    match &content[0] {
        ContentBlock::Reasoning { text, signature, .. } => {
            assert_eq!(text, "let me think");
            assert!(signature.is_none());
        }
        other => panic!("expected reasoning first, got {other:?}"),
    }
    match &content[1] {
        ContentBlock::Text { text } => assert_eq!(text, "pong"),
        other => panic!("expected text, got {other:?}"),
    }
}

#[test]
fn chat_choice_to_core_without_reasoning_is_unchanged() {
    let choice = obj(vec![
        ("message", obj(vec![("role", s("assistant")), ("content", s("hi"))])),
        ("finish_reason", s("stop")),
    ]);
    let (content, _) = chat_choice_to_core(&choice);
    assert_eq!(content.len(), 1);
    assert!(matches!(&content[0], ContentBlock::Text { text } if text == "hi"));
}

fn assistant_with_reasoning(r: &str) -> Json {
    obj(vec![("role", s("assistant")), ("content", s("Hi")), ("reasoning_content", s(r))])
}

#[test]
fn reasoning_credential_roundtrips_via_mb_cot_marker() {
    let msg = core_to_chat_response_message(&[
        reasoning("thought", Some("ENC")),
        ContentBlock::Text { text: "Hi".to_string() },
    ]);
    assert_eq!(key(&msg, "reasoning_content"), &s("thought<mb-cot>ENC</mb-cot>"));
    assert_eq!(key(&msg, "reasoning"), &s("thought<mb-cot>ENC</mb-cot>"));
    let plain = core_to_chat_response_message(&[reasoning("pure", None)]);
    assert_eq!(key(&plain, "reasoning_content"), &s("pure"));

    let msgs = chat_to_core_messages(&[assistant_with_reasoning("thought<mb-cot>ENC</mb-cot>")]);
    match &msgs[0].content[0] {
        ContentBlock::Reasoning { text, signature: Some(enc), .. } => {
            assert_eq!(text, "thought");
            assert_eq!(enc, "ENC");
        }
        other => panic!("expected reasoning with credential, got {other:?}"),
    }

    let msgs2 = chat_to_core_messages(&[assistant_with_reasoning("<mb-cot>ENC</mb-cot>")]);
    assert!(matches!(
        &msgs2[0].content[0],
        ContentBlock::Reasoning { text, signature: Some(enc), .. } if text.is_empty() && enc == "ENC"
    ));

    let msgs3 = chat_to_core_messages(&[assistant_with_reasoning("plain upstream thought")]);
    assert!(matches!(
        &msgs3[0].content[0],
        ContentBlock::Reasoning { text, signature: None, .. } if text == "plain upstream thought"
    ));
}

#[test]
fn finish_reasons_map_both_ways() {
    assert_eq!(map_finish_reason("stop"), Some(StopReason::EndTurn));
    assert_eq!(map_finish_reason("length"), Some(StopReason::MaxTokens));
    assert_eq!(map_finish_reason("tool_calls"), Some(StopReason::ToolUse));
    assert_eq!(map_finish_reason("content_filter"), Some(StopReason::ContentFilter));
    assert_eq!(map_finish_reason("something"), None);
    assert_eq!(unmap_stop_reason(Some(StopReason::ToolUse)), "tool_calls");
    assert_eq!(unmap_stop_reason(Some(StopReason::MaxTokens)), "length");
}

#[test]
fn mb_cot_split_edges() {
    assert_eq!(split_mb_cot("a<mb-cot>S</mb-cot>"), ("a".to_string(), Some("S".to_string())));
    assert_eq!(split_mb_cot("no marker"), ("no marker".to_string(), None));
    assert_eq!(split_mb_cot("open<mb-cot>only"), ("open<mb-cot>only".to_string(), None));
}

#[test]
fn content_parts_and_fields() {
    assert_eq!(parse_chat_content(Some(&s("hello"))), vec![ContentBlock::Text { text: "hello".to_string() }]);
    assert!(parse_chat_content(None).is_empty());
    let v = obj(vec![("name", s("x")), ("n", num(1))]);
    assert_eq!(str_field(&v, "name"), "x");
    assert_eq!(str_field(&v, "n"), "");
    assert_eq!(str_field(&v, "missing"), "");
}

#[test]
fn usage_roundtrip_and_total() {
    let v = obj(vec![
        ("prompt_tokens", num(11)),
        ("completion_tokens", num(5)),
        ("completion_tokens_details", obj(vec![("reasoning_tokens", num(2))])),
    ]);
    let u = usage_from_chat(&v);
    assert_eq!(u.input_tokens, 11);
    assert_eq!(u.output_tokens, 5);
    assert_eq!(u.reasoning_tokens, 2);
    let back = usage_object(&Usage {
        input_tokens: 11,
        output_tokens: 5,
        cache_read_tokens: 0,
        cache_write_tokens: 0,
        reasoning_tokens: 2,
    });
    assert_eq!(back.get_u64("total_tokens"), Some(16));
    assert_eq!(back.get_u64("prompt_tokens"), Some(11));
}

#[test]
fn tool_choice_roundtrip() {
    for c in [
        ToolChoice::Auto,
        ToolChoice::NoTools,
        ToolChoice::Required,
        ToolChoice::Tool { name: "f".to_string() },
    ] {
        assert_eq!(parse_tool_choice(&unparse_tool_choice(&c)), Some(c));
    }
    assert_eq!(parse_tool_choice(&s("sometimes")), None);
}

#[test]
fn chat_tools_roundtrip() {
    let tools = vec![
        Tool {
            name: "weather".to_string(),
            description: Some("forecast".to_string()),
            input_schema: obj(vec![("type", s("object"))]),
        },
        Tool { name: "time".to_string(), description: None, input_schema: obj(vec![]) },
    ];
    let chat = core_to_chat_tools(&tools);
    assert_eq!(chat.len(), 2);
    assert_eq!(key(&chat[0], "type"), &s("function"));
    assert_eq!(chat_tools_to_core(&chat), tools);
}

#[test]
fn system_messages_are_extracted_in_order() {
    let msgs = vec![
        Message { role: Role::System, content: vec![ContentBlock::Text { text: "a".to_string() }] },
        Message { role: Role::User, content: vec![ContentBlock::Text { text: "q".to_string() }] },
        Message { role: Role::System, content: vec![ContentBlock::Text { text: "b".to_string() }] },
    ];
    let (system, rest) = extract_system(msgs);
    assert_eq!(
        system,
        vec![ContentBlock::Text { text: "a".to_string() }, ContentBlock::Text { text: "b".to_string() }]
    );
    assert_eq!(rest.len(), 1);
    assert_eq!(rest[0].role, Role::User);
}

#[test]
fn chat_messages_keep_system_first() {
    let system = vec![ContentBlock::Text { text: "be brief".to_string() }];
    let msgs = vec![Message { role: Role::User, content: vec![ContentBlock::Text { text: "q".to_string() }] }];
    let out = core_to_chat_messages(&system, &msgs);
    assert_eq!(out.len(), 2);
    assert_eq!(key(&out[0], "role"), &s("system"));
    assert_eq!(key(&out[1], "role"), &s("user"));
    let back = chat_to_core_messages(&out);
    assert_eq!(back.len(), 2);
    assert_eq!(back[0].role, Role::System);
}

#[test]
fn mb_cot_split_undoes_the_marker() {
    assert_eq!(split_mb_cot("thought<mb-cot>ENC</mb-cot>"), ("thought".to_string(), Some("ENC".to_string())));
    assert_eq!(split_mb_cot("<mb-cot>ENC</mb-cot>"), (String::new(), Some("ENC".to_string())));
    assert_eq!(split_mb_cot("plain upstream thought"), ("plain upstream thought".to_string(), None));
    assert_eq!(split_mb_cot(" t <mb-cot> e </mb-cot>"), ("t".to_string(), Some("e".to_string())));
}
