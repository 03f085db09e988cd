use moonbridge::json::Json;
use moonbridge::protocol::google::{
    candidate_to_core, contents_to_core, core_to_contents, core_to_generation_config,
    core_to_system_instruction, core_to_tool_config, core_to_tools, part_to_blocks,
    system_instruction_to_core, tool_config_to_core, tools_to_core, EXEC_CODE,
};
use moonbridge::protocol::ir::{
    ContentBlock, CoreRequest, DocSource, Message, Reasoning, Role, StopReason, Tool, ToolChoice,
};

fn s(x: &str) -> Json {
    Json::Str(x.to_string())
}

fn obj(fs: Vec<(&str, Json)>) -> Json {
    Json::Object(fs.into_iter().map(|(k, v)| (k.to_string(), v)).collect())
}

fn arr(items: Vec<Json>) -> Json {
    Json::Array(items)
}

fn key<'a>(j: &'a Json, k: &str) -> &'a Json {
    j.get(k).unwrap_or_else(|| panic!("no member {k}"))
}

fn item(j: &Json, i: usize) -> &Json {
    &j.as_array().expect("array")[i]
}

fn len(j: &Json) -> usize {
    j.as_array().expect("array").len()
}

/// JSON equality as `serde_json` compares values: object members in any order.
fn same(a: &Json, b: &Json) -> bool {
    match (a, b) {
        (Json::Object(x), Json::Object(y)) => {
            x.len() == y.len()
                && x.iter().all(|(k, v)| y.iter().any(|(k2, v2)| k == k2 && same(v, v2)))
        }
        (Json::Array(x), Json::Array(y)) => {
            x.len() == y.len() && x.iter().zip(y.iter()).all(|(p, q)| same(p, q))
        }
        _ => a == b,
    }
}

fn text(t: &str) -> ContentBlock {
    ContentBlock::Text { text: t.to_string() }
}

fn tool_use(id: &str, name: &str, input: Json, signature: Option<&str>) -> ContentBlock {
    ContentBlock::ToolUse {
        id: id.to_string(),
        name: name.to_string(),
        namespace: None,
        input,
        signature: signature.map(String::from),
    }
}

fn tool_result(id: &str, content: Vec<ContentBlock>, is_error: bool) -> ContentBlock {
    ContentBlock::ToolResult { tool_use_id: id.to_string(), content, is_error }
}

fn msg(role: Role, content: Vec<ContentBlock>) -> Message {
    Message { role, content }
}

#[test]
fn thought_signature_roundtrips() {
    let part = obj(vec![
        ("text", s("thinking...")),
        ("thought", Json::Bool(true)),
        ("thoughtSignature", s("SIG")),
    ]);
    let blocks = part_to_blocks(&part);
    match &blocks[0] {
        ContentBlock::Reasoning { text, signature: Some(sig), .. } => {
            assert_eq!(text, "thinking...");
            assert_eq!(sig, "gem:SIG");
        }
        other => panic!("expected reasoning, got {other:?}"),
    }
    let msgs = vec![msg(Role::Assistant, blocks)];
    let contents = core_to_contents(&msgs);
    let p = item(key(&contents[0], "parts"), 0);
    assert_eq!(key(p, "thought"), &Json::Bool(true));
    assert_eq!(key(p, "thoughtSignature"), &s("SIG"));
    assert_eq!(key(p, "text"), &s("thinking..."));
}

#[test]
fn roundtrips_tool_result_by_name() {
    let msgs = vec![
        msg(Role::Assistant, vec![tool_use("c1", "get_time", obj(vec![("tz", s("UTC"))]), None)]),
        msg(Role::Tool, vec![tool_result("c1", vec![text("12:00")], false)]),
    ];
    let contents = core_to_contents(&msgs);
    assert_eq!(key(&contents[0], "role"), &s("model"));
    assert_eq!(key(key(item(key(&contents[0], "parts"), 0), "functionCall"), "name"), &s("get_time"));
    assert_eq!(key(&contents[1], "role"), &s("user"));
    let fr = key(item(key(&contents[1], "parts"), 0), "functionResponse");
    assert_eq!(key(fr, "name"), &s("get_time"));
    assert_eq!(key(key(fr, "response"), "result"), &s("12:00"));
}

#[test]
fn parses_candidate_with_function_call() {
    let cand = obj(vec![
        (
            "content",
            obj(vec![
                ("role", s("model")),
                (
                    "parts",
                    arr(vec![obj(vec![(
                        "functionCall",
                        obj(vec![("name", s("get_time")), ("args", obj(vec![("tz", s("UTC"))]))]),
                    )])]),
                ),
            ]),
        ),
        ("finishReason", s("STOP")),
    ]);
    let (content, finish) = candidate_to_core(&cand);
    assert_eq!(finish, Some(StopReason::EndTurn));
    match &content[0] {
        ContentBlock::ToolUse { name, input, id, .. } => {
            assert_eq!(name, "get_time");
            assert_eq!(key(input, "tz"), &s("UTC"));
            assert!(!id.is_empty());
        }
        other => panic!("expected tool_use, got {other:?}"),
    }
}

#[test]
fn function_call_thought_signature_roundtrips() {
    let cand = obj(vec![
        (
            "content",
            obj(vec![
                ("role", s("model")),
                (
                    "parts",
                    arr(vec![obj(vec![
                        (
                            "functionCall",
                            obj(vec![("name", s("get_time")), ("args", obj(vec![("tz", s("UTC"))]))]),
                        ),
                        ("thoughtSignature", s("SIG")),
                    ])]),
                ),
            ]),
        ),
        ("finishReason", s("STOP")),
    ]);
    let (content, _) = candidate_to_core(&cand);
    match &content[0] {
        ContentBlock::Reasoning { text, signature: Some(sig), .. } => {
            assert!(text.is_empty());
            assert_eq!(sig, "gem:SIG");
        }
        other => panic!("expected signature carrier, got {other:?}"),
    }
    match &content[1] {
        ContentBlock::ToolUse { signature: Some(sig), .. } => assert_eq!(sig, "gem:SIG"),
        other => panic!("expected tool_use with signature, got {other:?}"),
    }

    let contents = core_to_contents(&[
        msg(Role::User, vec![text("q")]),
        msg(Role::Assistant, vec![tool_use("c1", "get_time", obj(vec![("tz", s("UTC"))]), Some("SIG"))]),
    ]);
    let fc = key(item(key(&contents[1], "parts"), 0), "functionCall");
    assert_eq!(key(fc, "thoughtSignature"), &s("SIG"));
}

#[test]
fn text_part_signature_detaches_to_carrier() {
    let blocks = part_to_blocks(&obj(vec![("text", s("Hi")), ("thoughtSignature", s("S"))]));
    assert_eq!(blocks.len(), 2);
    match &blocks[0] {
        ContentBlock::Text { text } => assert_eq!(text, "Hi"),
        other => panic!("expected text, got {other:?}"),
    }
    match &blocks[1] {
        ContentBlock::Reasoning { text, signature, .. } => {
            assert!(text.is_empty());
            assert_eq!(signature.as_deref(), Some("gem:S"));
        }
        other => panic!("expected carrier, got {other:?}"),
    }
    let contents = core_to_contents(&[msg(Role::Assistant, blocks)]);
    let parts = key(&contents[0], "parts");
    assert_eq!(len(parts), 1);
    assert_eq!(key(item(parts, 0), "text"), &s("Hi"));
    assert_eq!(key(item(parts, 0), "thoughtSignature"), &s("S"));
}

#[test]
fn consecutive_tool_results_merge_into_one_user_content() {
    let msgs = vec![
        msg(Role::User, vec![text("q")]),
        msg(
            Role::Assistant,
            vec![tool_use("c1", "a", obj(vec![]), None), tool_use("c2", "b", obj(vec![]), None)],
        ),
        msg(Role::Tool, vec![tool_result("c1", vec![text("r1")], false)]),
        msg(Role::Tool, vec![tool_result("c2", vec![text("r2")], false)]),
    ];
    let contents = core_to_contents(&msgs);
    assert_eq!(contents.len(), 3);
    assert_eq!(key(&contents[2], "role"), &s("user"));
    assert_eq!(len(key(&contents[2], "parts")), 2);
}

fn carrier_then_call(sig: &str) -> Vec<Message> {
    vec![
        msg(Role::User, vec![text("q")]),
        msg(
            Role::Assistant,
            vec![
                ContentBlock::Reasoning {
                    text: String::new(),
                    signature: Some(sig.to_string()),
                    redacted: false,
                },
                tool_use("c1", "f", obj(vec![]), None),
            ],
        ),
    ]
}

#[test]
fn signature_carrier_attaches_to_next_tool_use() {
    let contents = core_to_contents(&carrier_then_call("gem:SIG"));
    let parts = key(&contents[1], "parts");
    assert_eq!(len(parts), 1);
    assert_eq!(key(key(item(parts, 0), "functionCall"), "thoughtSignature"), &s("SIG"));

    let contents = core_to_contents(&carrier_then_call("ant:FOREIGN"));
    let fc = key(item(key(&contents[1], "parts"), 0), "functionCall");
    assert!(fc.get("thoughtSignature").is_none());
}

#[test]
fn tool_result_images_hoist_as_inline_data() {
    let msgs = vec![
        msg(Role::User, vec![text("q")]),
        msg(Role::Assistant, vec![tool_use("c1", "read_file", obj(vec![("path", s("a.png"))]), None)]),
        msg(
            Role::Tool,
            vec![tool_result(
                "c1",
                vec![
                    text("image below"),
                    ContentBlock::Image { data: "AAA".to_string(), media_type: "image/png".to_string() },
                    ContentBlock::Image {
                        data: "https://example.com/x.png".to_string(),
                        media_type: "url".to_string(),
                    },
                    ContentBlock::Image { data: "BBB".to_string(), media_type: "image/jpeg".to_string() },
                ],
                false,
            )],
        ),
    ];
    let contents = core_to_contents(&msgs);
    assert_eq!(contents.len(), 3);
    let parts = key(&contents[2], "parts");
    assert!(same(
        item(parts, 0),
        &obj(vec![(
            "functionResponse",
            obj(vec![
                ("name", s("read_file")),
                ("response", obj(vec![("result", s("image below"))])),
                ("id", s("c1")),
            ]),
        )])
    ));
    assert!(same(
        item(parts, 1),
        &obj(vec![("text", s("[media content returned by function call read_file]"))])
    ));
    assert!(same(
        item(parts, 2),
        &obj(vec![("inlineData", obj(vec![("mimeType", s("image/png")), ("data", s("AAA"))]))])
    ));
    assert!(same(
        item(parts, 3),
        &obj(vec![("inlineData", obj(vec![("mimeType", s("image/jpeg")), ("data", s("BBB"))]))])
    ));
    assert_eq!(len(parts), 4);
}

#[test]
fn file_data_part_maps_to_document() {
    let uri = "https://generativelanguage.googleapis.com/v1beta/files/abc";
    let file_data = || {
        obj(vec![(
            "fileData",
            obj(vec![
                ("fileUri", s(uri)),
                ("mimeType", s("application/pdf")),
                ("displayName", s("s.pdf")),
            ]),
        )])
    };
    let blocks = part_to_blocks(&file_data());
    let ContentBlock::Document { source, media_type, data, name } = &blocks[0] else {
        panic!("expected a document: {blocks:?}")
    };
    assert_eq!(*source, DocSource::Url);
    assert_eq!((media_type.as_str(), data.as_str()), ("application/pdf", uri));
    assert_eq!(name.as_deref(), Some("s.pdf"));

    let contents = core_to_contents(&[msg(Role::User, vec![blocks[0].deep_clone()])]);
    assert!(same(item(key(&contents[0], "parts"), 0), &file_data()));
}

fn exec_code(code: &str) -> Json {
    obj(vec![("executableCode", obj(vec![("language", s("PYTHON")), ("code", s(code))]))])
}

fn exec_result(outcome: &str, output: &str) -> Json {
    obj(vec![("codeExecutionResult", obj(vec![("outcome", s(outcome)), ("output", s(output))]))])
}

#[test]
fn code_execution_parts_roundtrip() {
    let msgs = contents_to_core(&[obj(vec![
        ("role", s("model")),
        (
            "parts",
            arr(vec![
                exec_code("print(1)"),
                exec_result("OUTCOME_OK", "1\n"),
                exec_code("print(2)"),
                exec_result("OUTCOME_FAILED", "err"),
            ]),
        ),
    ])]);
    let content = &msgs[0].content;
    let (
        ContentBlock::ToolUse { id: i0, name: n0, input, .. },
        ContentBlock::ToolResult { tool_use_id: t0, is_error: e0, .. },
        ContentBlock::ToolUse { id: i1, .. },
        ContentBlock::ToolResult { tool_use_id: t1, is_error: e1, .. },
    ) = (&content[0], &content[1], &content[2], &content[3])
    else {
        panic!("expected tool use / result pairs: {content:?}")
    };
    assert_eq!(n0, EXEC_CODE);
    assert_eq!(key(input, "code"), &s("print(1)"));
    assert_eq!(t0, i0);
    assert_eq!(t1, i1);
    assert_ne!(i0, i1);
    assert!(!e0 && *e1);

    let contents = core_to_contents(&msgs);
    let parts = key(&contents[0], "parts");
    assert!(same(item(parts, 0), &exec_code("print(1)")));
    assert!(same(item(parts, 1), &exec_result("OUTCOME_OK", "1\n")));
    assert!(same(item(parts, 2), &exec_code("print(2)")));
    assert!(same(item(parts, 3), &exec_result("OUTCOME_FAILED", "err")));
}

fn call(id: Option<&str>, name: &str, args: Json) -> Json {
    let mut fs = Vec::new();
    if let Some(i) = id {
        fs.push(("id", s(i)));
    }
    fs.push(("name", s(name)));
    fs.push(("args", args));
    obj(vec![("functionCall", obj(fs))])
}

fn response(id: Option<&str>, name: &str, result: &str) -> Json {
    let mut fs = Vec::new();
    if let Some(i) = id {
        fs.push(("id", s(i)));
    }
    fs.push(("name", s(name)));
    fs.push(("response", obj(vec![("result", s(result))])));
    obj(vec![("functionResponse", obj(fs))])
}

#[test]
fn function_call_response_pair_by_name_in_order() {
    let msgs = contents_to_core(&[
        obj(vec![
            ("role", s("model")),
            (
                "parts",
                arr(vec![
                    call(None, "read_file", obj(vec![("p", s("a"))])),
                    call(None, "read_file", obj(vec![("p", s("b"))])),
                    call(Some("real-id"), "ls", obj(vec![])),
                ]),
            ),
        ]),
        obj(vec![
            ("role", s("user")),
            (
                "parts",
                arr(vec![
                    response(None, "read_file", "A"),
                    response(None, "read_file", "B"),
                    response(Some("real-id"), "ls", "ok"),
                ]),
            ),
        ]),
    ]);

    let calls: Vec<&ContentBlock> =
        msgs[0].content.iter().filter(|b| matches!(b, ContentBlock::ToolUse { .. })).collect();
    let id0 = match calls[0] {
        ContentBlock::ToolUse { id, .. } => id.clone(),
        _ => unreachable!(),
    };
    let id1 = match calls[1] {
        ContentBlock::ToolUse { id, .. } => id.clone(),
        _ => unreachable!(),
    };
    assert_ne!(id0, id1);

    let results: Vec<&ContentBlock> =
        msgs[1].content.iter().filter(|b| matches!(b, ContentBlock::ToolResult { .. })).collect();
    let ContentBlock::ToolResult { tool_use_id: t0, content: c0, .. } = results[0] else { panic!() };
    let ContentBlock::ToolResult { tool_use_id: t1, content: c1, .. } = results[1] else { panic!() };
    let ContentBlock::ToolResult { tool_use_id: t2, .. } = results[2] else { panic!() };
    assert_eq!(t0, &id0);
    assert_eq!(t1, &id1);
    assert_eq!(t2, "real-id");
    assert!(matches!(&c0[0], ContentBlock::Text { text } if text == "A"));
    assert!(matches!(&c1[0], ContentBlock::Text { text } if text == "B"));

    let contents = core_to_contents(&msgs);
    let frs: Vec<&Json> = key(&contents[1], "parts")
        .as_array()
        .unwrap()
        .iter()
        .filter(|p| p.get("functionResponse").is_some())
        .collect();
    assert_eq!(key(key(frs[0], "functionResponse"), "name"), &s("read_file"));
    assert_eq!(key(key(frs[0], "functionResponse"), "id"), &s(id0.as_str()));
    assert_eq!(key(key(frs[2], "functionResponse"), "id"), &s("real-id"));
}

#[test]
fn tool_result_is_error_roundtrips() {
    let msgs = vec![
        msg(Role::Assistant, vec![tool_use("t1", "exec", obj(vec![]), None)]),
        msg(Role::Tool, vec![tool_result("t1", vec![text("boom")], true)]),
    ];
    let contents = core_to_contents(&msgs);
    let fr = key(item(key(&contents[1], "parts"), 0), "functionResponse");
    assert_eq!(key(key(fr, "response"), "is_error"), &Json::Bool(true));
    assert_eq!(key(key(fr, "response"), "result"), &s("boom"));

    let back = contents_to_core(&contents);
    let ContentBlock::ToolResult { is_error, .. } = &back[1].content[0] else { panic!() };
    assert!(*is_error);
}

#[test]
fn tool_result_documents_hoist_as_parts() {
    let msgs = vec![msg(
        Role::Tool,
        vec![tool_result(
            "f",
            vec![
                text("see doc"),
                ContentBlock::Document {
                    source: DocSource::Url,
                    media_type: "application/pdf".to_string(),
                    data: "https://x/d.pdf".to_string(),
                    name: None,
                },
                ContentBlock::Document {
                    source: DocSource::Base64,
                    media_type: "application/pdf".to_string(),
                    data: "PP".to_string(),
                    name: None,
                },
            ],
            false,
        )],
    )];
    let contents = core_to_contents(&msgs);
    let parts = key(&contents[0], "parts");
    assert_eq!(key(key(key(item(parts, 0), "functionResponse"), "response"), "result"), &s("see doc"));
    assert!(same(item(parts, 1), &obj(vec![("text", s("[media content returned by function call f]"))])));
    assert!(same(
        item(parts, 2),
        &obj(vec![(
            "fileData",
            obj(vec![("fileUri", s("https://x/d.pdf")), ("mimeType", s("application/pdf"))])
        )])
    ));
    assert!(same(
        item(parts, 3),
        &obj(vec![("inlineData", obj(vec![("mimeType", s("application/pdf")), ("data", s("PP"))]))])
    ));
}

#[test]
fn text_only_tool_result_emits_no_extra_parts() {
    let msgs = vec![msg(Role::Tool, vec![tool_result("f", vec![text("ok")], false)])];
    let contents = core_to_contents(&msgs);
    let parts = key(&contents[0], "parts");
    assert_eq!(len(parts), 1);
    assert_eq!(key(key(key(item(parts, 0), "functionResponse"), "response"), "result"), &s("ok"));
}

fn weather_tool(description: Option<&str>) -> Tool {
    Tool {
        name: "weather".to_string(),
        description: description.map(String::from),
        input_schema: obj(vec![("type", s("object"))]),
    }
}

#[test]
fn tools_roundtrip_through_declarations() {
    assert!(core_to_tools(&[]).is_none());
    let tools = vec![weather_tool(Some("forecast")), weather_tool(None)];
    let v = core_to_tools(&tools).expect("tools");
    let decls = key(item(&v, 0), "functionDeclarations");
    assert_eq!(len(decls), 2);
    assert_eq!(key(item(decls, 0), "description"), &s("forecast"));
    assert!(item(decls, 1).get("description").is_none());
    let back = tools_to_core(v.as_array().unwrap());
    assert_eq!(back, tools);
}

#[test]
fn declarations_without_name_are_skipped_and_schema_defaults() {
    let v = arr(vec![obj(vec![(
        "functionDeclarations",
        arr(vec![obj(vec![("description", s("x"))]), obj(vec![("name", s("f"))])]),
    )])]);
    let back = tools_to_core(v.as_array().unwrap());
    assert_eq!(back.len(), 1);
    assert_eq!(back[0].name, "f");
    assert_eq!(back[0].description, None);
    assert_eq!(back[0].input_schema, obj(vec![("type", s("object"))]));
}

#[test]
fn tool_config_roundtrips_every_choice() {
    let choices = vec![
        ToolChoice::Auto,
        ToolChoice::NoTools,
        ToolChoice::Required,
        ToolChoice::Tool { name: "f".to_string() },
    ];
    for c in choices {
        let v = core_to_tool_config(Some(&c)).expect("config");
        assert_eq!(tool_config_to_core(Some(&v)), Some(c));
    }
    assert!(core_to_tool_config(None).is_none());
    let v = core_to_tool_config(Some(&ToolChoice::Tool { name: "f".to_string() })).unwrap();
    let fcc = key(&v, "functionCallingConfig");
    assert_eq!(key(fcc, "mode"), &s("ANY"));
    assert_eq!(key(fcc, "allowedFunctionNames"), &arr(vec![s("f")]));
}

#[test]
fn tool_config_unknown_mode_is_none() {
    let v = obj(vec![("functionCallingConfig", obj(vec![("mode", s("VALIDATED"))]))]);
    assert_eq!(tool_config_to_core(Some(&v)), None);
    let two = obj(vec![(
        "functionCallingConfig",
        obj(vec![("mode", s("ANY")), ("allowedFunctionNames", arr(vec![s("a"), s("b")]))]),
    )]);
    assert_eq!(tool_config_to_core(Some(&two)), Some(ToolChoice::Required));
    assert_eq!(tool_config_to_core(None), None);
}

#[test]
fn system_instruction_joins_and_reads_back() {
    let system = vec![text("be brief")];
    let msgs = vec![msg(Role::System, vec![text("use metric")]), msg(Role::User, vec![text("hi")])];
    let si = core_to_system_instruction(&system, &msgs).expect("instruction");
    assert_eq!(key(item(key(&si, "parts"), 0), "text"), &s("be brief\n\nuse metric"));
    let back = system_instruction_to_core(Some(&si));
    assert_eq!(back, vec![text("be brief\n\nuse metric")]);
    assert!(core_to_system_instruction(&vec![], &msgs[1..]).is_none());
    assert_eq!(system_instruction_to_core(Some(&s("plain"))), vec![text("plain")]);
    assert!(system_instruction_to_core(Some(&s(""))).is_empty());
    assert!(system_instruction_to_core(None).is_empty());
}

#[test]
fn generation_config_collects_settings() {
    let mut req = CoreRequest::new("gemini");
    assert!(core_to_generation_config(&req).is_none());
    req.max_tokens = Some(4096);
    req.stop = vec!["END".to_string()];
    req.reasoning = Some(Reasoning { effort: Some(" high ".to_string()), summary: None });
    let gc = core_to_generation_config(&req).expect("config");
    assert_eq!(key(&gc, "maxOutputTokens").as_u64(), Some(4096));
    assert_eq!(key(&gc, "stopSequences"), &arr(vec![s("END")]));
    let tc = key(&gc, "thinkingConfig");
    assert_eq!(key(tc, "thinkingBudget").as_u64(), Some(4095));
    assert_eq!(key(tc, "includeThoughts"), &Json::Bool(true));
}

#[test]
fn generation_config_drops_unusable_budget() {
    let mut req = CoreRequest::new("gemini");
    req.max_tokens = Some(100);
    req.reasoning = Some(Reasoning { effort: Some("low".to_string()), summary: None });
    let gc = core_to_generation_config(&req).expect("config");
    assert!(gc.get("thinkingConfig").is_none());
    assert_eq!(key(&gc, "maxOutputTokens").as_u64(), Some(100));
}
