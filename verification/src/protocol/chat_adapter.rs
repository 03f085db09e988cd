//! OpenAI Chat Completions requests and responses: a core request into a chat
//! request (the upstream side), a chat request into a core request (the
//! client side), and the responses both ways.
use vstd::prelude::*;
use crate::json::{fields_view, items_view, json_view, lemma_fields_view, lemma_items_view, Json, JsonNum, JsonV};
use crate::protocol::adapters::{OpenAiChatAdapter, ProviderEndpoint, UpstreamRequest};
use crate::protocol::chat::{chat_message_blocks, chat_response_message, chat_role, chat_tool_choice, chat_tool_choice_value, chat_tool_value, chat_tools, chat_tools_to_core, chat_to_core_messages, chat_usage, chat_usage_value, choice_blocks, choice_finish, chat_choice_to_core, core_chat_messages, core_to_chat_messages, core_to_chat_response_message, core_to_chat_tools, extract_system, finish_reason_name, non_system, opt_choice_view, parse_tool_choice, str_field, str_or_empty, system_blocks, unmap_stop_reason, unparse_tool_choice, usage_from_chat, usage_object, CHAT_PATH};
use crate::protocol::chat_stream::{jfield, jobject};
use crate::protocol::context::ReqCtx;
use crate::protocol::ir::message_view;
use crate::protocol::google::{num_json, strip_trailing_slashes, trim_end_slashes};
use crate::protocol::ir::{blocks_view, lemma_blocks_view, opt_view, tool_choice_view, tool_view, BlockV, ContentBlock, CoreRequest, CoreResponse, Message, Reasoning, Role, StopReason, Tool, ToolV, Usage};
use crate::protocol::reasoning::{effort_of, reasoning_effort};
use crate::protocol::responses_client::{flag_of, msgs_view, number_field, number_of, opt_num};
use crate::protocol::responses_provider::responses_headers;
use crate::protocol::anthropic_adapter::{opt_member, strings_of};
use crate::text::concat_str;

verus! {

/// The body of the chat request for a core request: model, messages and
/// stream flag; then the token limit, tools, tool choice, temperature, top-p,
/// stop sequences and the reasoning effort, each only when set (no limit is
/// invented for a request without one).
pub open spec fn chat_body(req: CoreRequest) -> JsonV {
    JsonV::Object(
        seq![
            ("model"@, JsonV::Str(req.model@)),
            ("messages"@, JsonV::Array(core_chat_messages(blocks_view(req.system@), msgs_view(req.messages@)))),
            ("stream"@, JsonV::Bool(req.stream)),
        ] + opt_member(
            "max_tokens"@,
            match req.max_tokens {
                Some(m) => Some(JsonV::PosInt(m as u64)),
                None => None,
            },
        ) + chat_optional(req),
    )
}

/// The optional members of a chat request body, in order.
pub open spec fn chat_optional(req: CoreRequest) -> Seq<(Seq<char>, JsonV)> {
    (if req.tools@.len() > 0 {
        seq![("tools"@, JsonV::Array(req.tools@.map_values(|t: Tool| chat_tool_value(tool_view(t)))))]
    } else {
        Seq::empty()
    }) + opt_member(
        "tool_choice"@,
        match req.tool_choice {
            Some(tc) => Some(chat_tool_choice_value(tool_choice_view(tc))),
            None => None,
        },
    ) + opt_member("temperature"@, opt_num(req.temperature)) + opt_member("top_p"@, opt_num(req.top_p)) + (
    if req.stop@.len() > 0 {
        seq![("stop"@, JsonV::Array(req.stop@.map_values(|x: String| JsonV::Str(x@))))]
    } else {
        Seq::empty()
    }) + opt_member(
        "reasoning_effort"@,
        match effort_of(req) {
            Some(e) => Some(JsonV::Str(e)),
            None => None,
        },
    )
}

/// The first choice of a chat response, or null.
pub open spec fn first_choice_of(raw: JsonV) -> JsonV {
    match raw.field("choices"@) {
        Some(JsonV::Array(a)) => if a.len() > 0 {
            a[0]
        } else {
            JsonV::Null
        },
        _ => JsonV::Null,
    }
}

/// The core messages of a chat request's `messages`.
pub open spec fn chat_request_messages(raw: JsonV) -> Seq<(Role, Seq<BlockV>)> {
    match raw.field("messages"@) {
        Some(JsonV::Array(ms)) => ms.map_values(|m: JsonV| (chat_role(m), chat_message_blocks(m))),
        _ => Seq::empty(),
    }
}

/// The reasoning effort a chat request asks for: `reasoning_effort`, else
/// `reasoning.effort`; none when empty.
pub open spec fn chat_effort(raw: JsonV) -> Option<Seq<char>> {
    let e = match raw.field_str("reasoning_effort"@) {
        Some(s) => Some(s),
        None => match raw.field("reasoning"@) {
            Some(r) => r.field_str("effort"@),
            None => None,
        },
    };
    match e {
        Some(s) => if s.len() > 0 {
            Some(s)
        } else {
            None
        },
        None => None,
    }
}

/// The token limit of a chat request: `max_tokens`, else
/// `max_completion_tokens`; cut to 32 bits.
pub open spec fn chat_max_tokens(raw: JsonV) -> Option<u32> {
    match raw.field_u64("max_tokens"@) {
        Some(u) => Some(u as u32),
        None => match raw.field_u64("max_completion_tokens"@) {
            Some(u) => Some(u as u32),
            None => None,
        },
    }
}

/// The stop sequences of a chat request: one string, or the strings of an
/// array.
pub open spec fn chat_stops(raw: JsonV) -> Seq<Seq<char>> {
    match raw.field("stop"@) {
        Some(JsonV::Str(s)) => seq![s],
        Some(JsonV::Array(a)) => strings_of(a),
        _ => Seq::empty(),
    }
}

/// The chat completion object of a core response.
pub open spec fn chat_completion(resp: CoreResponse) -> JsonV {
    JsonV::Object(
        seq![
            ("id"@, JsonV::Str(resp.id@)),
            ("object"@, JsonV::Str("chat.completion"@)),
            ("created"@, JsonV::PosInt(0)),
            ("model"@, JsonV::Str(resp.model@)),
            ("choices"@, JsonV::Array(
                seq![JsonV::Object(
                    seq![
                        ("index"@, JsonV::PosInt(0)),
                        ("message"@, chat_response_message(blocks_view(resp.content@))),
                        ("finish_reason"@, JsonV::Str(finish_reason_name(resp.stop_reason))),
                    ],
                )],
            )),
            ("usage"@, chat_usage_value(resp.usage)),
        ],
    )
}

} // verus!

verus! {

fn push_member(fs: &mut Vec<(String, Json)>, k: &str, v: Json)
    ensures
        fields_view(final(fs)@) == fields_view(old(fs)@).push((k@, v@)),
{
    let ghost before = fs@;
    fs.push(jfield(k, v));
    proof {
        lemma_fields_view(before);
        lemma_fields_view(fs@);
        assert(fields_view(fs@) =~= fields_view(before).push((k@, v@)));
    }
}

fn optional_members(req: &CoreRequest) -> (r: Vec<(String, Json)>)
    ensures
        fields_view(r@) == chat_optional(*req),
{
    let mut fs: Vec<(String, Json)> = Vec::new();
    proof {
        assert(fields_view(fs@) =~= Seq::<(Seq<char>, JsonV)>::empty());
    }
    if req.tools.len() > 0 {
        let tools = core_to_chat_tools(req.tools.as_slice());
        proof {
            lemma_items_view(tools@);
            assert(items_view(tools@) =~= tools@.map_values(|j: Json| j@));
        }
        push_member(&mut fs, "tools", Json::Array(tools));
    }
    if let Some(tc) = &req.tool_choice {
        push_member(&mut fs, "tool_choice", unparse_tool_choice(tc));
    }
    if let Some(t) = &req.temperature {
        push_member(&mut fs, "temperature", num_json(t));
    }
    if let Some(p) = &req.top_p {
        push_member(&mut fs, "top_p", num_json(p));
    }
    if req.stop.len() > 0 {
        let mut stops: Vec<Json> = Vec::new();
        let mut i: usize = 0;
        while i < req.stop.len()
            invariant
                i <= req.stop@.len(),
                stops@.len() == i,
                forall|k: int| 0 <= k < i ==> (#[trigger] stops@[k])@ == JsonV::Str(req.stop@[k]@),
            decreases req.stop@.len() - i,
        {
            stops.push(Json::Str(req.stop[i].clone()));
            i = i + 1;
        }
        proof {
            lemma_items_view(stops@);
            assert(items_view(stops@) =~= req.stop@.map_values(|x: String| JsonV::Str(x@)));
        }
        push_member(&mut fs, "stop", Json::Array(stops));
    }
    if let Some(e) = reasoning_effort(req) {
        push_member(&mut fs, "reasoning_effort", Json::Str(e));
    }
    proof {
        assert(fields_view(fs@) =~= chat_optional(*req));
    }
    fs
}

/// The request body (see [`chat_body`]).
pub fn build_chat_body(req: &CoreRequest) -> (r: Json)
    ensures
        r@ == chat_body(*req),
{
    let mut fs: Vec<(String, Json)> = Vec::new();
    proof {
        assert(fields_view(fs@) =~= Seq::<(Seq<char>, JsonV)>::empty());
    }
    let ms = req.messages.as_slice();
    let ss = req.system.as_slice();
    assert(ms@ == req.messages@);
    assert(ss@ == req.system@);
    let msgs = core_to_chat_messages(ss, ms);
    proof {
        lemma_items_view(msgs@);
        assert(items_view(msgs@) =~= msgs@.map_values(|j: Json| j@));
    }
    push_member(&mut fs, "model", Json::Str(req.model.clone()));
    push_member(&mut fs, "messages", Json::Array(msgs));
    push_member(&mut fs, "stream", Json::Bool(req.stream));
    if let Some(m) = req.max_tokens {
        push_member(&mut fs, "max_tokens", Json::Num(JsonNum::PosInt(m as u64)));
    }
    let ghost head = fields_view(fs@);
    let mut more = optional_members(req);
    let ghost a = fs@;
    let ghost b = more@;
    fs.append(&mut more);
    proof {
        lemma_fields_view(a);
        lemma_fields_view(b);
        lemma_fields_view(fs@);
        assert(fields_view(fs@) =~= fields_view(a) + fields_view(b));
        assert(fields_view(fs@) =~= chat_body(*req)->Object_0);
    }
    jobject(fs)
}

impl OpenAiChatAdapter {
    /// Core request → chat upstream request: `POST` to the base URL (trailing
    /// slashes dropped) followed by [`CHAT_PATH`], with bearer authorization
    /// and the body of [`chat_body`].
    pub fn from_core_request(&self, _ctx: &ReqCtx, req: &CoreRequest, endpoint: &ProviderEndpoint) -> (r: UpstreamRequest)
        ensures
            r.method@ == "POST"@,
            r.url@ == strip_trailing_slashes(endpoint.base_url@) + CHAT_PATH@,
            r.headers@.map_values(|h: (String, String)| (h.0@, h.1@)) == responses_headers(
                endpoint.api_key@,
                opt_view(endpoint.user_agent),
            ),
            r.body@ == chat_body(*req),
            r.stream == req.stream,
    {
        let base = trim_end_slashes(endpoint.base_url.as_str());
        let url = concat_str(base.as_str(), CHAT_PATH);
        let mut headers: Vec<(String, String)> = Vec::new();
        headers.push(("content-type".to_string(), "application/json".to_string()));
        headers.push(("authorization".to_string(), concat_str("Bearer ", endpoint.api_key.as_str())));
        if let Some(ua) = &endpoint.user_agent {
            headers.push(("user-agent".to_string(), ua.clone()));
        }
        proof {
            assert(headers@.map_values(|h: (String, String)| (h.0@, h.1@)) =~= responses_headers(
                endpoint.api_key@,
                opt_view(endpoint.user_agent),
            ));
        }
        UpstreamRequest { method: "POST".to_string(), url, headers, body: build_chat_body(req), stream: req.stream }
    }

    /// Chat completion → core response: id and model (empty when absent), the
    /// blocks and stop reason of the first choice, and the usage (zero when
    /// absent).
    pub fn to_core_response(&self, _ctx: &ReqCtx, raw: &Json) -> (r: CoreResponse)
        ensures
            r.id@ == str_or_empty(raw@, "id"@),
            r.model@ == str_or_empty(raw@, "model"@),
            blocks_view(r.content@) == choice_blocks(first_choice_of(raw@)),
            r.stop_reason == choice_finish(first_choice_of(raw@)),
            r.usage == match raw@.field("usage"@) {
                Some(u) => chat_usage(u),
                None => Usage { input_tokens: 0, output_tokens: 0, cache_read_tokens: 0, cache_write_tokens: 0, reasoning_tokens: 0 },
            },
    {
        let null = Json::Null;
        let choice: &Json = match raw.get("choices") {
            Some(Json::Array(a)) => {
                proof {
                    lemma_items_view(a@);
                }
                if a.len() > 0 {
                    &a[0]
                } else {
                    &null
                }
            },
            _ => &null,
        };
        let (content, stop_reason) = chat_choice_to_core(choice);
        let usage = match raw.get("usage") {
            Some(u) => usage_from_chat(u),
            None => Usage::zero(),
        };
        CoreResponse { id: str_field(raw, "id"), model: str_field(raw, "model"), content, stop_reason, usage }
    }

    /// Chat request → core request: system messages become the core system,
    /// the other messages stay in order; tools, tool choice, reasoning effort,
    /// token limit, sampling numbers, stop sequences and stream flag carry
    /// over.
    pub fn to_core_request(&self, _ctx: &ReqCtx, raw: &Json) -> (r: CoreRequest)
        ensures
            r.model@ == str_or_empty(raw@, "model"@),
            r.model_alias@ == str_or_empty(raw@, "model"@),
            blocks_view(r.system@) == system_blocks(chat_request_messages(raw@)),
            msgs_view(r.messages@) == non_system(chat_request_messages(raw@)),
            r.tools@.map_values(|t: Tool| tool_view(t)) == match raw@.field("tools"@) {
                Some(JsonV::Array(ts)) => chat_tools(ts),
                _ => Seq::empty(),
            },
            opt_choice_view(r.tool_choice) == match raw@.field("tool_choice"@) {
                Some(tc) => chat_tool_choice(tc),
                None => None,
            },
            match chat_effort(raw@) {
                Some(e) => r.reasoning matches Some(x) && opt_view(x.effort) == Some(e) && x.summary is None,
                None => r.reasoning is None,
            },
            r.max_tokens == chat_max_tokens(raw@),
            opt_num(r.temperature) == number_field(raw@, "temperature"@),
            opt_num(r.top_p) == number_field(raw@, "top_p"@),
            r.stop@.map_values(|x: String| x@) == chat_stops(raw@),
            r.stream == flag_of(raw@, "stream"@),
            r.meta@.len() == 0,
    {
        let model = str_field(raw, "model");
        let mut req = CoreRequest::new(model.as_str());
        req.model_alias = model;
        let empty: Vec<Json> = Vec::new();
        let items: &Vec<Json> = match raw.get("messages") {
            Some(Json::Array(a)) => a,
            _ => &empty,
        };
        proof {
            lemma_items_view(items@);
        }
        let ghost iv = items_view(items@);
        assert(iv.map_values(|m: JsonV| (chat_role(m), chat_message_blocks(m))) == chat_request_messages(raw@));
        let converted = chat_to_core_messages(items.as_slice());
        proof {
            assert(converted@.map_values(|m: Message| message_view(m)) =~= iv.map_values(
                |m: JsonV| (chat_role(m), chat_message_blocks(m)),
            ));
        }
        let (system, msgs) = extract_system(converted);
        req.system = system;
        req.messages = msgs;
        match raw.get("tools") {
            Some(Json::Array(ts)) => {
                proof {
                    lemma_items_view(ts@);
                    assert(ts@.map_values(|j: Json| j@) =~= items_view(ts@));
                }
                req.tools = chat_tools_to_core(ts.as_slice());
            },
            _ => {
                proof {
                    assert(req.tools@.map_values(|t: Tool| tool_view(t)) =~= Seq::<ToolV>::empty());
                }
            },
        }
        if let Some(tc) = raw.get("tool_choice") {
            req.tool_choice = parse_tool_choice(tc);
        }
        let e: Option<&str> = match raw.get_str("reasoning_effort") {
            Some(s) => Some(s),
            None => match raw.get("reasoning") {
                Some(r) => r.get_str("effort"),
                None => None,
            },
        };
        if let Some(s) = e {
            if s.unicode_len() > 0 {
                req.reasoning = Some(Reasoning { effort: Some(s.to_string()), summary: None });
            }
        }
        req.max_tokens = match raw.get_u64("max_tokens") {
            Some(u) => Some(u as u32),
            None => match raw.get_u64("max_completion_tokens") {
                Some(u) => Some(u as u32),
                None => None,
            },
        };
        req.temperature = number_of(raw.get("temperature"));
        req.top_p = number_of(raw.get("top_p"));
        match raw.get("stop") {
            Some(Json::Str(s)) => {
                let mut v: Vec<String> = Vec::new();
                v.push(s.clone());
                proof {
                    assert(v@.map_values(|x: String| x@) =~= seq![s@]);
                }
                req.stop = v;
            },
            Some(Json::Array(a)) => {
                req.stop = crate::protocol::anthropic_adapter::string_items(a);
            },
            _ => {
                proof {
                    assert(req.stop@.map_values(|x: String| x@) =~= Seq::<Seq<char>>::empty());
                }
            },
        }
        req.stream = match raw.get("stream") {
            Some(v) => match v.as_bool() {
                Some(b) => b,
                None => false,
            },
            None => false,
        };
        req
    }

    /// Core response → chat completion object (see [`chat_completion`]).
    pub fn from_core_response(&self, _ctx: &ReqCtx, resp: &CoreResponse) -> (r: Json)
        requires
            resp.usage.input_tokens + resp.usage.output_tokens <= u32::MAX,
        ensures
            r@ == chat_completion(*resp),
    {
        let mut c: Vec<(String, Json)> = Vec::new();
        c.push(jfield("index", Json::Num(JsonNum::PosInt(0))));
        c.push(jfield("message", core_to_chat_response_message(resp.content.as_slice())));
        c.push(jfield("finish_reason", Json::Str(unmap_stop_reason(resp.stop_reason).to_string())));
        proof {
            lemma_fields_view(c@);
        }
        let choice = jobject(c);
        let mut choices: Vec<Json> = Vec::new();
        choices.push(choice);
        proof {
            lemma_items_view(choices@);
            assert(items_view(choices@) =~= seq![choice@]);
        }
        let mut fs: Vec<(String, Json)> = Vec::new();
        fs.push(jfield("id", Json::Str(resp.id.clone())));
        fs.push(jfield("object", Json::Str("chat.completion".to_string())));
        fs.push(jfield("created", Json::Num(JsonNum::PosInt(0))));
        fs.push(jfield("model", Json::Str(resp.model.clone())));
        fs.push(jfield("choices", Json::Array(choices)));
        fs.push(jfield("usage", usage_object(&resp.usage)));
        proof {
            lemma_fields_view(fs@);
            let exp = chat_completion(*resp)->Object_0;
            assert(fields_view(c@) =~= exp[4].1->Array_0[0]->Object_0);
            assert(fields_view(fs@) =~= exp);
        }
        jobject(fs)
    }
}

} // verus!
