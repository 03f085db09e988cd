//! Anthropic Messages requests and responses: a core request into an
//! Anthropic request (the upstream side), an Anthropic request into a core
//! request (the client side), and the responses both ways.
use vstd::prelude::*;
use crate::json::{fields_view, items_view, json_view, lemma_fields_view, lemma_items_view, Json, JsonNum, JsonV};
use crate::protocol::adapters::{AnthropicAdapter, ProviderEndpoint, UpstreamRequest};
use crate::protocol::anthropic::{anthropic_usage_out, map_stop_reason, stop_reason_name, stop_reason_of, unmap_stop_reason, usage_out_value, DEFAULT_MAX_TOKENS, DEFAULT_VERSION, MESSAGES_PATH};
use crate::protocol::anthropic_blocks::{anthropic_to_blocks, blocks_to_anthropic, from_anthropic_all, to_anthropic, to_anthropic_all};
use crate::protocol::chat::{count_of, opt_choice_view, read_count, str_field, str_or_empty};
use crate::protocol::chat_stream::{jfield, jobject, one1};
use crate::protocol::context::ReqCtx;
use crate::protocol::ir::message_view;
use crate::protocol::google::{num_json, strip_trailing_slashes, trim_end_slashes};
use crate::protocol::ir::{blocks_view, lemma_blocks_view, opt_view, tool_choice_view, tool_view, BlockV, ContentBlock, CoreRequest, CoreResponse, Message, Reasoning, Role, StopReason, Tool, ToolChoice, ToolChoiceV, ToolV, Usage};
use crate::protocol::reasoning::{clamped_budget, clamped_thinking_budget, effort_for, effort_from_budget, effort_of, reasoning_effort};
use crate::protocol::responses_client::{flag_of, msgs_view, number_field, opt_num};
use crate::text::{concat_str, str_eq};

verus! {

/// The Anthropic role of a core role: the assistant, or the user for every
/// other role (tool results travel in user turns).
pub open spec fn ant_role(r: Role) -> Seq<char> {
    if r == Role::Assistant {
        "assistant"@
    } else {
        "user"@
    }
}

/// Anthropic turns of core messages: messages without blocks are left out,
/// and consecutive messages of one role join into one turn, since Anthropic
/// needs user and assistant to alternate.
pub open spec fn ant_turns(ms: Seq<(Role, Seq<BlockV>)>) -> Seq<(Seq<char>, Seq<JsonV>)>
    decreases ms.len(),
{
    if ms.len() == 0 {
        Seq::empty()
    } else {
        let out = ant_turns(ms.drop_last());
        let role = ant_role(ms.last().0);
        let blocks = to_anthropic_all(ms.last().1);
        if blocks.len() == 0 {
            out
        } else if out.len() > 0 && out.last().0 == role {
            out.update(out.len() - 1, (role, out.last().1 + blocks))
        } else {
            out.push((role, blocks))
        }
    }
}

/// A turn as a message object.
pub open spec fn turn_value(t: (Seq<char>, Seq<JsonV>)) -> JsonV {
    JsonV::Object(seq![("role"@, JsonV::Str(t.0)), ("content"@, JsonV::Array(t.1))])
}

/// The Anthropic blocks of the system messages, in order.
pub open spec fn system_message_blocks(ms: Seq<(Role, Seq<BlockV>)>) -> Seq<JsonV>
    decreases ms.len(),
{
    if ms.len() == 0 {
        Seq::empty()
    } else {
        system_message_blocks(ms.drop_last()) + if ms.last().0 == Role::System {
            to_anthropic_all(ms.last().1)
        } else {
            Seq::empty()
        }
    }
}

/// The top-level `system`: the blocks of the core system, then those of the
/// system messages; none without any.
pub open spec fn ant_system(system: Seq<BlockV>, ms: Seq<(Role, Seq<BlockV>)>) -> Option<JsonV> {
    let bs = to_anthropic_all(system) + system_message_blocks(ms);
    if bs.len() == 0 {
        None
    } else {
        Some(JsonV::Array(bs))
    }
}

/// An Anthropic tool: name and input schema, then the description.
pub open spec fn ant_tool(t: ToolV) -> JsonV {
    JsonV::Object(
        seq![("name"@, JsonV::Str(t.name)), ("input_schema"@, t.input_schema)] + match t.description {
            Some(d) => seq![("description"@, JsonV::Str(d))],
            None => Seq::empty(),
        },
    )
}

/// An Anthropic `tool_choice`; "required" is `any`.
pub open spec fn ant_tool_choice(t: ToolChoiceV) -> JsonV {
    match t {
        ToolChoiceV::Auto => JsonV::Object(seq![("type"@, JsonV::Str("auto"@))]),
        ToolChoiceV::NoTools => JsonV::Object(seq![("type"@, JsonV::Str("none"@))]),
        ToolChoiceV::Required => JsonV::Object(seq![("type"@, JsonV::Str("any"@))]),
        ToolChoiceV::Tool { name } => JsonV::Object(seq![("type"@, JsonV::Str("tool"@)), ("name"@, JsonV::Str(name))]),
    }
}

/// The token limit sent upstream (Anthropic requires one): the request's,
/// else the upstream model's output limit, else the default.
pub open spec fn ant_max_tokens(req: CoreRequest, upstream_limit: Option<u32>) -> u32 {
    match req.max_tokens {
        Some(m) => m,
        None => match upstream_limit {
            Some(u) => u,
            None => DEFAULT_MAX_TOKENS,
        },
    }
}

pub open spec fn opt_member(key: Seq<char>, v: Option<JsonV>) -> Seq<(Seq<char>, JsonV)> {
    match v {
        Some(x) => seq![(key, x)],
        None => Seq::empty(),
    }
}

/// Model, token limit, turns and stream flag, then the system when there is
/// any.
pub open spec fn ant_head(req: CoreRequest, limit: u32) -> Seq<(Seq<char>, JsonV)> {
    let ms = msgs_view(req.messages@);
    seq![
        ("model"@, JsonV::Str(req.model@)),
        ("max_tokens"@, JsonV::PosInt(limit as u64)),
        ("messages"@, JsonV::Array(ant_turns(ms).map_values(|t: (Seq<char>, Seq<JsonV>)| turn_value(t)))),
        ("stream"@, JsonV::Bool(req.stream)),
    ] + opt_member("system"@, ant_system(blocks_view(req.system@), ms))
}

/// The tools when there are any, and the tool choice when set.
pub open spec fn ant_tool_members(req: CoreRequest) -> Seq<(Seq<char>, JsonV)> {
    (if req.tools@.len() > 0 {
        seq![("tools"@, JsonV::Array(req.tools@.map_values(|t: Tool| ant_tool(tool_view(t)))))]
    } else {
        Seq::empty()
    }) + opt_member(
        "tool_choice"@,
        match req.tool_choice {
            Some(tc) => Some(ant_tool_choice(tool_choice_view(tc))),
            None => None,
        },
    )
}

/// Temperature and top-p when set, and the stop sequences when there are any.
pub open spec fn ant_sampling(req: CoreRequest) -> Seq<(Seq<char>, JsonV)> {
    opt_member("temperature"@, opt_num(req.temperature)) + opt_member("top_p"@, opt_num(req.top_p)) + (
    if req.stop@.len() > 0 {
        seq![("stop_sequences"@, JsonV::Array(req.stop@.map_values(|x: String| JsonV::Str(x@))))]
    } else {
        Seq::empty()
    })
}

/// Extended thinking, when an effort is asked for and its budget, clamped
/// below the token limit `limit`, is usable.
pub open spec fn ant_thinking(req: CoreRequest, limit: u32) -> Seq<(Seq<char>, JsonV)> {
    opt_member(
        "thinking"@,
        match effort_of(req) {
            Some(e) => match clamped_budget(e, limit) {
                Some(b) => Some(
                    JsonV::Object(
                        seq![("type"@, JsonV::Str("enabled"@)), ("budget_tokens"@, JsonV::PosInt(b as u64))],
                    ),
                ),
                None => None,
            },
            None => None,
        },
    )
}

/// The body of the Anthropic request for a core request, under the token
/// limit `limit`.
pub open spec fn ant_body(req: CoreRequest, limit: u32) -> JsonV {
    JsonV::Object(ant_head(req, limit) + ant_tool_members(req) + ant_sampling(req) + ant_thinking(req, limit))
}

/// The request headers: JSON content, the API key, the protocol version
/// (the endpoint's, else the default), and the user agent when configured.
pub open spec fn ant_headers(api_key: Seq<char>, version: Option<Seq<char>>, user_agent: Option<Seq<char>>) -> Seq<
    (Seq<char>, Seq<char>),
> {
    seq![
        ("content-type"@, "application/json"@),
        ("x-api-key"@, api_key),
        ("anthropic-version"@, match version {
            Some(v) => v,
            None => DEFAULT_VERSION@,
        }),
    ] + match user_agent {
        Some(ua) => seq![("user-agent"@, ua)],
        None => Seq::empty(),
    }
}

/// `a + b`, capped at `u32::MAX`.
pub open spec fn sat_add(a: u32, b: u32) -> u32 {
    if a + b > u32::MAX {
        u32::MAX
    } else {
        (a + b) as u32
    }
}

/// Anthropic usage → core usage. Core input tokens include cache reads and
/// writes (Anthropic's do not), summed with saturation; zero without usage.
pub open spec fn ant_usage(raw: JsonV) -> Usage {
    match raw.field("usage"@) {
        Some(u) => {
            let cr = count_of(u, "cache_read_input_tokens"@);
            let cw = count_of(u, "cache_creation_input_tokens"@);
            Usage {
                input_tokens: sat_add(sat_add(count_of(u, "input_tokens"@), cr), cw),
                output_tokens: count_of(u, "output_tokens"@),
                cache_read_tokens: cr,
                cache_write_tokens: cw,
                reasoning_tokens: 0,
            }
        },
        None => Usage { input_tokens: 0, output_tokens: 0, cache_read_tokens: 0, cache_write_tokens: 0, reasoning_tokens: 0 },
    }
}

/// The core blocks of an Anthropic `content` member: a string as one text,
/// an array block by block, anything else nothing.
pub open spec fn ant_content(c: Option<JsonV>) -> Seq<BlockV> {
    match c {
        Some(JsonV::Str(s)) => seq![BlockV::Text { text: s }],
        Some(JsonV::Array(arr)) => from_anthropic_all(arr),
        _ => Seq::empty(),
    }
}

/// The system of an Anthropic request: a non-empty string as one text, an
/// array block by block.
pub open spec fn ant_request_system(raw: JsonV) -> Seq<BlockV> {
    match raw.field("system"@) {
        Some(JsonV::Str(s)) => if s.len() > 0 {
            seq![BlockV::Text { text: s }]
        } else {
            Seq::empty()
        },
        Some(JsonV::Array(arr)) => from_anthropic_all(arr),
        _ => Seq::empty(),
    }
}

/// The role of an Anthropic message: assistant, system, else user.
pub open spec fn ant_role_of(m: JsonV) -> Role {
    let r = m.field_str("role"@);
    if r == Some("assistant"@) {
        Role::Assistant
    } else if r == Some("system"@) {
        Role::System
    } else {
        Role::User
    }
}

/// The messages of an Anthropic request, every one kept.
pub open spec fn ant_request_messages(raw: JsonV) -> Seq<(Role, Seq<BlockV>)> {
    match raw.field("messages"@) {
        Some(JsonV::Array(ms)) => ms.map_values(|m: JsonV| (ant_role_of(m), ant_content(m.field("content"@)))),
        _ => Seq::empty(),
    }
}

/// An Anthropic tool definition; none without a name. The input schema
/// defaults to an object schema.
pub open spec fn ant_tool_of(t: JsonV) -> Option<ToolV> {
    match t.field_str("name"@) {
        Some(n) => Some(
            ToolV {
                name: n,
                description: t.field_str("description"@),
                input_schema: match t.field("input_schema"@) {
                    Some(s) => s,
                    None => JsonV::Object(seq![("type"@, JsonV::Str("object"@))]),
                },
            },
        ),
        None => None,
    }
}

pub open spec fn ant_tools_of(ts: Seq<JsonV>) -> Seq<ToolV>
    decreases ts.len(),
{
    if ts.len() == 0 {
        Seq::empty()
    } else {
        ant_tools_of(ts.drop_last()) + match ant_tool_of(ts.last()) {
            Some(t) => seq![t],
            None => Seq::empty(),
        }
    }
}

/// The tools of an Anthropic request.
pub open spec fn ant_request_tools(raw: JsonV) -> Seq<ToolV> {
    match raw.field("tools"@) {
        Some(JsonV::Array(ts)) => ant_tools_of(ts),
        _ => Seq::empty(),
    }
}

/// An Anthropic `tool_choice`: `auto`, `any` (required), `none`, or a named
/// tool; anything else is none.
pub open spec fn ant_tool_choice_of(v: JsonV) -> Option<ToolChoiceV> {
    let t = v.field_str("type"@);
    if t == Some("auto"@) {
        Some(ToolChoiceV::Auto)
    } else if t == Some("any"@) {
        Some(ToolChoiceV::Required)
    } else if t == Some("none"@) {
        Some(ToolChoiceV::NoTools)
    } else if t == Some("tool"@) {
        match v.field_str("name"@) {
            Some(n) => Some(ToolChoiceV::Tool { name: n }),
            None => None,
        }
    } else {
        None
    }
}

/// The reasoning effort of an Anthropic `thinking` setting: an enabled budget
/// maps back to its effort level; adaptive thinking takes
/// `output_config.effort`, else `high`; anything else (disabled or unknown)
/// asks for none.
pub open spec fn ant_effort(raw: JsonV) -> Option<Seq<char>> {
    match raw.field("thinking"@) {
        Some(JsonV::Object(fs)) => {
            let t = JsonV::Object(fs);
            let ty = t.field_str("type"@);
            if ty == Some("enabled"@) {
                match t.field_u64("budget_tokens"@) {
                    Some(b) => Some(effort_for(b as u32)),
                    None => None,
                }
            } else if ty == Some("adaptive"@) {
                Some(
                    match raw.field("output_config"@) {
                        Some(o) => match o.field_str("effort"@) {
                            Some(e) => e,
                            None => "high"@,
                        },
                        None => "high"@,
                    },
                )
            } else {
                None
            }
        },
        _ => None,
    }
}

/// The stop sequences of a request: the strings of its `stop_sequences`.
pub open spec fn ant_stops(raw: JsonV) -> Seq<Seq<char>> {
    match raw.field("stop_sequences"@) {
        Some(JsonV::Array(a)) => strings_of(a),
        _ => Seq::empty(),
    }
}

pub open spec fn strings_of(a: Seq<JsonV>) -> Seq<Seq<char>>
    decreases a.len(),
{
    if a.len() == 0 {
        Seq::empty()
    } else {
        strings_of(a.drop_last()) + match a.last().str_of() {
            Some(s) => seq![s],
            None => Seq::empty(),
        }
    }
}

/// The Anthropic response object of a core response.
pub open spec fn ant_response(resp: CoreResponse) -> JsonV {
    JsonV::Object(
        seq![
            ("id"@, JsonV::Str(resp.id@)),
            ("type"@, JsonV::Str("message"@)),
            ("role"@, JsonV::Str("assistant"@)),
            ("model"@, JsonV::Str(resp.model@)),
            ("content"@, JsonV::Array(to_anthropic_all(blocks_view(resp.content@)))),
            ("stop_reason"@, JsonV::Str(match resp.stop_reason {
                Some(r) => stop_reason_name(r),
                None => "end_turn"@,
            })),
            ("stop_sequence"@, JsonV::Null),
            ("usage"@, usage_out_value(resp.usage)),
        ],
    )
}

} // verus!

verus! {

fn sj(s: &str) -> (r: Json)
    ensures
        r@ == JsonV::Str(s@),
{
    Json::Str(s.to_string())
}

fn push_member(fs: &mut Vec<(String, Json)>, k: &str, v: Json)
    ensures
        fields_view(final(fs)@) == fields_view(old(fs)@).push((k@, v@)),
{
    let ghost before = fs@;
    fs.push(jfield(k, v));
    proof {
        lemma_fields_view(before);
        lemma_fields_view(fs@);
        assert(fields_view(fs@) =~= fields_view(before).push((k@, v@)));
    }
}

pub open spec fn turns_view(out: Seq<(String, Vec<Json>)>) -> Seq<(Seq<char>, Seq<JsonV>)> {
    out.map_values(|c: (String, Vec<Json>)| (c.0@, items_view(c.1@)))
}

/// Core messages → Anthropic turns (see [`ant_turns`]).
pub fn build_messages(messages: &Vec<Message>) -> (r: Vec<Json>)
    ensures
        items_view(r@) == ant_turns(msgs_view(messages@)).map_values(|t: (Seq<char>, Seq<JsonV>)| turn_value(t)),
{
    let ghost mv = msgs_view(messages@);
    let mut out: Vec<(String, Vec<Json>)> = Vec::new();
    proof {
        assert(turns_view(out@) =~= ant_turns(mv.take(0)));
    }
    let mut i: usize = 0;
    while i < messages.len()
        invariant
            i <= messages@.len() == mv.len(),
            mv == msgs_view(messages@),
            turns_view(out@) == ant_turns(mv.take(i as int)),
        decreases messages@.len() - i,
    {
        proof {
            assert(mv.take(i + 1).drop_last() == mv.take(i as int));
            assert(mv.take(i + 1).last() == message_view(messages@[i as int]));
        }
        let ghost ov = turns_view(out@);
        let m = &messages[i];
        let mut blocks = blocks_to_anthropic(&m.content);
        proof {
            lemma_items_view(blocks@);
        }
        if blocks.len() > 0 {
            let role = if m.role == Role::Assistant {
                "assistant"
            } else {
                "user"
            };
            let n = out.len();
            let merge = n > 0 && str_eq(out[n - 1].0.as_str(), role);
            if merge {
                let (r0, mut p0) = out.pop().unwrap();
                let ghost a = p0@;
                let ghost b = blocks@;
                p0.append(&mut blocks);
                proof {
                    lemma_items_view(a);
                    lemma_items_view(b);
                    lemma_items_view(p0@);
                    assert(items_view(p0@) =~= items_view(a) + items_view(b));
                }
                out.push((r0, p0));
                proof {
                    assert(turns_view(out@) =~= ov.update(ov.len() - 1, (ov.last().0, ov.last().1 + items_view(b))));
                }
            } else {
                let ghost bv = items_view(blocks@);
                out.push((role.to_string(), blocks));
                proof {
                    assert(turns_view(out@) =~= ov.push((role@, bv)));
                }
            }
        }
        i = i + 1;
    }
    proof {
        assert(mv.take(mv.len() as int) == mv);
    }
    let ghost tv = turns_view(out@);
    let mut res: Vec<Json> = Vec::new();
    let n = out.len();
    let mut rest = out;
    let ghost all = rest@;
    proof {
        assert(rest@.skip(0) == rest@);
        lemma_items_view(res@);
        assert(items_view(res@) =~= tv.take(0).map_values(|t: (Seq<char>, Seq<JsonV>)| turn_value(t)));
    }
    let mut k: usize = 0;
    while k < n
        invariant
            k <= n == all.len() == tv.len(),
            tv == turns_view(all),
            rest@ == all.skip(k as int),
            items_view(res@) == tv.take(k as int).map_values(|t: (Seq<char>, Seq<JsonV>)| turn_value(t)),
        decreases n - k,
    {
        let (role, parts) = rest.remove(0);
        proof {
            assert((role, parts) == all[k as int]);
            assert(rest@ == all.skip(k + 1));
            lemma_items_view(parts@);
        }
        let ghost rv = role@;
        let ghost pv = items_view(parts@);
        assert(tv[k as int] == (rv, pv));
        let ghost before = items_view(res@);
        let mut fs: Vec<(String, Json)> = Vec::new();
        proof {
            assert(fields_view(fs@) =~= Seq::<(Seq<char>, JsonV)>::empty());
        }
        push_member(&mut fs, "role", Json::Str(role));
        push_member(&mut fs, "content", Json::Array(parts));
        assert(fields_view(fs@) =~= seq![("role"@, JsonV::Str(rv)), ("content"@, JsonV::Array(pv))]);
        let v = jobject(fs);
        proof {
            lemma_items_view(res@);
        }
        res.push(v);
        proof {
            lemma_items_view(res@);
            assert(v@ == turn_value(tv[k as int]));
            assert(items_view(res@) =~= before.push(v@));
            assert(tv.take(k + 1).map_values(|t: (Seq<char>, Seq<JsonV>)| turn_value(t)) =~= tv.take(k as int).map_values(|t: (Seq<char>, Seq<JsonV>)| turn_value(t)).push(turn_value(tv[k as int])));
        }
        k = k + 1;
    }
    proof {
        assert(tv.take(tv.len() as int) == tv);
    }
    res
}

/// The top-level system (see [`ant_system`]).
pub fn build_system(system: &Vec<ContentBlock>, messages: &Vec<Message>) -> (r: Option<Json>)
    ensures
        match r {
            Some(v) => ant_system(blocks_view(system@), msgs_view(messages@)) == Some(v@),
            None => ant_system(blocks_view(system@), msgs_view(messages@)) is None,
        },
{
    let ghost mv = msgs_view(messages@);
    let mut blocks = blocks_to_anthropic(system);
    let ghost head = items_view(blocks@);
    proof {
        assert(head + system_message_blocks(mv.take(0)) =~= head);
    }
    let mut i: usize = 0;
    while i < messages.len()
        invariant
            i <= messages@.len() == mv.len(),
            mv == msgs_view(messages@),
            items_view(blocks@) == head + system_message_blocks(mv.take(i as int)),
        decreases messages@.len() - i,
    {
        proof {
            assert(mv.take(i + 1).drop_last() == mv.take(i as int));
            assert(mv.take(i + 1).last() == message_view(messages@[i as int]));
        }
        if messages[i].role == Role::System {
            let mut more = blocks_to_anthropic(&messages[i].content);
            let ghost a = blocks@;
            let ghost b = more@;
            blocks.append(&mut more);
            proof {
                lemma_items_view(a);
                lemma_items_view(b);
                lemma_items_view(blocks@);
                assert(items_view(blocks@) =~= items_view(a) + items_view(b));
                assert(head + system_message_blocks(mv.take(i + 1)) =~= head + system_message_blocks(mv.take(i as int)) + items_view(b));
            }
        } else {
            proof {
                assert(head + system_message_blocks(mv.take(i + 1)) =~= head + system_message_blocks(mv.take(i as int)));
            }
        }
        i = i + 1;
    }
    proof {
        assert(mv.take(mv.len() as int) == mv);
        lemma_items_view(blocks@);
    }
    if blocks.len() == 0 {
        None
    } else {
        Some(Json::Array(blocks))
    }
}

fn ant_tool_json(t: &Tool) -> (r: Json)
    ensures
        r@ == ant_tool(tool_view(*t)),
{
    let mut fs: Vec<(String, Json)> = Vec::new();
    fs.push(jfield("name", Json::Str(t.name.clone())));
    fs.push(jfield("input_schema", t.input_schema.deep_clone()));
    if let Some(d) = &t.description {
        fs.push(jfield("description", Json::Str(d.clone())));
    }
    proof {
        lemma_fields_view(fs@);
        assert(fields_view(fs@) =~= ant_tool(tool_view(*t))->Object_0);
    }
    jobject(fs)
}

fn ant_tool_choice_json(tc: &ToolChoice) -> (r: Json)
    ensures
        r@ == ant_tool_choice(tool_choice_view(*tc)),
{
    match tc {
        ToolChoice::Auto => one1("type", sj("auto")),
        ToolChoice::NoTools => one1("type", sj("none")),
        ToolChoice::Required => one1("type", sj("any")),
        ToolChoice::Tool { name } => {
            let mut fs: Vec<(String, Json)> = Vec::new();
            fs.push(jfield("type", sj("tool")));
            fs.push(jfield("name", Json::Str(name.clone())));
            proof {
                lemma_fields_view(fs@);
                assert(fields_view(fs@) =~= ant_tool_choice(tool_choice_view(*tc))->Object_0);
            }
            jobject(fs)
        },
    }
}

fn head_members(req: &CoreRequest, max_tokens: u32) -> (r: Vec<(String, Json)>)
    ensures
        fields_view(r@) == ant_head(*req, max_tokens),
{
    let ghost ms = msgs_view(req.messages@);
    let mut fs: Vec<(String, Json)> = Vec::new();
    proof {
        assert(fields_view(fs@) =~= Seq::<(Seq<char>, JsonV)>::empty());
    }
    push_member(&mut fs, "model", Json::Str(req.model.clone()));
    push_member(&mut fs, "max_tokens", Json::Num(JsonNum::PosInt(max_tokens as u64)));
    push_member(&mut fs, "messages", Json::Array(build_messages(&req.messages)));
    push_member(&mut fs, "stream", Json::Bool(req.stream));
    let ghost a = fields_view(fs@);
    if let Some(system) = build_system(&req.system, &req.messages) {
        push_member(&mut fs, "system", system);
    }
    proof {
        assert(fields_view(fs@) =~= ant_head(*req, max_tokens));
    }
    fs
}

fn tool_members(req: &CoreRequest) -> (r: Vec<(String, Json)>)
    ensures
        fields_view(r@) == ant_tool_members(*req),
{
    let mut fs: Vec<(String, Json)> = Vec::new();
    proof {
        assert(fields_view(fs@) =~= Seq::<(Seq<char>, JsonV)>::empty());
    }
    if req.tools.len() > 0 {
        let mut tools: Vec<Json> = Vec::new();
        let mut i: usize = 0;
        while i < req.tools.len()
            invariant
                i <= req.tools@.len(),
                tools@.len() == i,
                forall|k: int| 0 <= k < i ==> (#[trigger] tools@[k])@ == ant_tool(tool_view(req.tools@[k])),
            decreases req.tools@.len() - i,
        {
            tools.push(ant_tool_json(&req.tools[i]));
            i = i + 1;
        }
        proof {
            lemma_items_view(tools@);
            assert(items_view(tools@) =~= req.tools@.map_values(|t: Tool| ant_tool(tool_view(t))));
        }
        push_member(&mut fs, "tools", Json::Array(tools));
    }
    if let Some(tc) = &req.tool_choice {
        push_member(&mut fs, "tool_choice", ant_tool_choice_json(tc));
    }
    proof {
        assert(fields_view(fs@) =~= ant_tool_members(*req));
    }
    fs
}

fn sampling_members(req: &CoreRequest) -> (r: Vec<(String, Json)>)
    ensures
        fields_view(r@) == ant_sampling(*req),
{
    let mut fs: Vec<(String, Json)> = Vec::new();
    proof {
        assert(fields_view(fs@) =~= Seq::<(Seq<char>, JsonV)>::empty());
    }
    if let Some(t) = &req.temperature {
        push_member(&mut fs, "temperature", num_json(t));
    }
    if let Some(p) = &req.top_p {
        push_member(&mut fs, "top_p", num_json(p));
    }
    if req.stop.len() > 0 {
        let mut stops: Vec<Json> = Vec::new();
        let mut i: usize = 0;
        while i < req.stop.len()
            invariant
                i <= req.stop@.len(),
                stops@.len() == i,
                forall|k: int| 0 <= k < i ==> (#[trigger] stops@[k])@ == JsonV::Str(req.stop@[k]@),
            decreases req.stop@.len() - i,
        {
            stops.push(Json::Str(req.stop[i].clone()));
            i = i + 1;
        }
        proof {
            lemma_items_view(stops@);
            assert(items_view(stops@) =~= req.stop@.map_values(|x: String| JsonV::Str(x@)));
        }
        push_member(&mut fs, "stop_sequences", Json::Array(stops));
    }
    proof {
        assert(fields_view(fs@) =~= ant_sampling(*req));
    }
    fs
}

fn thinking_members(req: &CoreRequest, max_tokens: u32) -> (r: Vec<(String, Json)>)
    ensures
        fields_view(r@) == ant_thinking(*req, max_tokens),
{
    let mut fs: Vec<(String, Json)> = Vec::new();
    proof {
        assert(fields_view(fs@) =~= Seq::<(Seq<char>, JsonV)>::empty());
    }
    if let Some(effort) = reasoning_effort(req) {
        if let Some(budget) = clamped_thinking_budget(effort.as_str(), max_tokens) {
            let mut th: Vec<(String, Json)> = Vec::new();
            th.push(jfield("type", sj("enabled")));
            th.push(jfield("budget_tokens", Json::Num(JsonNum::PosInt(budget as u64))));
            proof {
                lemma_fields_view(th@);
                assert(fields_view(th@) =~= seq![("type"@, JsonV::Str("enabled"@)), ("budget_tokens"@, JsonV::PosInt(budget as u64))]);
            }
            push_member(&mut fs, "thinking", jobject(th));
        }
    }
    proof {
        assert(fields_view(fs@) =~= ant_thinking(*req, max_tokens));
    }
    fs
}

fn append_members(fs: &mut Vec<(String, Json)>, more: Vec<(String, Json)>)
    ensures
        fields_view(final(fs)@) == fields_view(old(fs)@) + fields_view(more@),
{
    let mut more = more;
    let ghost a = fs@;
    let ghost b = more@;
    fs.append(&mut more);
    proof {
        lemma_fields_view(a);
        lemma_fields_view(b);
        lemma_fields_view(fs@);
        assert(fields_view(fs@) =~= fields_view(a) + fields_view(b));
    }
}

/// The request body under the token limit `max_tokens` (see [`ant_body`]).
pub fn build_body(req: &CoreRequest, max_tokens: u32) -> (r: Json)
    ensures
        r@ == ant_body(*req, max_tokens),
{
    let mut fs = head_members(req, max_tokens);
    append_members(&mut fs, tool_members(req));
    append_members(&mut fs, sampling_members(req));
    append_members(&mut fs, thinking_members(req, max_tokens));
    jobject(fs)
}

impl AnthropicAdapter {
    /// Core request → Anthropic upstream request: `POST` to the base URL
    /// (trailing slashes dropped) followed by [`MESSAGES_PATH`], with the
    /// headers of [`ant_headers`] and the body of [`ant_body`] under the limit
    /// of [`ant_max_tokens`]: the request's, else the upstream model's output
    /// limit from the context, else the default.
    pub fn from_core_request(&self, ctx: &ReqCtx, req: &CoreRequest, endpoint: &ProviderEndpoint) -> (r: UpstreamRequest)
        ensures
            r.method@ == "POST"@,
            r.url@ == strip_trailing_slashes(endpoint.base_url@) + MESSAGES_PATH@,
            r.headers@.map_values(|h: (String, String)| (h.0@, h.1@)) == ant_headers(
                endpoint.api_key@,
                opt_view(endpoint.version),
                opt_view(endpoint.user_agent),
            ),
            r.body@ == ant_body(*req, ant_max_tokens(*req, ctx.upstream_max_output_tokens)),
            r.stream == req.stream,
    {
        let limit: u32 = match req.max_tokens {
            Some(m) => m,
            None => match ctx.upstream_max_output_tokens {
                Some(u) => u,
                None => DEFAULT_MAX_TOKENS,
            },
        };
        let base = trim_end_slashes(endpoint.base_url.as_str());
        let url = concat_str(base.as_str(), MESSAGES_PATH);
        let version = match &endpoint.version {
            Some(v) => v.clone(),
            None => DEFAULT_VERSION.to_string(),
        };
        let mut headers: Vec<(String, String)> = Vec::new();
        headers.push(("content-type".to_string(), "application/json".to_string()));
        headers.push(("x-api-key".to_string(), endpoint.api_key.clone()));
        headers.push(("anthropic-version".to_string(), version));
        if let Some(ua) = &endpoint.user_agent {
            headers.push(("user-agent".to_string(), ua.clone()));
        }
        proof {
            assert(headers@.map_values(|h: (String, String)| (h.0@, h.1@)) =~= ant_headers(
                endpoint.api_key@,
                opt_view(endpoint.version),
                opt_view(endpoint.user_agent),
            ));
        }
        UpstreamRequest { method: "POST".to_string(), url, headers, body: build_body(req, limit), stream: req.stream }
    }

    /// Anthropic response → core response: id and model (empty when absent),
    /// the blocks of its content, its stop reason, and its usage (see
    /// [`ant_usage`]).
    pub fn to_core_response(&self, _ctx: &ReqCtx, raw: &Json) -> (r: CoreResponse)
        ensures
            r.id@ == str_or_empty(raw@, "id"@),
            r.model@ == str_or_empty(raw@, "model"@),
            blocks_view(r.content@) == match raw@.field("content"@) {
                Some(JsonV::Array(arr)) => from_anthropic_all(arr),
                _ => Seq::empty(),
            },
            r.stop_reason == match raw@.field_str("stop_reason"@) {
                Some(s) => stop_reason_of(s),
                None => None,
            },
            r.usage == ant_usage(raw@),
    {
        let content = match raw.get("content") {
            Some(Json::Array(arr)) => anthropic_to_blocks(arr),
            _ => {
                let e: Vec<ContentBlock> = Vec::new();
                proof {
                    lemma_blocks_view(e@);
                    assert(blocks_view(e@) =~= Seq::<BlockV>::empty());
                }
                e
            },
        };
        let stop_reason = match raw.get_str("stop_reason") {
            Some(s) => map_stop_reason(s),
            None => None,
        };
        let usage = match raw.get("usage") {
            Some(u) => {
                let cr = read_count(u, "cache_read_input_tokens");
                let cw = read_count(u, "cache_creation_input_tokens");
                Usage {
                    input_tokens: read_count(u, "input_tokens").saturating_add(cr).saturating_add(cw),
                    output_tokens: read_count(u, "output_tokens"),
                    cache_read_tokens: cr,
                    cache_write_tokens: cw,
                    reasoning_tokens: 0,
                }
            },
            None => Usage::zero(),
        };
        CoreResponse { id: str_field(raw, "id"), model: str_field(raw, "model"), content, stop_reason, usage }
    }
}

} // verus!

verus! {

/// The content of an Anthropic message (see [`ant_content`]).
fn parse_content(c: Option<&Json>) -> (r: Vec<ContentBlock>)
    ensures
        blocks_view(r@) == ant_content(match c {
            Some(v) => Some(v@),
            None => None,
        }),
{
    match c {
        Some(Json::Str(s)) => {
            let mut out: Vec<ContentBlock> = Vec::new();
            out.push(ContentBlock::Text { text: s.clone() });
            proof {
                lemma_blocks_view(out@);
                assert(blocks_view(out@) =~= seq![BlockV::Text { text: s@ }]);
            }
            out
        },
        Some(Json::Array(arr)) => anthropic_to_blocks(arr),
        _ => {
            let out: Vec<ContentBlock> = Vec::new();
            proof {
                lemma_blocks_view(out@);
                assert(blocks_view(out@) =~= Seq::<BlockV>::empty());
            }
            out
        },
    }
}

/// An Anthropic `tool_choice` → core tool choice (see [`ant_tool_choice_of`]).
pub fn parse_ant_tool_choice(v: &Json) -> (r: Option<ToolChoice>)
    ensures
        opt_choice_view(r) == ant_tool_choice_of(v@),
{
    let t = v.get_str("type");
    let is = |x: &str| -> (b: bool)
        ensures
            b == (t matches Some(y) && y@ == x@),
        {
            match t {
                Some(y) => str_eq(y, x),
                None => false,
            }
        };
    if is("auto") {
        Some(ToolChoice::Auto)
    } else if is("any") {
        Some(ToolChoice::Required)
    } else if is("none") {
        Some(ToolChoice::NoTools)
    } else if is("tool") {
        match v.get_str("name") {
            Some(n) => Some(ToolChoice::Tool { name: n.to_string() }),
            None => None,
        }
    } else {
        None
    }
}

/// The reasoning effort of a request's thinking setting (see [`ant_effort`]).
fn thinking_effort(raw: &Json) -> (r: Option<String>)
    ensures
        opt_view(r) == ant_effort(raw@),
{
    match raw.get("thinking") {
        Some(t) => match t {
            Json::Object(_) => {
                let ty = t.get_str("type");
                let enabled = match ty {
                    Some(x) => str_eq(x, "enabled"),
                    None => false,
                };
                let adaptive = match ty {
                    Some(x) => str_eq(x, "adaptive"),
                    None => false,
                };
                if enabled {
                    match t.get_u64("budget_tokens") {
                        Some(b) => Some(effort_from_budget(b as u32).to_string()),
                        None => None,
                    }
                } else if adaptive {
                    let e = match raw.get("output_config") {
                        Some(o) => match o.get_str("effort") {
                            Some(e) => e,
                            None => "high",
                        },
                        None => "high",
                    };
                    Some(e.to_string())
                } else {
                    None
                }
            },
            _ => None,
        },
        None => None,
    }
}

/// The strings among JSON values, in order (see [`strings_of`]).
pub(crate) fn string_items(a: &Vec<Json>) -> (r: Vec<String>)
    ensures
        r@.map_values(|x: String| x@) == strings_of(items_view(a@)),
{
    proof {
        lemma_items_view(a@);
    }
    let ghost av = items_view(a@);
    let mut stops: Vec<String> = Vec::new();
    let mut i: usize = 0;
    proof {
        assert(stops@.map_values(|x: String| x@) =~= strings_of(av.take(0)));
    }
    while i < a.len()
        invariant
            i <= a@.len() == av.len(),
            av == items_view(a@),
            forall|k: int| 0 <= k < a@.len() ==> #[trigger] av[k] == json_view(a@[k]),
            stops@.map_values(|x: String| x@) == strings_of(av.take(i as int)),
        decreases a@.len() - i,
    {
        proof {
            assert(av.take(i + 1).drop_last() == av.take(i as int));
            assert(av.take(i + 1).last() == av[i as int]);
        }
        let ghost before = stops@;
        match a[i].as_str() {
            Some(x) => {
                stops.push(x.to_string());
                proof {
                    assert(stops@.map_values(|x: String| x@) =~= before.map_values(|x: String| x@).push(x@));
                }
            },
            None => {
                proof {
                    assert(strings_of(av.take(i + 1)) =~= strings_of(av.take(i as int)));
                }
            },
        }
        i = i + 1;
    }
    proof {
        assert(av.take(av.len() as int) == av);
    }
    stops
}

impl AnthropicAdapter {
    /// Anthropic request → core request: model (also the alias), system,
    /// every message, the named tools, tool choice, the reasoning effort of
    /// the thinking setting, token limit (cut to 32 bits), sampling numbers,
    /// stop sequences and stream flag.
    pub fn to_core_request(&self, _ctx: &ReqCtx, raw: &Json) -> (r: CoreRequest)
        ensures
            r.model@ == str_or_empty(raw@, "model"@),
            r.model_alias@ == str_or_empty(raw@, "model"@),
            blocks_view(r.system@) == ant_request_system(raw@),
            msgs_view(r.messages@) == ant_request_messages(raw@),
            r.tools@.map_values(|t: Tool| tool_view(t)) == ant_request_tools(raw@),
            opt_choice_view(r.tool_choice) == match raw@.field("tool_choice"@) {
                Some(tc) => ant_tool_choice_of(tc),
                None => None,
            },
            match ant_effort(raw@) {
                Some(e) => r.reasoning matches Some(x) && opt_view(x.effort) == Some(e) && x.summary is None,
                None => r.reasoning is None,
            },
            r.max_tokens == match raw@.field_u64("max_tokens"@) {
                Some(u) => Some(u as u32),
                None => None,
            },
            opt_num(r.temperature) == number_field(raw@, "temperature"@),
            opt_num(r.top_p) == number_field(raw@, "top_p"@),
            r.stop@.map_values(|x: String| x@) == ant_stops(raw@),
            r.stream == flag_of(raw@, "stream"@),
            r.meta@.len() == 0,
    {
        let model = str_field(raw, "model");
        let mut req = CoreRequest::new(model.as_str());
        req.model_alias = model;
        // system
        match raw.get("system") {
            Some(Json::Str(s)) => {
                if s.as_str().unicode_len() > 0 {
                    req.system.push(ContentBlock::Text { text: s.clone() });
                    proof {
                        lemma_blocks_view(req.system@);
                        assert(blocks_view(req.system@) =~= seq![BlockV::Text { text: s@ }]);
                    }
                } else {
                    proof {
                        lemma_blocks_view(req.system@);
                        assert(blocks_view(req.system@) =~= Seq::<BlockV>::empty());
                    }
                }
            },
            Some(Json::Array(arr)) => {
                req.system = anthropic_to_blocks(arr);
            },
            _ => {
                proof {
                    lemma_blocks_view(req.system@);
                    assert(blocks_view(req.system@) =~= Seq::<BlockV>::empty());
                }
            },
        }
        // messages
        let mut msgs: Vec<Message> = Vec::new();
        match raw.get("messages") {
            Some(Json::Array(ms)) => {
                proof {
                    lemma_items_view(ms@);
                }
                let ghost mv = items_view(ms@);
                let mut i: usize = 0;
                while i < ms.len()
                    invariant
                        i <= ms@.len() == mv.len(),
                        mv == items_view(ms@),
                        forall|k: int| 0 <= k < ms@.len() ==> #[trigger] mv[k] == json_view(ms@[k]),
                        msgs_view(msgs@) == mv.take(i as int).map_values(
                            |m: JsonV| (ant_role_of(m), ant_content(m.field("content"@))),
                        ),
                    decreases ms@.len() - i,
                {
                    let m = &ms[i];
                    let role = match m.get_str("role") {
                        Some(r) => if str_eq(r, "assistant") {
                            Role::Assistant
                        } else if str_eq(r, "system") {
                            Role::System
                        } else {
                            Role::User
                        },
                        None => Role::User,
                    };
                    let content = parse_content(m.get("content"));
                    let ghost before = msgs@;
                    let msg = Message { role, content };
                    msgs.push(msg);
                    proof {
                        assert(msgs_view(msgs@) =~= msgs_view(before).push(message_view(msg)));
                        assert(mv.take(i + 1).map_values(|m: JsonV| (ant_role_of(m), ant_content(m.field("content"@))))
                            =~= mv.take(i as int).map_values(|m: JsonV| (ant_role_of(m), ant_content(m.field("content"@)))).push(
                            (ant_role_of(mv[i as int]), ant_content(mv[i as int].field("content"@))),
                        ));
                    }
                    i = i + 1;
                }
                proof {
                    assert(mv.take(mv.len() as int) == mv);
                }
            },
            _ => {
                proof {
                    assert(msgs_view(msgs@) =~= Seq::<(Role, Seq<BlockV>)>::empty());
                }
            },
        }
        req.messages = msgs;
        // tools
        let mut tools: Vec<Tool> = Vec::new();
        match raw.get("tools") {
            Some(Json::Array(ts)) => {
                proof {
                    lemma_items_view(ts@);
                }
                let ghost tv = items_view(ts@);
                let mut i: usize = 0;
                proof {
                    assert(tools@.map_values(|t: Tool| tool_view(t)) =~= ant_tools_of(tv.take(0)));
                }
                while i < ts.len()
                    invariant
                        i <= ts@.len() == tv.len(),
                        tv == items_view(ts@),
                        forall|k: int| 0 <= k < ts@.len() ==> #[trigger] tv[k] == json_view(ts@[k]),
                        tools@.map_values(|t: Tool| tool_view(t)) == ant_tools_of(tv.take(i as int)),
                    decreases ts@.len() - i,
                {
                    proof {
                        assert(tv.take(i + 1).drop_last() == tv.take(i as int));
                        assert(tv.take(i + 1).last() == tv[i as int]);
                    }
                    let t = &ts[i];
                    let ghost before = tools@;
                    match t.get_str("name") {
                        Some(name) => {
                            let description = match t.get_str("description") {
                                Some(d) => Some(d.to_string()),
                                None => None,
                            };
                            let input_schema = match t.get("input_schema") {
                                Some(x) => x.deep_clone(),
                                None => one1("type", Json::Str("object".to_string())),
                            };
                            let tool = Tool { name: name.to_string(), description, input_schema };
                            tools.push(tool);
                            proof {
                                assert(tools@.map_values(|t: Tool| tool_view(t)) =~= before.map_values(|t: Tool| tool_view(t)).push(tool_view(tool)));
                            }
                        },
                        None => {
                            proof {
                                assert(ant_tools_of(tv.take(i + 1)) =~= ant_tools_of(tv.take(i as int)));
                            }
                        },
                    }
                    i = i + 1;
                }
                proof {
                    assert(tv.take(tv.len() as int) == tv);
                }
            },
            _ => {
                proof {
                    assert(tools@.map_values(|t: Tool| tool_view(t)) =~= Seq::<ToolV>::empty());
                }
            },
        }
        req.tools = tools;
        if let Some(tc) = raw.get("tool_choice") {
            req.tool_choice = parse_ant_tool_choice(tc);
        }
        if let Some(effort) = thinking_effort(raw) {
            req.reasoning = Some(Reasoning { effort: Some(effort), summary: None });
        }
        req.max_tokens = match raw.get_u64("max_tokens") {
            Some(u) => Some(u as u32),
            None => None,
        };
        req.temperature = crate::protocol::responses_client::number_of(raw.get("temperature"));
        req.top_p = crate::protocol::responses_client::number_of(raw.get("top_p"));
        match raw.get("stop_sequences") {
            Some(Json::Array(a)) => {
                req.stop = string_items(a);
            },
            _ => {
                proof {
                    assert(req.stop@.map_values(|x: String| x@) =~= Seq::<Seq<char>>::empty());
                }
            },
        }
        req.stream = match raw.get("stream") {
            Some(v) => match v.as_bool() {
                Some(b) => b,
                None => false,
            },
            None => false,
        };
        req
    }

    /// Core response → Anthropic response object (see [`ant_response`]).
    pub fn from_core_response(&self, _ctx: &ReqCtx, resp: &CoreResponse) -> (r: Json)
        requires
            resp.usage.cache_read_tokens + resp.usage.cache_write_tokens <= u32::MAX,
        ensures
            r@ == ant_response(*resp),
    {
        let stop = match resp.stop_reason {
            Some(r) => unmap_stop_reason(r),
            None => "end_turn",
        };
        let mut fs: Vec<(String, Json)> = Vec::new();
        fs.push(jfield("id", Json::Str(resp.id.clone())));
        fs.push(jfield("type", sj("message")));
        fs.push(jfield("role", sj("assistant")));
        fs.push(jfield("model", Json::Str(resp.model.clone())));
        fs.push(jfield("content", Json::Array(blocks_to_anthropic(&resp.content))));
        fs.push(jfield("stop_reason", sj(stop)));
        fs.push(jfield("stop_sequence", Json::Null));
        fs.push(jfield("usage", anthropic_usage_out(&resp.usage)));
        proof {
            lemma_fields_view(fs@);
            assert(fields_view(fs@) =~= ant_response(*resp)->Object_0);
        }
        jobject(fs)
    }
}

} // verus!

verus! {

/// Reading back the `tool_choice` written for the Anthropic upstream gives
/// the same choice.
pub proof fn law_ant_tool_choice_roundtrip(t: ToolChoiceV)
    ensures
        ant_tool_choice_of(ant_tool_choice(t)) == Some(t),
{
    reveal_strlit("auto");
    reveal_strlit("none");
    reveal_strlit("any");
    reveal_strlit("tool");
    reveal_strlit("type");
    reveal_strlit("name");
    assert("auto"@[0] != "none"@[0] && "auto"@[1] != "any"@[1] && "auto"@[0] != "tool"@[0]);
    assert("any"@[0] != "none"@[0] && "any"@[0] != "tool"@[0] && "none"@[0] != "tool"@[0]);
    assert("type"@[0] != "name"@[0]);
    let fs = ant_tool_choice(t)->Object_0;
    crate::json::lemma_find_field_at(fs, "type"@, 0);
    if let ToolChoiceV::Tool { name } = t {
        crate::json::lemma_find_field_at(fs, "name"@, 1);
    }
}

/// Reading back a tool written for the Anthropic upstream gives the same
/// tool.
pub proof fn law_ant_tool_roundtrip(t: ToolV)
    ensures
        ant_tool_of(ant_tool(t)) == Some(t),
{
    reveal_strlit("name");
    reveal_strlit("input_schema");
    reveal_strlit("description");
    assert("name"@[0] != "input_schema"@[0] && "name"@[0] != "description"@[0] && "input_schema"@[0]
        != "description"@[0]);
    let fs = ant_tool(t)->Object_0;
    crate::json::lemma_find_field_at(fs, "name"@, 0);
    crate::json::lemma_find_field_at(fs, "input_schema"@, 1);
    match t.description {
        Some(d) => {
            crate::json::lemma_find_field_at(fs, "description"@, 2);
        },
        None => {
            crate::json::lemma_find_field_absent(fs, "description"@);
        },
    }
}

/// Anthropic reasoning credentials come back in the form they left:
/// reasoning with a non-empty credential, converted to an Anthropic block and
/// back, is the same block (a redacted block only when it has no text, since
/// Anthropic's redacted form carries none).
pub proof fn law_credential_forms_restored(text: Seq<char>, sig: Seq<char>, redacted: bool)
    requires
        sig.len() > 0,
        redacted ==> text.len() == 0,
    ensures
        ({
            let b = BlockV::Reasoning { text, signature: Some(sig), redacted };
            to_anthropic(b) matches Some(v) && crate::protocol::anthropic_blocks::from_anthropic(v) == Some(b)
        }),
{
    reveal_strlit("type");
    reveal_strlit("thinking");
    reveal_strlit("signature");
    reveal_strlit("redacted_thinking");
    reveal_strlit("data");
    reveal_strlit("text");
    reveal_strlit("image");
    reveal_strlit("tool_use");
    reveal_strlit("tool_result");
    assert("type"@[1] != "thinking"@[1] && "type"@[0] != "signature"@[0] && "type"@[0] != "data"@[0]);
    assert("thinking"@[0] != "signature"@[0]);
    assert("thinking"@ != "text"@ && "thinking"@ != "image"@ && "thinking"@ != "tool_use"@ && "thinking"@
        != "tool_result"@) by {
        assert("thinking"@[1] != "text"@[1]);
        assert("thinking"@[0] != "image"@[0]);
        assert("thinking"@[1] != "tool_use"@[1]);
        assert("thinking"@[1] != "tool_result"@[1]);
    }
    assert("redacted_thinking"@[0] != "text"@[0] && "redacted_thinking"@[0] != "image"@[0] && "redacted_thinking"@[0]
        != "tool_use"@[0] && "redacted_thinking"@[0] != "tool_result"@[0] && "redacted_thinking"@[0]
        != "thinking"@[0]);
    let b = BlockV::Reasoning { text, signature: Some(sig), redacted };
    let v = to_anthropic(b)->0;
    let fs = v->Object_0;
    crate::json::lemma_find_field_at(fs, "type"@, 0);
    if text.len() == 0 {
        assert(text =~= Seq::<char>::empty());
    }
    if redacted {
        assert(fs =~= seq![("type"@, JsonV::Str("redacted_thinking"@)), ("data"@, JsonV::Str(sig))]);
        crate::json::lemma_find_field_at(fs, "data"@, 1);
        assert(v.field_str("type"@) == Some("redacted_thinking"@));
        assert(v.field_str("data"@) == Some(sig));
        assert(crate::protocol::anthropic_blocks::from_anthropic(v) == Some(b));
    } else {
        assert(fs =~= seq![
            ("type"@, JsonV::Str("thinking"@)),
            ("thinking"@, JsonV::Str(text)),
            ("signature"@, JsonV::Str(sig)),
        ]);
        crate::json::lemma_find_field_at(fs, "thinking"@, 1);
        crate::json::lemma_find_field_at(fs, "signature"@, 2);
        assert(v.field_str("type"@) == Some("thinking"@));
        assert(v.field_str("signature"@) == Some(sig));
        assert(crate::protocol::chat::str_or_empty(v, "thinking"@) == text);
        assert(crate::protocol::anthropic_blocks::from_anthropic(v) == Some(b));
    }
}

/// Usage survives a trip through an Anthropic response: Anthropic input
/// tokens leave out the cached tokens and reading adds them back, so the core
/// counts (without reasoning tokens, which Anthropic does not report) come
/// back unchanged whenever the cached tokens are part of the input.
pub proof fn law_ant_usage_roundtrip(u: Usage)
    requires
        u.cache_read_tokens + u.cache_write_tokens <= u.input_tokens,
        u.reasoning_tokens == 0,
    ensures
        ant_usage(JsonV::Object(seq![("usage"@, usage_out_value(u))])) == u,
{
    reveal_strlit("usage");
    reveal_strlit("input_tokens");
    reveal_strlit("output_tokens");
    reveal_strlit("cache_read_input_tokens");
    reveal_strlit("cache_creation_input_tokens");
    assert("input_tokens"@[0] != "output_tokens"@[0] && "input_tokens"@[0] != "cache_read_input_tokens"@[0]
        && "input_tokens"@[0] != "cache_creation_input_tokens"@[0]);
    assert("output_tokens"@[0] != "cache_read_input_tokens"@[0] && "output_tokens"@[0]
        != "cache_creation_input_tokens"@[0]);
    assert("cache_read_input_tokens"@[6] != "cache_creation_input_tokens"@[6]);
    let raw = JsonV::Object(seq![("usage"@, usage_out_value(u))]);
    crate::json::lemma_find_field_at(raw->Object_0, "usage"@, 0);
    let fs = usage_out_value(u)->Object_0;
    crate::json::lemma_find_field_at(fs, "input_tokens"@, 0);
    crate::json::lemma_find_field_at(fs, "output_tokens"@, 1);
    crate::json::lemma_find_field_at(fs, "cache_read_input_tokens"@, 2);
    crate::json::lemma_find_field_at(fs, "cache_creation_input_tokens"@, 3);
    let cached = u.cache_read_tokens + u.cache_write_tokens;
    assert((u.input_tokens - cached) as u64 as u32 == u.input_tokens - cached);
    assert(u.cache_read_tokens as u64 as u32 == u.cache_read_tokens);
    assert(u.cache_write_tokens as u64 as u32 == u.cache_write_tokens);
    assert(u.output_tokens as u64 as u32 == u.output_tokens);
}

} // verus!
