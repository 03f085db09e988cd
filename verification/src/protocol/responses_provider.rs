//! OpenAI Responses as the upstream: a core request into a Responses request
//! (instructions, input items, tools), and a Responses response object back
//! into a core response.
use vstd::prelude::*;
use crate::json::{fields_view, find_field, items_view, json_text, json_to_string, json_view, lemma_fields_view, lemma_items_view, lookup, with_field, with_member, Json, JsonNum, JsonV};
use crate::protocol::adapters::{OpenAiResponsesAdapter, ProviderEndpoint, UpstreamRequest};
use crate::protocol::chat_stream::{jfield, jobject};
use crate::protocol::context::ReqCtx;
use crate::protocol::ir::message_view;
use crate::protocol::google::{last_name, last_name_of, names_view, push_texts, strip_trailing_slashes, system_message_texts, system_texts, text_blocks, trim_end_slashes};
use crate::protocol::ir::{block_view, blocks_view, lemma_blocks_view, tool_choice_view, tool_view, BlockV, ContentBlock, CoreRequest, DocSource, Message, Role, Tool, ToolChoice, ToolChoiceV, ToolV};
use crate::protocol::reasoning::{effort_of, reasoning_effort};
use crate::protocol::responses::{responses_usage, usage_from_value, RESPONSES_PATH};
use crate::protocol::responses_client::{array_texts, content_blocks, empty_obj, parse_content_items, parsed_or, reasoning_text, texts_of};
use crate::protocol::chat::{str_field, str_or_empty};
use crate::protocol::ir::{CoreResponse, StopReason, Usage};
use crate::protocol::signature::{tag_signature, tag_spec};
use crate::json::parse_json;
use crate::protocol::signature::{untag_signature, untag_spec, SIG_OPENAI};
use crate::text::{concat_str, has_suffix, join_seq, join_strings, str_ends_with, str_eq};

verus! {

/// The text part type of a role: assistant history carries `output_text`,
/// every other role `input_text`.
pub open spec fn text_type(role: Role) -> Seq<char> {
    if role == Role::Assistant {
        "output_text"@
    } else {
        "input_text"@
    }
}

/// The role of an input message: `assistant` for the assistant, `user` for
/// every other role.
pub open spec fn role_name(role: Role) -> Seq<char> {
    if role == Role::Assistant {
        "assistant"@
    } else {
        "user"@
    }
}

/// A text part of type `ty`.
pub open spec fn typed_text(ty: Seq<char>, t: Seq<char>) -> JsonV {
    JsonV::Object(seq![("type"@, JsonV::Str(ty)), ("text"@, JsonV::Str(t))])
}

/// A `data:` URL of base64 data.
pub open spec fn data_url(mt: Seq<char>, data: Seq<char>) -> Seq<char> {
    "data:"@ + mt + ";base64,"@ + data
}

/// The URL of an image: the data itself when it is a URL, else a `data:` URL.
pub open spec fn image_url(data: Seq<char>, mt: Seq<char>) -> Seq<char> {
    if mt == "url"@ {
        data
    } else {
        data_url(mt, data)
    }
}

/// An `input_image` part.
pub open spec fn image_part(data: Seq<char>, mt: Seq<char>) -> JsonV {
    JsonV::Object(seq![("type"@, JsonV::Str("input_image"@)), ("image_url"@, JsonV::Str(image_url(data, mt)))])
}

/// An `input_file` part: a platform file by id, a URL by URL, anything else
/// as a `data:` URL; with the file name when there is one.
pub open spec fn input_file(source: DocSource, mt: Seq<char>, data: Seq<char>, name: Option<Seq<char>>) -> JsonV {
    JsonV::Object(
        seq![
            ("type"@, JsonV::Str("input_file"@)),
            match source {
                DocSource::File => ("file_id"@, JsonV::Str(data)),
                DocSource::Url => ("file_url"@, JsonV::Str(data)),
                _ => ("file_data"@, JsonV::Str(data_url(mt, data))),
            },
        ] + match name {
            Some(n) => seq![("filename"@, JsonV::Str(n))],
            None => Seq::empty(),
        },
    )
}

/// The content part of a text, image or document block, with text parts of
/// type `ty` (a text document is a text part); other blocks have none.
pub open spec fn content_part(b: BlockV, ty: Seq<char>) -> Option<JsonV> {
    match b {
        BlockV::Text { text } => Some(typed_text(ty, text)),
        BlockV::Image { data, media_type } => Some(image_part(data, media_type)),
        BlockV::Document { source, media_type, data, name } => if source == DocSource::Text {
            Some(typed_text(ty, data))
        } else {
            Some(input_file(source, media_type, data, name))
        },
        _ => None,
    }
}

pub open spec fn opt_item(o: Option<JsonV>) -> Seq<JsonV> {
    match o {
        Some(v) => seq![v],
        None => Seq::empty(),
    }
}

/// The parts of a tool result's content, as `input_*` parts, in order.
pub open spec fn output_parts(bs: Seq<BlockV>) -> Seq<JsonV>
    decreases bs.len(),
{
    if bs.len() == 0 {
        Seq::empty()
    } else {
        output_parts(bs.drop_last()) + opt_item(content_part(bs.last(), "input_text"@))
    }
}

pub open spec fn is_media(b: BlockV) -> bool {
    b is Image || b is Document
}

/// Whether some block is an image or a document.
pub open spec fn has_media(bs: Seq<BlockV>) -> bool {
    exists|i: int| 0 <= i < bs.len() && #[trigger] is_media(bs[i])
}

/// The texts of the text blocks, one per line.
pub open spec fn joined_text(bs: Seq<BlockV>) -> Seq<char> {
    join_seq(text_blocks(bs), "\n"@)
}

/// The `output` of a tool result: its text when it holds no media, else the
/// array of its parts (media stay inside the result).
pub open spec fn result_output(bs: Seq<BlockV>) -> JsonV {
    if has_media(bs) {
        JsonV::Array(output_parts(bs))
    } else {
        JsonV::Str(joined_text(bs))
    }
}

/// The item type of a tool call: its namespace when that names a call item
/// type (ends in `_call`), else `function_call`.
pub open spec fn call_type(ns: Option<Seq<char>>) -> Seq<char> {
    match ns {
        Some(n) => if has_suffix(n, "_call"@) {
            n
        } else {
            "function_call"@
        },
        None => "function_call"@,
    }
}

/// Call item types that carry only their id.
pub open spec fn is_server_call(ty: Seq<char>) -> bool {
    ty == "web_search_call"@ || ty == "file_search_call"@ || ty == "image_generation_call"@ || ty
        == "code_interpreter_call"@
}

/// The input item of a tool call; the id and argument members depend on the
/// item type.
pub open spec fn call_item(id: Seq<char>, name: Seq<char>, ns: Option<Seq<char>>, input: JsonV) -> JsonV {
    let ty = call_type(ns);
    JsonV::Object(
        seq![("type"@, JsonV::Str(ty))] + if ty == "custom_tool_call"@ {
            seq![
                ("call_id"@, JsonV::Str(id)),
                ("name"@, JsonV::Str(name)),
                ("input"@, JsonV::Str(json_text(input))),
            ]
        } else if ty == "mcp_call"@ {
            seq![
                ("id"@, JsonV::Str(id)),
                ("name"@, JsonV::Str(name)),
                ("arguments"@, JsonV::Str(json_text(input))),
            ]
        } else if ty == "computer_call"@ || ty == "local_shell_call"@ {
            seq![("call_id"@, JsonV::Str(id)), ("action"@, input)]
        } else if is_server_call(ty) {
            seq![("id"@, JsonV::Str(id))]
        } else {
            seq![
                ("call_id"@, JsonV::Str(id)),
                ("name"@, JsonV::Str(name)),
                ("arguments"@, JsonV::Str(json_text(input))),
            ]
        },
    )
}

/// The item type of a tool result: `<type>_output` of the call item type its
/// tool use came in as, else `function_call_output`.
pub open spec fn output_type(nss: Seq<(Seq<char>, Seq<char>)>, id: Seq<char>) -> Seq<char> {
    match last_name(nss, id) {
        Some(n) => if has_suffix(n, "_call"@) {
            n + "_output"@
        } else {
            "function_call_output"@
        },
        None => "function_call_output"@,
    }
}

/// The input item of a tool result.
pub open spec fn output_item(nss: Seq<(Seq<char>, Seq<char>)>, id: Seq<char>, content: Seq<BlockV>) -> JsonV {
    JsonV::Object(
        seq![
            ("type"@, JsonV::Str(output_type(nss, id))),
            ("call_id"@, JsonV::Str(id)),
            ("output"@, result_output(content)),
        ],
    )
}

/// A reasoning item that hands the encrypted reasoning back.
pub open spec fn reasoning_item(enc: Seq<char>) -> JsonV {
    JsonV::Object(
        seq![
            ("type"@, JsonV::Str("reasoning"@)),
            ("summary"@, JsonV::Array(Seq::empty())),
            ("encrypted_content"@, JsonV::Str(enc)),
        ],
    )
}

/// A message item.
pub open spec fn input_message(role: Seq<char>, parts: Seq<JsonV>) -> JsonV {
    JsonV::Object(
        seq![("type"@, JsonV::Str("message"@)), ("role"@, JsonV::Str(role)), ("content"@, JsonV::Array(parts))],
    )
}

/// The items so far, and the parts of the message being gathered.
pub type InputState = (Seq<JsonV>, Seq<JsonV>);

/// The items with the gathered parts placed as one message item, when there
/// are any.
pub open spec fn flushed(st: InputState, role: Role) -> Seq<JsonV> {
    if st.1.len() > 0 {
        st.0.push(input_message(role_name(role), st.1))
    } else {
        st.0
    }
}

/// One block of a message of `role`: text, images and documents gather as
/// parts; a tool call, a tool result or a reasoning credential of OpenAI
/// origin closes the gathered parts and becomes an item of its own; reasoning
/// without such a credential is left out.
pub open spec fn input_step(st: InputState, b: BlockV, role: Role, nss: Seq<(Seq<char>, Seq<char>)>) -> InputState {
    match b {
        BlockV::ToolUse { id, name, namespace, input, signature: _ } => (
            flushed(st, role).push(call_item(id, name, namespace, input)),
            Seq::empty(),
        ),
        BlockV::ToolResult { tool_use_id, content, is_error: _ } => (
            flushed(st, role).push(output_item(nss, tool_use_id, content)),
            Seq::empty(),
        ),
        BlockV::Reasoning { text: _, signature, redacted: _ } => match untag_spec(SIG_OPENAI@, signature) {
            Some(enc) => (flushed(st, role).push(reasoning_item(enc)), Seq::empty()),
            None => st,
        },
        _ => (st.0, st.1 + opt_item(content_part(b, text_type(role)))),
    }
}

/// The blocks of a message, one after another from nothing.
pub open spec fn input_run(bs: Seq<BlockV>, role: Role, nss: Seq<(Seq<char>, Seq<char>)>) -> InputState
    decreases bs.len(),
{
    if bs.len() == 0 {
        (Seq::empty(), Seq::empty())
    } else {
        input_step(input_run(bs.drop_last(), role, nss), bs.last(), role, nss)
    }
}

/// The input items of one message.
pub open spec fn message_input(role: Role, bs: Seq<BlockV>, nss: Seq<(Seq<char>, Seq<char>)>) -> Seq<JsonV> {
    flushed(input_run(bs, role, nss), role)
}

/// The (id, namespace) of each tool use with a namespace, in order.
pub open spec fn namespaces(bs: Seq<BlockV>) -> Seq<(Seq<char>, Seq<char>)>
    decreases bs.len(),
{
    if bs.len() == 0 {
        Seq::empty()
    } else {
        namespaces(bs.drop_last()) + match bs.last() {
            BlockV::ToolUse { id, namespace: Some(ns), .. } => seq![(id, ns)],
            _ => Seq::empty(),
        }
    }
}

/// The (id, namespace) of the tool uses of all messages, in order.
pub open spec fn all_namespaces(ms: Seq<(Role, Seq<BlockV>)>) -> Seq<(Seq<char>, Seq<char>)>
    decreases ms.len(),
{
    if ms.len() == 0 {
        Seq::empty()
    } else {
        all_namespaces(ms.drop_last()) + namespaces(ms.last().1)
    }
}

/// The input items of messages; system messages go to the instructions and
/// are left out here.
pub open spec fn input_items(ms: Seq<(Role, Seq<BlockV>)>, nss: Seq<(Seq<char>, Seq<char>)>) -> Seq<JsonV>
    decreases ms.len(),
{
    if ms.len() == 0 {
        Seq::empty()
    } else {
        input_items(ms.drop_last(), nss) + if ms.last().0 == Role::System {
            Seq::empty()
        } else {
            message_input(ms.last().0, ms.last().1, nss)
        }
    }
}

/// The Responses `input` of core messages: a tool result's item type follows
/// the namespace of the last tool use with its id.
pub open spec fn responses_input(ms: Seq<(Role, Seq<BlockV>)>) -> Seq<JsonV> {
    input_items(ms, all_namespaces(ms))
}

/// The instructions: every system text, of the top-level system and of
/// system messages, with a blank line between each two; none without any.
pub open spec fn instructions(system: Seq<BlockV>, ms: Seq<(Role, Seq<BlockV>)>) -> Option<Seq<char>> {
    let ts = text_blocks(system) + system_message_texts(ms);
    if ts.len() == 0 {
        None
    } else {
        Some(join_seq(ts, "\n\n"@))
    }
}

/// A Responses tool: a flat function with name and parameters, and the
/// description when there is one.
pub open spec fn responses_tool(t: ToolV) -> JsonV {
    JsonV::Object(
        seq![
            ("type"@, JsonV::Str("function"@)),
            ("name"@, JsonV::Str(t.name)),
            ("parameters"@, t.input_schema),
        ] + match t.description {
            Some(d) => seq![("description"@, JsonV::Str(d))],
            None => Seq::empty(),
        },
    )
}

/// A Responses `tool_choice`.
pub open spec fn tool_choice_value(t: ToolChoiceV) -> JsonV {
    match t {
        ToolChoiceV::Auto => JsonV::Str("auto"@),
        ToolChoiceV::NoTools => JsonV::Str("none"@),
        ToolChoiceV::Required => JsonV::Str("required"@),
        ToolChoiceV::Tool { name } => JsonV::Object(
            seq![("type"@, JsonV::Str("function"@)), ("name"@, JsonV::Str(name))],
        ),
    }
}

/// The reasoning summary setting a request carries.
pub open spec fn summary_of(req: CoreRequest) -> Option<JsonV> {
    match req.reasoning {
        Some(r) => match r.summary {
            Some(s) => Some(s@),
            None => None,
        },
        None => None,
    }
}

/// The `reasoning` object: the effort, and the summary setting (`auto` when
/// the request sets none, so that readable reasoning comes back).
pub open spec fn reasoning_value(effort: Seq<char>, summary: Option<JsonV>) -> JsonV {
    JsonV::Object(
        seq![
            ("effort"@, JsonV::Str(effort)),
            ("summary"@, match summary {
                Some(s) => s,
                None => JsonV::Str("auto"@),
            }),
        ],
    )
}

/// The `include` list of a body: the one it has (when an array), with
/// `reasoning.encrypted_content` added unless present.
pub open spec fn include_list(body: JsonV) -> Seq<JsonV> {
    let inc = match body.field("include"@) {
        Some(JsonV::Array(a)) => a,
        _ => Seq::empty(),
    };
    if inc.contains(JsonV::Str("reasoning.encrypted_content"@)) {
        inc
    } else {
        inc.push(JsonV::Str("reasoning.encrypted_content"@))
    }
}

/// The unparsed Responses fields a request carries along (its
/// `responses.extra` metadata, when an object), else an empty object.
pub open spec fn extra_base(meta: Seq<(Seq<char>, JsonV)>) -> JsonV {
    match find_field(meta, "responses.extra"@) {
        Some(JsonV::Object(fs)) => JsonV::Object(fs),
        _ => JsonV::Object(Seq::empty()),
    }
}

pub open spec fn opt_with(obj: JsonV, key: Seq<char>, v: Option<JsonV>) -> JsonV {
    match v {
        Some(x) => with_field(obj, key, x),
        None => obj,
    }
}

/// The body of the Responses request for a core request: the carried-along
/// fields, then (each replacing a field of the same name) `model`, `input`,
/// `stream`, `max_output_tokens` when set, `include`, `instructions` when
/// there are any, `tools` when there are any, `tool_choice`, `temperature`
/// and `top_p` when set, and `reasoning` when an effort is asked for.
pub open spec fn responses_body(req: CoreRequest) -> JsonV {
    let ms = req.messages@.map_values(|m: Message| message_view(m));
    let b0 = extra_base(fields_view(req.meta@));
    let b1 = with_field(b0, "model"@, JsonV::Str(req.model@));
    let b2 = with_field(b1, "input"@, JsonV::Array(responses_input(ms)));
    let b3 = with_field(b2, "stream"@, JsonV::Bool(req.stream));
    let b4 = opt_with(b3, "max_output_tokens"@, match req.max_tokens {
        Some(mt) => Some(JsonV::PosInt(mt as u64)),
        None => None,
    });
    let b5 = with_field(b4, "include"@, JsonV::Array(include_list(b4)));
    let b6 = opt_with(b5, "instructions"@, match instructions(blocks_view(req.system@), ms) {
        Some(s) => Some(JsonV::Str(s)),
        None => None,
    });
    let b7 = if req.tools@.len() > 0 {
        with_field(
            b6,
            "tools"@,
            JsonV::Array(req.tools@.map_values(|t: Tool| responses_tool(tool_view(t)))),
        )
    } else {
        b6
    };
    let b8 = opt_with(b7, "tool_choice"@, match req.tool_choice {
        Some(tc) => Some(tool_choice_value(tool_choice_view(tc))),
        None => None,
    });
    let b9 = opt_with(b8, "temperature"@, match req.temperature {
        Some(t) => Some(json_view(Json::Num(t))),
        None => None,
    });
    let b10 = opt_with(b9, "top_p"@, match req.top_p {
        Some(p) => Some(json_view(Json::Num(p))),
        None => None,
    });
    opt_with(b10, "reasoning"@, match effort_of(req) {
        Some(e) => Some(reasoning_value(e, summary_of(req))),
        None => None,
    })
}

/// The request headers: JSON content, bearer authorization, and the user
/// agent when configured.
pub open spec fn responses_headers(api_key: Seq<char>, user_agent: Option<Seq<char>>) -> Seq<(Seq<char>, Seq<char>)> {
    seq![("content-type"@, "application/json"@), ("authorization"@, "Bearer "@ + api_key)] + match user_agent {
        Some(ua) => seq![("user-agent"@, ua)],
        None => Seq::empty(),
    }
}

} // verus!

verus! {

fn str_json(s: &str) -> (r: Json)
    ensures
        r@ == JsonV::Str(s@),
{
    Json::Str(s.to_string())
}

fn obj2(k1: &str, v1: Json, k2: &str, v2: Json) -> (r: Json)
    ensures
        r@ == JsonV::Object(seq![(k1@, v1@), (k2@, v2@)]),
{
    let mut fs: Vec<(String, Json)> = Vec::new();
    fs.push(jfield(k1, v1));
    fs.push(jfield(k2, v2));
    proof {
        lemma_fields_view(fs@);
        assert(fields_view(fs@) =~= seq![(k1@, v1@), (k2@, v2@)]);
    }
    jobject(fs)
}

fn obj3(k1: &str, v1: Json, k2: &str, v2: Json, k3: &str, v3: Json) -> (r: Json)
    ensures
        r@ == JsonV::Object(seq![(k1@, v1@), (k2@, v2@), (k3@, v3@)]),
{
    let mut fs: Vec<(String, Json)> = Vec::new();
    fs.push(jfield(k1, v1));
    fs.push(jfield(k2, v2));
    fs.push(jfield(k3, v3));
    proof {
        lemma_fields_view(fs@);
        assert(fields_view(fs@) =~= seq![(k1@, v1@), (k2@, v2@), (k3@, v3@)]);
    }
    jobject(fs)
}

fn obj4(k1: &str, v1: Json, k2: &str, v2: Json, k3: &str, v3: Json, k4: &str, v4: Json) -> (r: Json)
    ensures
        r@ == JsonV::Object(seq![(k1@, v1@), (k2@, v2@), (k3@, v3@), (k4@, v4@)]),
{
    let mut fs: Vec<(String, Json)> = Vec::new();
    fs.push(jfield(k1, v1));
    fs.push(jfield(k2, v2));
    fs.push(jfield(k3, v3));
    fs.push(jfield(k4, v4));
    proof {
        lemma_fields_view(fs@);
        assert(fields_view(fs@) =~= seq![(k1@, v1@), (k2@, v2@), (k3@, v3@), (k4@, v4@)]);
    }
    jobject(fs)
}

fn data_url_of(mt: &str, data: &str) -> (r: String)
    ensures
        r@ == data_url(mt@, data@),
{
    let a = concat_str("data:", mt);
    let b = concat_str(a.as_str(), ";base64,");
    concat_str(b.as_str(), data)
}

fn image_part_json(data: &String, mt: &String) -> (r: Json)
    ensures
        r@ == image_part(data@, mt@),
{
    let url = if str_eq(mt.as_str(), "url") {
        data.clone()
    } else {
        data_url_of(mt.as_str(), data.as_str())
    };
    obj2("type", str_json("input_image"), "image_url", Json::Str(url))
}

fn doc_to_input_file(source: DocSource, mt: &String, data: &String, name: &Option<String>) -> (r: Json)
    ensures
        r@ == input_file(source, mt@, data@, crate::protocol::ir::opt_view(*name)),
{
    let mut fs: Vec<(String, Json)> = Vec::new();
    fs.push(jfield("type", str_json("input_file")));
    match source {
        DocSource::File => fs.push(jfield("file_id", Json::Str(data.clone()))),
        DocSource::Url => fs.push(jfield("file_url", Json::Str(data.clone()))),
        _ => fs.push(jfield("file_data", Json::Str(data_url_of(mt.as_str(), data.as_str())))),
    }
    if let Some(n) = name {
        fs.push(jfield("filename", Json::Str(n.clone())));
    }
    proof {
        lemma_fields_view(fs@);
        assert(fields_view(fs@) =~= input_file(source, mt@, data@, crate::protocol::ir::opt_view(*name))->Object_0);
    }
    jobject(fs)
}

/// The content part of a text, image or document block (see [`content_part`]).
fn content_part_json(b: &ContentBlock, ty: &str) -> (r: Option<Json>)
    ensures
        match r {
            Some(v) => content_part(block_view(*b), ty@) == Some(v@),
            None => content_part(block_view(*b), ty@) is None,
        },
{
    match b {
        ContentBlock::Text { text } => Some(obj2("type", str_json(ty), "text", Json::Str(text.clone()))),
        ContentBlock::Image { data, media_type } => Some(image_part_json(data, media_type)),
        ContentBlock::Document { source, media_type, data, name } => {
            if *source == DocSource::Text {
                Some(obj2("type", str_json(ty), "text", Json::Str(data.clone())))
            } else {
                Some(doc_to_input_file(*source, media_type, data, name))
            }
        },
        _ => None,
    }
}

fn push_item(items: &mut Vec<Json>, v: Json)
    ensures
        items_view(final(items)@) == items_view(old(items)@).push(v@),
{
    proof {
        lemma_items_view(items@);
    }
    let ghost before = items_view(items@);
    items.push(v);
    proof {
        lemma_items_view(items@);
        assert(items_view(items@) =~= before.push(v@));
    }
}

/// The output of a tool result (see [`result_output`]).
fn result_output_json(content: &Vec<ContentBlock>) -> (r: Json)
    ensures
        r@ == result_output(blocks_view(content@)),
{
    proof {
        lemma_blocks_view(content@);
    }
    let ghost bv = blocks_view(content@);
    let mut parts: Vec<Json> = Vec::new();
    let mut media = false;
    let mut texts: Vec<String> = Vec::new();
    proof {
        assert(items_view(parts@) =~= Seq::<JsonV>::empty());
        assert(texts@.map_values(|s: String| s@) =~= Seq::<Seq<char>>::empty());
    }
    push_texts(&mut texts, content);
    let mut i: usize = 0;
    while i < content.len()
        invariant
            i <= content@.len() == bv.len(),
            bv == blocks_view(content@),
            forall|k: int| 0 <= k < content@.len() ==> #[trigger] bv[k] == block_view(content@[k]),
            items_view(parts@) == output_parts(bv.take(i as int)),
            media == (exists|k: int| 0 <= k < i && #[trigger] is_media(bv[k])),
        decreases content@.len() - i,
    {
        proof {
            assert(bv.take(i + 1).drop_last() == bv.take(i as int));
            assert(bv.take(i + 1).last() == bv[i as int]);
        }
        let b = &content[i];
        let is_m = matches!(b, ContentBlock::Image { .. }) || matches!(b, ContentBlock::Document { .. });
        proof {
            assert(is_m == is_media(bv[i as int]));
        }
        if is_m {
            media = true;
        }
        proof {
            if is_m {
                assert(is_media(bv[i as int]));
            } else if !media {
                assert forall|k: int| 0 <= k < i + 1 implies !#[trigger] is_media(bv[k]) by {
                    if k < i {
                        assert(!(exists|q: int| 0 <= q < i && #[trigger] is_media(bv[q])) ==> !is_media(bv[k]));
                    }
                }
            }
        }
        match content_part_json(b, "input_text") {
            Some(v) => push_item(&mut parts, v),
            None => {
                proof {
                    assert(items_view(parts@) + Seq::<JsonV>::empty() == items_view(parts@));
                }
            },
        }
        i = i + 1;
    }
    proof {
        assert(bv.take(bv.len() as int) == bv);
    }
    if media {
        Json::Array(parts)
    } else {
        Json::Str(join_strings(&texts, "\n"))
    }
}

/// The input item of a tool call (see [`call_item`]).
fn call_item_json(id: &String, name: &String, ns: &Option<String>, input: &Json) -> (r: Json)
    ensures
        r@ == call_item(id@, name@, crate::protocol::ir::opt_view(*ns), input@),
{
    let ty: String = match ns {
        Some(n) => if str_ends_with(n.as_str(), "_call") {
            n.clone()
        } else {
            "function_call".to_string()
        },
        None => "function_call".to_string(),
    };
    let ghost nsv = crate::protocol::ir::opt_view(*ns);
    assert(ty@ == call_type(nsv));
    let t = ty.as_str();
    let tyv = Json::Str(ty.clone());
    let ghost head = seq![("type"@, JsonV::Str(ty@))];
    if str_eq(t, "custom_tool_call") {
        let r = obj4("type", tyv, "call_id", Json::Str(id.clone()), "name", Json::Str(name.clone()), "input", Json::Str(json_to_string(input)));
        proof {
            assert(call_item(id@, name@, nsv, input@)->Object_0 =~= r@->Object_0);
        }
        r
    } else if str_eq(t, "mcp_call") {
        let r = obj4("type", tyv, "id", Json::Str(id.clone()), "name", Json::Str(name.clone()), "arguments", Json::Str(json_to_string(input)));
        proof {
            assert(call_item(id@, name@, nsv, input@)->Object_0 =~= r@->Object_0);
        }
        r
    } else if str_eq(t, "computer_call") || str_eq(t, "local_shell_call") {
        let r = obj3("type", tyv, "call_id", Json::Str(id.clone()), "action", input.deep_clone());
        proof {
            assert(call_item(id@, name@, nsv, input@)->Object_0 =~= r@->Object_0);
        }
        r
    } else if str_eq(t, "web_search_call") || str_eq(t, "file_search_call") || str_eq(t, "image_generation_call")
        || str_eq(t, "code_interpreter_call") {
        let r = obj2("type", tyv, "id", Json::Str(id.clone()));
        proof {
            assert(call_item(id@, name@, nsv, input@)->Object_0 =~= r@->Object_0);
        }
        r
    } else {
        let r = obj4("type", tyv, "call_id", Json::Str(id.clone()), "name", Json::Str(name.clone()), "arguments", Json::Str(json_to_string(input)));
        proof {
            assert(call_item(id@, name@, nsv, input@)->Object_0 =~= r@->Object_0);
        }
        r
    }
}

/// The input item of a tool result (see [`output_item`]).
fn output_item_json(nss: &Vec<(String, String)>, id: &String, content: &Vec<ContentBlock>) -> (r: Json)
    ensures
        r@ == output_item(names_view(nss@), id@, blocks_view(content@)),
{
    let ty: String = match last_name_of(nss, id.as_str()) {
        Some(n) => if str_ends_with(n.as_str(), "_call") {
            concat_str(n.as_str(), "_output")
        } else {
            "function_call_output".to_string()
        },
        None => "function_call_output".to_string(),
    };
    obj3("type", Json::Str(ty), "call_id", Json::Str(id.clone()), "output", result_output_json(content))
}

/// Places the gathered parts as one message item (see [`flushed`]).
fn flush_parts(items: &mut Vec<Json>, parts: &mut Vec<Json>, role: Role)
    ensures
        items_view(final(items)@) == flushed((items_view(old(items)@), items_view(old(parts)@)), role),
        items_view(final(parts)@) == Seq::<JsonV>::empty(),
{
    proof {
        lemma_items_view(parts@);
    }
    if parts.len() > 0 {
        let mut taken: Vec<Json> = Vec::new();
        std::mem::swap(&mut taken, parts);
        let r = if role == Role::Assistant {
            "assistant"
        } else {
            "user"
        };
        let m = obj3("type", str_json("message"), "role", str_json(r), "content", Json::Array(taken));
        push_item(items, m);
    }
    proof {
        lemma_items_view(parts@);
        assert(items_view(parts@) =~= Seq::<JsonV>::empty());
    }
}

/// The input items of one message (see [`message_input`]).
fn message_items(m: &Message, nss: &Vec<(String, String)>) -> (r: Vec<Json>)
    ensures
        items_view(r@) == message_input(m.role, blocks_view(m.content@), names_view(nss@)),
{
    proof {
        lemma_blocks_view(m.content@);
    }
    let ghost bv = blocks_view(m.content@);
    let ghost nv = names_view(nss@);
    let role = m.role;
    let ty = if role == Role::Assistant {
        "output_text"
    } else {
        "input_text"
    };
    let mut items: Vec<Json> = Vec::new();
    let mut parts: Vec<Json> = Vec::new();
    proof {
        assert(items_view(items@) =~= Seq::<JsonV>::empty());
        assert(items_view(parts@) =~= Seq::<JsonV>::empty());
    }
    let mut i: usize = 0;
    while i < m.content.len()
        invariant
            i <= m.content@.len() == bv.len(),
            bv == blocks_view(m.content@),
            nv == names_view(nss@),
            role == m.role,
            ty@ == text_type(role),
            forall|k: int| 0 <= k < m.content@.len() ==> #[trigger] bv[k] == block_view(m.content@[k]),
            (items_view(items@), items_view(parts@)) == input_run(bv.take(i as int), role, nv),
        decreases m.content@.len() - i,
    {
        proof {
            assert(bv.take(i + 1).drop_last() == bv.take(i as int));
            assert(bv.take(i + 1).last() == bv[i as int]);
        }
        let b = &m.content[i];
        match b {
            ContentBlock::ToolUse { id, name, namespace, input, .. } => {
                flush_parts(&mut items, &mut parts, role);
                push_item(&mut items, call_item_json(id, name, namespace, input));
            },
            ContentBlock::ToolResult { tool_use_id, content, .. } => {
                flush_parts(&mut items, &mut parts, role);
                push_item(&mut items, output_item_json(nss, tool_use_id, content));
            },
            ContentBlock::Reasoning { signature, .. } => {
                let sig = match signature {
                    Some(s) => Some(s.as_str()),
                    None => None,
                };
                match untag_signature(SIG_OPENAI, sig) {
                    Some(enc) => {
                        flush_parts(&mut items, &mut parts, role);
                        let empty: Vec<Json> = Vec::new();
                        proof {
                            assert(items_view(empty@) =~= Seq::<JsonV>::empty());
                        }
                        push_item(
                            &mut items,
                            obj3("type", str_json("reasoning"), "summary", Json::Array(empty), "encrypted_content", Json::Str(enc)),
                        );
                    },
                    None => {},
                }
            },
            _ => {
                match content_part_json(b, ty) {
                    Some(v) => push_item(&mut parts, v),
                    None => {},
                }
            },
        }
        i = i + 1;
    }
    proof {
        assert(bv.take(bv.len() as int) == bv);
    }
    flush_parts(&mut items, &mut parts, role);
    items
}

/// The (id, namespace) of every tool use with a namespace, over all messages.
fn collect_namespaces(messages: &Vec<Message>) -> (r: Vec<(String, String)>)
    ensures
        names_view(r@) == all_namespaces(messages@.map_values(|m: Message| message_view(m))),
{
    let ghost mv = messages@.map_values(|m: Message| message_view(m));
    let mut names: Vec<(String, String)> = Vec::new();
    proof {
        assert(names_view(names@) =~= Seq::<(Seq<char>, Seq<char>)>::empty());
    }
    let mut i: usize = 0;
    while i < messages.len()
        invariant
            i <= messages@.len() == mv.len(),
            mv == messages@.map_values(|m: Message| message_view(m)),
            names_view(names@) == all_namespaces(mv.take(i as int)),
        decreases messages@.len() - i,
    {
        proof {
            assert(mv.take(i + 1).drop_last() == mv.take(i as int));
            assert(mv.take(i + 1).last() == message_view(messages@[i as int]));
            lemma_blocks_view(messages@[i as int].content@);
        }
        let content = &messages[i].content;
        let ghost bv = blocks_view(content@);
        let ghost start = names_view(names@);
        let mut j: usize = 0;
        while j < content.len()
            invariant
                j <= content@.len() == bv.len(),
                bv == blocks_view(content@),
                forall|k: int| 0 <= k < content@.len() ==> #[trigger] bv[k] == block_view(content@[k]),
                names_view(names@) == start + namespaces(bv.take(j as int)),
            decreases content@.len() - j,
        {
            proof {
                assert(bv.take(j + 1).drop_last() == bv.take(j as int));
                assert(bv.take(j + 1).last() == bv[j as int]);
            }
            let ghost before = names@;
            if let ContentBlock::ToolUse { id, namespace: Some(ns), .. } = &content[j] {
                names.push((id.clone(), ns.clone()));
                proof {
                    assert(names_view(names@) =~= names_view(before).push((id@, ns@)));
                }
            } else {
                proof {
                    assert(names_view(names@) + Seq::<(Seq<char>, Seq<char>)>::empty() == names_view(names@));
                }
            }
            j = j + 1;
        }
        proof {
            assert(bv.take(bv.len() as int) == bv);
        }
        i = i + 1;
    }
    proof {
        assert(mv.take(mv.len() as int) == mv);
    }
    names
}

/// Core messages → Responses `input` items (see [`responses_input`]).
pub fn build_input(messages: &Vec<Message>) -> (r: Vec<Json>)
    ensures
        items_view(r@) == responses_input(messages@.map_values(|m: Message| message_view(m))),
{
    let ghost mv = messages@.map_values(|m: Message| message_view(m));
    let nss = collect_namespaces(messages);
    let ghost nv = names_view(nss@);
    let mut out: Vec<Json> = Vec::new();
    proof {
        assert(items_view(out@) =~= Seq::<JsonV>::empty());
    }
    let mut i: usize = 0;
    while i < messages.len()
        invariant
            i <= messages@.len() == mv.len(),
            mv == messages@.map_values(|m: Message| message_view(m)),
            nv == names_view(nss@),
            nv == all_namespaces(mv),
            items_view(out@) == input_items(mv.take(i as int), nv),
        decreases messages@.len() - i,
    {
        proof {
            assert(mv.take(i + 1).drop_last() == mv.take(i as int));
            assert(mv.take(i + 1).last() == message_view(messages@[i as int]));
        }
        let m = &messages[i];
        if m.role != Role::System {
            let mut more = message_items(m, &nss);
            let ghost a = out@;
            let ghost b = more@;
            out.append(&mut more);
            proof {
                assert(out@ == a + b);
                lemma_items_view(a);
                lemma_items_view(b);
                lemma_items_view(out@);
                assert(items_view(out@) =~= items_view(a) + items_view(b));
            }
        } else {
            proof {
                assert(items_view(out@) + Seq::<JsonV>::empty() == items_view(out@));
            }
        }
        i = i + 1;
    }
    proof {
        assert(mv.take(mv.len() as int) == mv);
    }
    out
}

} // verus!

verus! {

/// The instructions of a request (see [`instructions`]).
pub fn build_instructions(req: &CoreRequest) -> (r: Option<String>)
    ensures
        match r {
            Some(s) => instructions(blocks_view(req.system@), req.messages@.map_values(|m: Message| message_view(m))) == Some(s@),
            None => instructions(blocks_view(req.system@), req.messages@.map_values(|m: Message| message_view(m))) is None,
        },
{
    let ts = system_texts(&req.system, req.messages.as_slice());
    if ts.len() == 0 {
        None
    } else {
        Some(join_strings(&ts, "\n\n"))
    }
}

fn responses_tool_json(t: &Tool) -> (r: Json)
    ensures
        r@ == responses_tool(tool_view(*t)),
{
    let mut fs: Vec<(String, Json)> = Vec::new();
    fs.push(jfield("type", str_json("function")));
    fs.push(jfield("name", Json::Str(t.name.clone())));
    fs.push(jfield("parameters", t.input_schema.deep_clone()));
    if let Some(d) = &t.description {
        fs.push(jfield("description", Json::Str(d.clone())));
    }
    proof {
        lemma_fields_view(fs@);
        assert(fields_view(fs@) =~= responses_tool(tool_view(*t))->Object_0);
    }
    jobject(fs)
}

/// Core tools → Responses tools (see [`responses_tool`]).
pub fn build_tools(tools: &Vec<Tool>) -> (r: Vec<Json>)
    ensures
        items_view(r@) == tools@.map_values(|t: Tool| responses_tool(tool_view(t))),
{
    let mut out: Vec<Json> = Vec::new();
    let mut i: usize = 0;
    while i < tools.len()
        invariant
            i <= tools@.len(),
            out@.len() == i,
            forall|k: int| 0 <= k < i ==> (#[trigger] out@[k])@ == responses_tool(tool_view(tools@[k])),
        decreases tools@.len() - i,
    {
        out.push(responses_tool_json(&tools[i]));
        i = i + 1;
    }
    proof {
        lemma_items_view(out@);
        assert(items_view(out@) =~= tools@.map_values(|t: Tool| responses_tool(tool_view(t))));
    }
    out
}

fn tool_choice_json(tc: &ToolChoice) -> (r: Json)
    ensures
        r@ == tool_choice_value(tool_choice_view(*tc)),
{
    match tc {
        ToolChoice::Auto => str_json("auto"),
        ToolChoice::NoTools => str_json("none"),
        ToolChoice::Required => str_json("required"),
        ToolChoice::Tool { name } => obj2("type", str_json("function"), "name", Json::Str(name.clone())),
    }
}

/// The include list of a body (see [`include_list`]).
fn include_json(body: &Json) -> (r: Json)
    ensures
        r@ == JsonV::Array(include_list(body@)),
{
    let mut inc: Vec<Json> = Vec::new();
    let mut found = false;
    let ghost given: Seq<JsonV> = match body@.field("include"@) {
        Some(JsonV::Array(a)) => a,
        _ => Seq::empty(),
    };
    proof {
        assert(items_view(inc@) =~= given.take(0));
    }
    match body.get("include") {
        Some(v) => match v.as_array() {
            Some(a) => {
                proof {
                    lemma_items_view(a@);
                }
                let mut i: usize = 0;
                while i < a.len()
                    invariant
                        i <= a@.len() == given.len(),
                        given == items_view(a@),
                        forall|k: int| 0 <= k < a@.len() ==> #[trigger] given[k] == json_view(a@[k]),
                        items_view(inc@) == given.take(i as int),
                        found == given.take(i as int).contains(JsonV::Str("reasoning.encrypted_content"@)),
                    decreases a@.len() - i,
                {
                    let x = a[i].deep_clone();
                    let hit = match x.as_str() {
                        Some(s) => str_eq(s, "reasoning.encrypted_content"),
                        None => false,
                    };
                    proof {
                        assert(given.take(i + 1) =~= given.take(i as int).push(x@));
                        assert(hit == (x@ == JsonV::Str("reasoning.encrypted_content"@)));
                        if hit {
                            assert(given.take(i + 1)[i as int] == x@);
                        }
                        if !hit && !found {
                            assert forall|k: int| 0 <= k < i + 1 implies #[trigger] given.take(i + 1)[k] != JsonV::Str("reasoning.encrypted_content"@) by {
                                if k < i {
                                    assert(given.take(i + 1)[k] == given.take(i as int)[k]);
                                }
                            }
                        }
                        if found {
                            let w = choose|k: int| 0 <= k < i && #[trigger] given.take(i as int)[k] == JsonV::Str("reasoning.encrypted_content"@);
                            assert(given.take(i + 1)[w] == given.take(i as int)[w]);
                        }
                    }
                    found = found || hit;
                    push_item(&mut inc, x);
                    i = i + 1;
                }
                proof {
                    assert(given.take(given.len() as int) == given);
                }
            },
            None => {},
        },
        None => {},
    }
    if !found {
        push_item(&mut inc, str_json("reasoning.encrypted_content"));
    }
    Json::Array(inc)
}

fn with_opt(obj: Json, key: &str, v: Option<Json>) -> (r: Json)
    ensures
        r@ == opt_with(obj@, key@, match v {
            Some(x) => Some(x@),
            None => None,
        }),
{
    match v {
        Some(x) => with_member(obj, key.to_string(), x),
        None => obj,
    }
}

/// The request body (see [`responses_body`]).
pub fn build_body(req: &CoreRequest) -> (r: Json)
    ensures
        r@ == responses_body(*req),
{
    proof {
        lemma_fields_view(req.meta@);
    }
    let b0 = match lookup(&req.meta, "responses.extra") {
        Some(v) => match v {
            Json::Object(_) => v.deep_clone(),
            _ => crate::json::empty_object(),
        },
        None => crate::json::empty_object(),
    };
    assert(b0@ == extra_base(fields_view(req.meta@)));
    let b1 = with_member(b0, "model".to_string(), Json::Str(req.model.clone()));
    let input = build_input(&req.messages);
    let b2 = with_member(b1, "input".to_string(), Json::Array(input));
    let b3 = with_member(b2, "stream".to_string(), Json::Bool(req.stream));
    let mt = match req.max_tokens {
        Some(m) => Some(Json::Num(JsonNum::PosInt(m as u64))),
        None => None,
    };
    let b4 = with_opt(b3, "max_output_tokens", mt);
    let inc = include_json(&b4);
    let b5 = with_member(b4, "include".to_string(), inc);
    let instr = match build_instructions(req) {
        Some(s) => Some(Json::Str(s)),
        None => None,
    };
    let b6 = with_opt(b5, "instructions", instr);
    let ghost ms = req.messages@.map_values(|m: Message| message_view(m));
    assert(b6@ == opt_with(b5@, "instructions"@, match instructions(blocks_view(req.system@), ms) {
        Some(s) => Some(JsonV::Str(s)),
        None => None,
    }));
    let b7 = if req.tools.len() > 0 {
        with_member(b6, "tools".to_string(), Json::Array(build_tools(&req.tools)))
    } else {
        b6
    };
    assert(b7@ == (if req.tools@.len() > 0 {
        with_field(b6@, "tools"@, JsonV::Array(req.tools@.map_values(|t: Tool| responses_tool(tool_view(t)))))
    } else {
        b6@
    }));
    let tc = match &req.tool_choice {
        Some(t) => Some(tool_choice_json(t)),
        None => None,
    };
    let b8 = with_opt(b7, "tool_choice", tc);
    let temp = match &req.temperature {
        Some(t) => Some(crate::protocol::google::num_json(t)),
        None => None,
    };
    let b9 = with_opt(b8, "temperature", temp);
    let top = match &req.top_p {
        Some(p) => Some(crate::protocol::google::num_json(p)),
        None => None,
    };
    let b10 = with_opt(b9, "top_p", top);
    assert(b10@ == opt_with(b9@, "top_p"@, match req.top_p {
        Some(p) => Some(json_view(Json::Num(p))),
        None => None,
    }));
    let rs = match reasoning_effort(req) {
        Some(e) => {
            let summary = match &req.reasoning {
                Some(r) => match &r.summary {
                    Some(s) => s.deep_clone(),
                    None => str_json("auto"),
                },
                None => str_json("auto"),
            };
            assert(summary@ == match summary_of(*req) {
                Some(x) => x,
                None => JsonV::Str("auto"@),
            });
            let ghost ev = e@;
            let ev_json = Json::Str(e);
            assert(ev_json@ == JsonV::Str(ev));
            let v = obj2("effort", ev_json, "summary", summary);
            assert(v@->Object_0 =~= reasoning_value(ev, summary_of(*req))->Object_0);
            Some(v)
        },
        None => None,
    };
    assert(match rs {
        Some(x) => Some(x@),
        None => None,
    } == match effort_of(*req) {
        Some(e) => Some(reasoning_value(e, summary_of(*req))),
        None => None,
    });
    let r = with_opt(b10, "reasoning", rs);
    assert(b2@ == with_field(b1@, "input"@, JsonV::Array(responses_input(ms))));
    assert(b4@ == opt_with(b3@, "max_output_tokens"@, match req.max_tokens {
        Some(mt) => Some(JsonV::PosInt(mt as u64)),
        None => None,
    }));
    assert(b9@ == opt_with(b8@, "temperature"@, match req.temperature {
        Some(t) => Some(json_view(Json::Num(t))),
        None => None,
    }));
    assert(b8@ == opt_with(b7@, "tool_choice"@, match req.tool_choice {
        Some(tc) => Some(tool_choice_value(tool_choice_view(tc))),
        None => None,
    }));
    r
}

impl OpenAiResponsesAdapter {
    /// Core request → Responses upstream request: `POST` to the base URL
    /// (trailing slashes dropped) followed by [`RESPONSES_PATH`], with the
    /// headers of [`responses_headers`] and the body of [`responses_body`].
    pub fn from_core_request(&self, _ctx: &ReqCtx, req: &CoreRequest, endpoint: &ProviderEndpoint) -> (r: UpstreamRequest)
        ensures
            r.method@ == "POST"@,
            r.url@ == strip_trailing_slashes(endpoint.base_url@) + RESPONSES_PATH@,
            r.headers@.map_values(|h: (String, String)| (h.0@, h.1@)) == responses_headers(
                endpoint.api_key@,
                crate::protocol::ir::opt_view(endpoint.user_agent),
            ),
            r.body@ == responses_body(*req),
            r.stream == req.stream,
    {
        let base = trim_end_slashes(endpoint.base_url.as_str());
        let url = concat_str(base.as_str(), RESPONSES_PATH);
        let mut headers: Vec<(String, String)> = Vec::new();
        headers.push(("content-type".to_string(), "application/json".to_string()));
        headers.push(("authorization".to_string(), concat_str("Bearer ", endpoint.api_key.as_str())));
        if let Some(ua) = &endpoint.user_agent {
            headers.push(("user-agent".to_string(), ua.clone()));
        }
        proof {
            assert(headers@.map_values(|h: (String, String)| (h.0@, h.1@)) =~= responses_headers(
                endpoint.api_key@,
                crate::protocol::ir::opt_view(endpoint.user_agent),
            ));
        }
        UpstreamRequest { method: "POST".to_string(), url, headers, body: build_body(req), stream: req.stream }
    }
}

} // verus!

verus! {

/// The arguments of a function call output item: its `arguments` text
/// parsed, else an empty object.
pub open spec fn function_args(item: JsonV) -> JsonV {
    match item.field_str("arguments"@) {
        Some(s) => parsed_or(s, empty_obj()),
        None => empty_obj(),
    }
}

/// The readable text of a reasoning output item: its summary and content
/// texts, else its `reasoning_text` (or, without that member, `reasoning`)
/// when a string.
pub open spec fn output_reasoning_text(item: JsonV) -> Seq<char> {
    if reasoning_text(item).len() > 0 {
        reasoning_text(item)
    } else {
        match item.field("reasoning_text"@) {
            Some(v) => match v.str_of() {
                Some(s) => s,
                None => Seq::empty(),
            },
            None => str_or_empty(item, "reasoning"@),
        }
    }
}

/// The core blocks of one output item: a message's content items, a function
/// call, or a reasoning item with text or a credential; anything else gives
/// none.
pub open spec fn output_item_blocks(item: JsonV) -> Seq<BlockV> {
    let ty = item.field_str("type"@);
    if ty == Some("message"@) {
        match item.field("content"@) {
            Some(JsonV::Array(ps)) => content_blocks(ps),
            _ => Seq::empty(),
        }
    } else if ty == Some("function_call"@) {
        seq![
            BlockV::ToolUse {
                id: str_or_empty(item, "call_id"@),
                name: str_or_empty(item, "name"@),
                namespace: None,
                input: function_args(item),
                signature: None,
            },
        ]
    } else if ty == Some("reasoning"@) {
        let text = output_reasoning_text(item);
        let sig = tag_spec(SIG_OPENAI@, item.field_str("encrypted_content"@));
        if text.len() > 0 || sig is Some {
            seq![BlockV::Reasoning { text, signature: sig, redacted: false }]
        } else {
            Seq::empty()
        }
    } else {
        Seq::empty()
    }
}

pub open spec fn output_items_blocks(items: Seq<JsonV>) -> Seq<BlockV>
    decreases items.len(),
{
    if items.len() == 0 {
        Seq::empty()
    } else {
        output_items_blocks(items.drop_last()) + output_item_blocks(items.last())
    }
}

/// The core content of a Responses response object.
pub open spec fn response_blocks(raw: JsonV) -> Seq<BlockV> {
    match raw.field("output"@) {
        Some(JsonV::Array(items)) => output_items_blocks(items),
        _ => Seq::empty(),
    }
}

/// Whether some block is a tool use.
pub open spec fn has_tool_use(bs: Seq<BlockV>) -> bool {
    exists|i: int| 0 <= i < bs.len() && #[trigger] bs[i] is ToolUse
}

/// The usage of a response object; zero without one.
pub open spec fn response_usage(raw: JsonV) -> Usage {
    match raw.field("usage"@) {
        Some(u) => responses_usage(u),
        None => Usage { input_tokens: 0, output_tokens: 0, cache_read_tokens: 0, cache_write_tokens: 0, reasoning_tokens: 0 },
    }
}

fn function_args_json(item: &Json) -> (r: Json)
    ensures
        r@ == function_args(item@),
{
    match item.get_str("arguments") {
        Some(s) => match parse_json(s) {
            Some(v) => v,
            None => crate::json::empty_object(),
        },
        None => crate::json::empty_object(),
    }
}

fn append_all(out: &mut Vec<ContentBlock>, more: Vec<ContentBlock>)
    ensures
        blocks_view(final(out)@) == blocks_view(old(out)@) + blocks_view(more@),
{
    let mut more = more;
    let ghost a = out@;
    let ghost b = more@;
    out.append(&mut more);
    proof {
        crate::protocol::ir::lemma_blocks_view_concat(a, b);
    }
}

/// The core blocks of one output item (see [`output_item_blocks`]).
fn output_item_to_blocks(item: &Json) -> (r: Vec<ContentBlock>)
    ensures
        blocks_view(r@) == output_item_blocks(item@),
{
    let mut out: Vec<ContentBlock> = Vec::new();
    proof {
        lemma_blocks_view(out@);
        assert(blocks_view(out@) =~= Seq::<BlockV>::empty());
    }
    let ty = item.get_str("type");
    let is = |t: &str| -> (b: bool)
        ensures
            b == (ty matches Some(x) && x@ == t@),
        {
            match ty {
                Some(x) => str_eq(x, t),
                None => false,
            }
        };
    if is("message") {
        match item.get("content") {
            Some(Json::Array(ps)) => {
                let bs = parse_content_items(ps);
                append_all(&mut out, bs);
            },
            _ => {},
        }
    } else if is("function_call") {
        let b = ContentBlock::ToolUse {
            id: str_field(item, "call_id"),
            name: str_field(item, "name"),
            namespace: None,
            input: function_args_json(item),
            signature: None,
        };
        proof {
            crate::protocol::ir::lemma_blocks_view_push(out@, b);
        }
        out.push(b);
    } else if is("reasoning") {
        let a = texts_of(item, "summary");
        let c = texts_of(item, "content");
        let mut text = concat_str(a.as_str(), c.as_str());
        if text.as_str().unicode_len() == 0 {
            text = match item.get("reasoning_text") {
                Some(v) => match v.as_str() {
                    Some(s) => s.to_string(),
                    None => String::new(),
                },
                None => str_field(item, "reasoning"),
            };
        }
        let enc = match item.get_str("encrypted_content") {
            Some(s) => Some(s.to_string()),
            None => None,
        };
        let signature = tag_signature(SIG_OPENAI, enc);
        if text.as_str().unicode_len() > 0 || signature.is_some() {
            let b = ContentBlock::Reasoning { text, signature, redacted: false };
            proof {
                crate::protocol::ir::lemma_blocks_view_push(out@, b);
            }
            out.push(b);
        }
    }
    proof {
        assert(blocks_view(out@) =~= output_item_blocks(item@));
    }
    out
}

impl OpenAiResponsesAdapter {
    /// Responses response object → core response: id and model (empty when
    /// absent), the blocks of its output items, its usage, and `tool_use` as
    /// the stop reason when a tool is called, else `end_turn`.
    pub fn to_core_response(&self, _ctx: &ReqCtx, raw: &Json) -> (r: CoreResponse)
        ensures
            r.id@ == str_or_empty(raw@, "id"@),
            r.model@ == str_or_empty(raw@, "model"@),
            blocks_view(r.content@) == response_blocks(raw@),
            r.usage == response_usage(raw@),
            r.stop_reason == Some(
                if has_tool_use(response_blocks(raw@)) {
                    StopReason::ToolUse
                } else {
                    StopReason::EndTurn
                },
            ),
    {
        let mut content: Vec<ContentBlock> = Vec::new();
        proof {
            lemma_blocks_view(content@);
            assert(blocks_view(content@) =~= Seq::<BlockV>::empty());
        }
        match raw.get("output") {
            Some(Json::Array(items)) => {
                proof {
                    lemma_items_view(items@);
                }
                let ghost iv = items_view(items@);
                let mut i: usize = 0;
                while i < items.len()
                    invariant
                        i <= items@.len() == iv.len(),
                        iv == items_view(items@),
                        forall|k: int| 0 <= k < items@.len() ==> #[trigger] iv[k] == json_view(items@[k]),
                        blocks_view(content@) == output_items_blocks(iv.take(i as int)),
                    decreases items@.len() - i,
                {
                    proof {
                        assert(iv.take(i + 1).drop_last() == iv.take(i as int));
                        assert(iv.take(i + 1).last() == iv[i as int]);
                    }
                    let bs = output_item_to_blocks(&items[i]);
                    append_all(&mut content, bs);
                    i = i + 1;
                }
                proof {
                    assert(iv.take(iv.len() as int) == iv);
                }
            },
            _ => {},
        }
        let ghost bv = blocks_view(content@);
        proof {
            lemma_blocks_view(content@);
        }
        let mut tool = false;
        let mut k: usize = 0;
        while k < content.len()
            invariant
                k <= content@.len() == bv.len(),
                bv == blocks_view(content@),
                forall|j: int| 0 <= j < content@.len() ==> #[trigger] bv[j] == block_view(content@[j]),
                tool == (exists|j: int| 0 <= j < k && #[trigger] bv[j] is ToolUse),
            decreases content@.len() - k,
        {
            let t = matches!(content[k], ContentBlock::ToolUse { .. });
            proof {
                assert(t == bv[k as int] is ToolUse);
                if !t && !tool {
                    assert forall|j: int| 0 <= j < k + 1 implies !(#[trigger] bv[j] is ToolUse) by {
                        if j < k {
                            assert(!(exists|q: int| 0 <= q < k && #[trigger] bv[q] is ToolUse) ==> !(bv[j] is ToolUse));
                        }
                    }
                }
            }
            tool = tool || t;
            k = k + 1;
        }
        let usage = match raw.get("usage") {
            Some(u) => usage_from_value(u),
            None => crate::protocol::ir::Usage::zero(),
        };
        CoreResponse {
            id: str_field(raw, "id"),
            model: str_field(raw, "model"),
            content,
            stop_reason: Some(
                if tool {
                    StopReason::ToolUse
                } else {
                    StopReason::EndTurn
                },
            ),
            usage,
        }
    }
}

} // verus!
