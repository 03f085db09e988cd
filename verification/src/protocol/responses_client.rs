//! OpenAI Responses as the client-facing protocol: a Responses request into a
//! core request, and a core response into a Responses response object. The
//! content parsing here is shared with the upstream side, so that Responses
//! means the same in both directions.
use vstd::prelude::*;
use crate::json::{fields_view, find_field, items_view, json_parsed, json_text, json_to_string, json_view, lemma_fields_view, lemma_items_view, parse_json, Json, JsonNum, JsonV};
use crate::protocol::adapters::OpenAiResponsesAdapter;
use crate::protocol::chat::{opt_choice_view, str_field, str_or_empty};
use crate::protocol::chat_stream::{jfield, jobject, one1, now_unix};
use crate::protocol::ir::{CoreResponse, StopReason};
use crate::protocol::responses::{function_call_item, function_call_item_value, message_item, message_item_value, usage_object, usage_value};
use crate::protocol::signature::{emit_signature, emit_spec};
use crate::text::{dec, u64_to_dec};
use crate::protocol::context::ReqCtx;
use crate::protocol::ir::message_view;
use crate::protocol::ir::{block_view, blocks_view, lemma_blocks_view, opt_block_view, opt_view, tool_view, BlockV, ContentBlock, CoreRequest, DocSource, Message, Reasoning, Role, Tool, ToolChoice, ToolChoiceV, ToolV};
use crate::protocol::signature::{tag_signature, tag_spec, SIG_OPENAI};
use crate::text::{concat_str, data_url_parts, has_prefix, has_suffix, split_data_url, str_ends_with, str_eq, str_starts_with};

verus! {

/// The media type of a file whose type is not known.
pub const OCTET_STREAM: &'static str = "application/octet-stream";

/// An image given inline in Anthropic form (`source`): by URL, by file id, or
/// as base64 data (PNG unless a media type is given).
pub open spec fn source_image(src: JsonV) -> Option<BlockV> {
    let ty = src.field_str("type"@);
    if ty == Some("url"@) {
        match src.field_str("url"@) {
            Some(u) => Some(BlockV::Image { data: u, media_type: "url"@ }),
            None => None,
        }
    } else if ty == Some("file"@) {
        match src.field_str("file_id"@) {
            Some(f) => Some(BlockV::Image { data: f, media_type: "file"@ }),
            None => None,
        }
    } else {
        match src.field_str("data"@) {
            Some(d) => Some(
                BlockV::Image {
                    data: d,
                    media_type: match src.field_str("media_type"@) {
                        Some(m) => m,
                        None => "image/png"@,
                    },
                },
            ),
            None => None,
        }
    }
}

/// The `image_url` of an item: a string, or the `url` of an object.
pub open spec fn image_url_field(item: JsonV) -> Option<Seq<char>> {
    match item.field("image_url"@) {
        Some(v) => match v.str_of() {
            Some(s) => Some(s),
            None => v.field_str("url"@),
        },
        None => None,
    }
}

/// An image item: its inline `source` when that gives an image, else its
/// `image_url` (a `data:` URL split into media type and data, any other URL
/// kept as a URL; a `data:` URL without a comma gives nothing).
pub open spec fn image_block(item: JsonV) -> Option<BlockV> {
    let from_source = match item.field("source"@) {
        Some(src) => source_image(src),
        None => None,
    };
    if from_source is Some {
        from_source
    } else {
        match image_url_field(item) {
            None => None,
            Some(url) => if has_prefix(url, "data:"@) {
                match data_url_parts(url) {
                    Some(p) => Some(BlockV::Image { data: p.1, media_type: p.0 }),
                    None => None,
                }
            } else {
                Some(BlockV::Image { data: url, media_type: "url"@ })
            },
        }
    }
}

/// A file item: by `file_id`, by `file_url`, or as `file_data` (a `data:` URL
/// split into media type and data, anything else taken as the data itself);
/// with the file name when there is one.
pub open spec fn file_block(item: JsonV) -> Option<BlockV> {
    let name = item.field_str("filename"@);
    match item.field_str("file_id"@) {
        Some(fid) => Some(BlockV::Document { source: DocSource::File, media_type: OCTET_STREAM@, data: fid, name }),
        None => match item.field_str("file_url"@) {
            Some(fu) => Some(BlockV::Document { source: DocSource::Url, media_type: OCTET_STREAM@, data: fu, name }),
            None => match item.field_str("file_data"@) {
                Some(fd) => Some(
                    match data_url_parts(fd) {
                        Some(p) => BlockV::Document { source: DocSource::Base64, media_type: p.0, data: p.1, name },
                        None => BlockV::Document { source: DocSource::Base64, media_type: OCTET_STREAM@, data: fd, name },
                    },
                ),
                None => None,
            },
        },
    }
}

/// Item types that carry an image.
pub open spec fn is_image_type(t: Seq<char>) -> bool {
    t == "input_image"@ || t == "image"@ || t == "output_image"@ || t == "computer_screenshot"@
}

/// The core block of a Responses content item: texts, images, files, and a
/// refusal (kept as text); anything else has none.
pub open spec fn content_item_block(item: JsonV) -> Option<BlockV> {
    match item.field_str("type"@) {
        None => None,
        Some(t) => if t == "input_text"@ || t == "output_text"@ || t == "text"@ {
            match item.field_str("text"@) {
                Some(x) => Some(BlockV::Text { text: x }),
                None => None,
            }
        } else if is_image_type(t) {
            image_block(item)
        } else if t == "input_file"@ || t == "file"@ {
            file_block(item)
        } else if t == "refusal"@ {
            match item.field_str("refusal"@) {
                Some(x) => Some(BlockV::Text { text: x }),
                None => None,
            }
        } else {
            None
        },
    }
}

pub open spec fn opt_blocks(o: Option<BlockV>) -> Seq<BlockV> {
    match o {
        Some(b) => seq![b],
        None => Seq::empty(),
    }
}

/// The blocks of content items, in order; items without one are left out.
pub open spec fn content_blocks(items: Seq<JsonV>) -> Seq<BlockV>
    decreases items.len(),
{
    if items.len() == 0 {
        Seq::empty()
    } else {
        content_blocks(items.drop_last()) + opt_blocks(content_item_block(items.last()))
    }
}

/// The id of a call item: its `call_id` when present (empty unless a string),
/// else its `id`.
pub open spec fn call_id_of(item: JsonV) -> Seq<char> {
    match item.field("call_id"@) {
        Some(v) => match v.str_of() {
            Some(s) => s,
            None => Seq::empty(),
        },
        None => str_or_empty(item, "id"@),
    }
}

pub open spec fn empty_obj() -> JsonV {
    JsonV::Object(Seq::empty())
}

/// What a JSON text parses to, or `d` when it is not valid JSON.
pub open spec fn parsed_or(s: Seq<char>, d: JsonV) -> JsonV {
    match json_parsed(s) {
        Some(v) => v,
        None => d,
    }
}

/// The arguments of a call item, whatever member carries them: `arguments`
/// (a JSON text, or an object taken as is), else `action`, else `input` (a
/// JSON text, kept as `{"input": text}` when it is not JSON, or any value).
pub open spec fn call_input(item: JsonV) -> JsonV {
    match item.field("arguments"@) {
        Some(a) => match a {
            JsonV::Str(s) => parsed_or(s, empty_obj()),
            JsonV::Object(_) => a,
            _ => empty_obj(),
        },
        None => match item.field("action"@) {
            Some(x) => x,
            None => match item.field("input"@) {
                Some(v) => match v {
                    JsonV::Str(s) => parsed_or(s, JsonV::Object(seq![("input"@, JsonV::Str(s))])),
                    _ => v,
                },
                None => empty_obj(),
            },
        },
    }
}

/// The tool use of a call item whose original item type is `ns` (`None` for
/// a plain function call): named after the item, else its type, else `call`.
pub open spec fn call_block(item: JsonV, ns: Option<Seq<char>>) -> BlockV {
    BlockV::ToolUse {
        id: call_id_of(item),
        name: match item.field_str("name"@) {
            Some(n) => n,
            None => match ns {
                Some(n) => n,
                None => "call"@,
            },
        },
        namespace: ns,
        input: call_input(item),
        signature: None,
    }
}

pub open spec fn empty_text() -> BlockV {
    BlockV::Text { text: Seq::empty() }
}

/// The content of a call output item: a string as text; an array as its
/// content blocks (an empty text when none); an object as the content item it
/// is, else as its JSON text; anything else as its JSON text; nothing as an
/// empty text.
pub open spec fn output_content(item: JsonV) -> Seq<BlockV> {
    match item.field("output"@) {
        Some(v) => match v {
            JsonV::Str(s) => seq![BlockV::Text { text: s }],
            JsonV::Array(arr) => if content_blocks(arr).len() == 0 {
                seq![empty_text()]
            } else {
                content_blocks(arr)
            },
            JsonV::Object(_) => seq![
                match content_item_block(v) {
                    Some(b) => b,
                    None => BlockV::Text { text: json_text(v) },
                },
            ],
            _ => seq![BlockV::Text { text: json_text(v) }],
        },
        None => seq![empty_text()],
    }
}

/// The tool result of a call output item.
pub open spec fn output_block(item: JsonV) -> BlockV {
    BlockV::ToolResult { tool_use_id: str_or_empty(item, "call_id"@), content: output_content(item), is_error: false }
}

/// A Responses tool definition (flat: name, description, parameters); none
/// without a name. Parameters default to an object schema.
pub open spec fn tool_of(item: JsonV) -> Option<ToolV> {
    match item.field_str("name"@) {
        Some(n) => Some(
            ToolV {
                name: n,
                description: item.field_str("description"@),
                input_schema: match item.field("parameters"@) {
                    Some(p) => p,
                    None => JsonV::Object(seq![("type"@, JsonV::Str("object"@))]),
                },
            },
        ),
        None => None,
    }
}

/// A Responses `tool_choice`: `auto`, `none`, `required`, or a named
/// function; anything else is none.
pub open spec fn tool_choice_of(v: JsonV) -> Option<ToolChoiceV> {
    match v.str_of() {
        Some(s) => if s == "auto"@ {
            Some(ToolChoiceV::Auto)
        } else if s == "none"@ {
            Some(ToolChoiceV::NoTools)
        } else if s == "required"@ {
            Some(ToolChoiceV::Required)
        } else {
            None
        },
        None => if v.field_str("type"@) == Some("function"@) {
            match v.field_str("name"@) {
                Some(n) => Some(ToolChoiceV::Tool { name: n }),
                None => None,
            }
        } else {
            None
        },
    }
}

/// The role of a message item: `system` and `developer` are the system,
/// `assistant` and `tool` themselves, anything else the user.
pub open spec fn role_of(item: JsonV) -> Role {
    let r = item.field_str("role"@);
    if r == Some("system"@) || r == Some("developer"@) {
        Role::System
    } else if r == Some("assistant"@) {
        Role::Assistant
    } else if r == Some("tool"@) {
        Role::Tool
    } else {
        Role::User
    }
}

/// The content of a message item: its content items, or its text.
pub open spec fn message_content(item: JsonV) -> Seq<BlockV> {
    match item.field("content"@) {
        Some(JsonV::Array(ps)) => content_blocks(ps),
        Some(JsonV::Str(t)) => seq![BlockV::Text { text: t }],
        _ => Seq::empty(),
    }
}

/// The `text` members of items, one after another.
pub open spec fn item_texts(items: Seq<JsonV>) -> Seq<char>
    decreases items.len(),
{
    if items.len() == 0 {
        Seq::empty()
    } else {
        item_texts(items.drop_last()) + str_or_empty(items.last(), "text"@)
    }
}

pub open spec fn array_texts(item: JsonV, key: Seq<char>) -> Seq<char> {
    match item.field(key) {
        Some(JsonV::Array(a)) => item_texts(a),
        _ => Seq::empty(),
    }
}

/// The readable text of a reasoning item: its summary texts, then its
/// content texts.
pub open spec fn reasoning_text(item: JsonV) -> Seq<char> {
    array_texts(item, "summary"@) + array_texts(item, "content"@)
}

/// System blocks and messages gathered so far.
pub type Conv = (Seq<BlockV>, Seq<(Role, Seq<BlockV>)>);

/// One input item: a message (typed `message`, or untyped) with content joins
/// the system or the messages; a `*_call` item becomes an assistant tool use
/// (its type kept as namespace, except for a plain function call); a
/// `*_call_output` item a tool result; a reasoning item with text or a
/// credential an assistant reasoning block (the credential tagged as OpenAI's);
/// anything else is dropped.
pub open spec fn conv_step(c: Conv, item: JsonV) -> Conv {
    match item.field_str("type"@) {
        None => message_step(c, item),
        Some(t) => if t == "message"@ {
            message_step(c, item)
        } else if t == "function_call"@ {
            (c.0, c.1.push((Role::Assistant, seq![call_block(item, None)])))
        } else if t == "function_call_output"@ {
            (c.0, c.1.push((Role::Tool, seq![output_block(item)])))
        } else if has_suffix(t, "_call"@) {
            (c.0, c.1.push((Role::Assistant, seq![call_block(item, Some(t))])))
        } else if has_suffix(t, "_call_output"@) {
            (c.0, c.1.push((Role::Tool, seq![output_block(item)])))
        } else if t == "reasoning"@ {
            let text = reasoning_text(item);
            let sig = tag_spec(SIG_OPENAI@, item.field_str("encrypted_content"@));
            if text.len() == 0 && sig is None {
                c
            } else {
                (c.0, c.1.push((Role::Assistant, seq![BlockV::Reasoning { text, signature: sig, redacted: false }])))
            }
        } else {
            c
        },
    }
}

/// A message item: left out without content; the system's content joins the
/// system blocks.
pub open spec fn message_step(c: Conv, item: JsonV) -> Conv {
    let content = message_content(item);
    let role = role_of(item);
    if content.len() == 0 {
        c
    } else if role == Role::System {
        (c.0 + content, c.1)
    } else {
        (c.0, c.1.push((role, content)))
    }
}

/// Input items, one after another from nothing.
pub open spec fn conv_run(items: Seq<JsonV>) -> Conv
    decreases items.len(),
{
    if items.len() == 0 {
        (Seq::empty(), Seq::empty())
    } else {
        conv_step(conv_run(items.drop_last()), items.last())
    }
}

/// The system blocks and messages of a request's `input`: a string is one user
/// message; an array is read item by item.
pub open spec fn input_conv(raw: JsonV) -> Conv {
    match raw.field("input"@) {
        Some(JsonV::Str(s)) => (Seq::empty(), seq![(Role::User, seq![BlockV::Text { text: s }])]),
        Some(JsonV::Array(items)) => conv_run(items),
        _ => (Seq::empty(), Seq::empty()),
    }
}

/// The system block of non-empty `instructions`.
pub open spec fn instruction_blocks(raw: JsonV) -> Seq<BlockV> {
    match raw.field_str("instructions"@) {
        Some(s) => if s.len() > 0 {
            seq![BlockV::Text { text: s }]
        } else {
            Seq::empty()
        },
        None => Seq::empty(),
    }
}

pub open spec fn opt_tools(o: Option<ToolV>) -> Seq<ToolV> {
    match o {
        Some(t) => seq![t],
        None => Seq::empty(),
    }
}

/// The tools of tool definitions, in order; definitions without a name are
/// left out.
pub open spec fn tools_of_items(ts: Seq<JsonV>) -> Seq<ToolV>
    decreases ts.len(),
{
    if ts.len() == 0 {
        Seq::empty()
    } else {
        tools_of_items(ts.drop_last()) + opt_tools(tool_of(ts.last()))
    }
}

/// The tools of a request.
pub open spec fn request_tools(raw: JsonV) -> Seq<ToolV> {
    match raw.field("tools"@) {
        Some(JsonV::Array(ts)) => tools_of_items(ts),
        _ => Seq::empty(),
    }
}

/// The token limit: `max_output_tokens` when present, else `max_tokens`; a
/// non-negative integer, cut to 32 bits.
pub open spec fn max_tokens_of(raw: JsonV) -> Option<u32> {
    let v = match raw.field("max_output_tokens"@) {
        Some(x) => Some(x),
        None => raw.field("max_tokens"@),
    };
    match v {
        Some(x) => match x.u64_of() {
            Some(u) => Some(u as u32),
            None => None,
        },
        None => None,
    }
}

pub open spec fn is_number(v: JsonV) -> bool {
    v is PosInt || v is NegInt || v is Float
}

/// The member `key` when it is a number.
pub open spec fn number_field(raw: JsonV, key: Seq<char>) -> Option<JsonV> {
    match raw.field(key) {
        Some(v) => if is_number(v) {
            Some(v)
        } else {
            None
        },
        None => None,
    }
}

pub open spec fn opt_num(o: Option<JsonNum>) -> Option<JsonV> {
    match o {
        Some(n) => Some(json_view(Json::Num(n))),
        None => None,
    }
}

/// The request members the core request holds.
pub open spec fn is_known_member(k: Seq<char>) -> bool {
    k == "model"@ || k == "input"@ || k == "tools"@ || k == "tool_choice"@ || k == "reasoning"@ || k
        == "instructions"@ || k == "max_output_tokens"@ || k == "max_tokens"@ || k == "temperature"@ || k
        == "top_p"@ || k == "stream"@
}

/// The members of an object that the core request does not hold, in order.
pub open spec fn extra_members(fs: Seq<(Seq<char>, JsonV)>) -> Seq<(Seq<char>, JsonV)>
    decreases fs.len(),
{
    if fs.len() == 0 {
        Seq::empty()
    } else {
        extra_members(fs.drop_last()) + if is_known_member(fs.last().0) {
            Seq::empty()
        } else {
            seq![fs.last()]
        }
    }
}

/// The metadata of a request: its other members, as `responses.extra`, when
/// there are any.
pub open spec fn request_meta(raw: JsonV) -> Seq<(Seq<char>, JsonV)> {
    match raw {
        JsonV::Object(fs) => if extra_members(fs).len() > 0 {
            seq![("responses.extra"@, JsonV::Object(extra_members(fs)))]
        } else {
            Seq::empty()
        },
        _ => Seq::empty(),
    }
}

} // verus!

verus! {

fn opt_string(o: Option<&str>) -> (r: Option<String>)
    ensures
        opt_view(r) == match o {
            Some(s) => Some(s@),
            None => None::<Seq<char>>,
        },
{
    match o {
        Some(s) => Some(s.to_string()),
        None => None,
    }
}

fn image(data: &str, media_type: &str) -> (r: ContentBlock)
    ensures
        block_view(r) == (BlockV::Image { data: data@, media_type: media_type@ }),
{
    ContentBlock::Image { data: data.to_string(), media_type: media_type.to_string() }
}

pub(crate) fn text_block(t: &str) -> (r: ContentBlock)
    ensures
        block_view(r) == (BlockV::Text { text: t@ }),
{
    ContentBlock::Text { text: t.to_string() }
}

/// An inline Anthropic-form image (see [`source_image`]).
fn source_image_block(src: &Json) -> (r: Option<ContentBlock>)
    ensures
        opt_block_view(r) == source_image(src@),
{
    let ty = src.get_str("type");
    let is_url = match ty {
        Some(t) => str_eq(t, "url"),
        None => false,
    };
    let is_file = match ty {
        Some(t) => str_eq(t, "file"),
        None => false,
    };
    if is_url {
        match src.get_str("url") {
            Some(u) => Some(image(u, "url")),
            None => None,
        }
    } else if is_file {
        match src.get_str("file_id") {
            Some(f) => Some(image(f, "file")),
            None => None,
        }
    } else {
        match src.get_str("data") {
            Some(d) => {
                let mt = match src.get_str("media_type") {
                    Some(m) => m,
                    None => "image/png",
                };
                Some(image(d, mt))
            },
            None => None,
        }
    }
}

/// An image content item (see [`image_block`]).
pub fn parse_image(item: &Json) -> (r: Option<ContentBlock>)
    ensures
        opt_block_view(r) == image_block(item@),
{
    let from_source = match item.get("source") {
        Some(src) => source_image_block(src),
        None => None,
    };
    if from_source.is_some() {
        return from_source;
    }
    let url: Option<&str> = match item.get("image_url") {
        Some(v) => match v.as_str() {
            Some(s) => Some(s),
            None => v.get_str("url"),
        },
        None => None,
    };
    match url {
        None => None,
        Some(u) => {
            if str_starts_with(u, "data:") {
                match split_data_url(u) {
                    Some((mt, data)) => Some(ContentBlock::Image { data, media_type: mt }),
                    None => None,
                }
            } else {
                Some(image(u, "url"))
            }
        },
    }
}

/// A file content item (see [`file_block`]).
pub fn parse_file(item: &Json) -> (r: Option<ContentBlock>)
    ensures
        opt_block_view(r) == file_block(item@),
{
    let name = opt_string(item.get_str("filename"));
    if let Some(fid) = item.get_str("file_id") {
        return Some(
            ContentBlock::Document { source: DocSource::File, media_type: OCTET_STREAM.to_string(), data: fid.to_string(), name },
        );
    }
    if let Some(fu) = item.get_str("file_url") {
        return Some(
            ContentBlock::Document { source: DocSource::Url, media_type: OCTET_STREAM.to_string(), data: fu.to_string(), name },
        );
    }
    match item.get_str("file_data") {
        Some(fd) => match split_data_url(fd) {
            Some((mt, data)) => Some(ContentBlock::Document { source: DocSource::Base64, media_type: mt, data, name }),
            None => Some(
                ContentBlock::Document {
                    source: DocSource::Base64,
                    media_type: OCTET_STREAM.to_string(),
                    data: fd.to_string(),
                    name,
                },
            ),
        },
        None => None,
    }
}

/// A Responses content item → core block (see [`content_item_block`]).
pub fn parse_content_item(item: &Json) -> (r: Option<ContentBlock>)
    ensures
        opt_block_view(r) == content_item_block(item@),
{
    match item.get_str("type") {
        None => None,
        Some(t) => {
            if str_eq(t, "input_text") || str_eq(t, "output_text") || str_eq(t, "text") {
                match item.get_str("text") {
                    Some(x) => Some(text_block(x)),
                    None => None,
                }
            } else if str_eq(t, "input_image") || str_eq(t, "image") || str_eq(t, "output_image") || str_eq(
                t,
                "computer_screenshot",
            ) {
                parse_image(item)
            } else if str_eq(t, "input_file") || str_eq(t, "file") {
                parse_file(item)
            } else if str_eq(t, "refusal") {
                match item.get_str("refusal") {
                    Some(x) => Some(text_block(x)),
                    None => None,
                }
            } else {
                None
            }
        },
    }
}

/// Content items → core blocks (see [`content_blocks`]).
pub(crate) fn parse_content_items(items: &Vec<Json>) -> (r: Vec<ContentBlock>)
    ensures
        blocks_view(r@) == content_blocks(items_view(items@)),
{
    proof {
        lemma_items_view(items@);
    }
    let ghost iv = items_view(items@);
    let mut out: Vec<ContentBlock> = Vec::new();
    proof {
        lemma_blocks_view(out@);
        assert(blocks_view(out@) =~= Seq::<BlockV>::empty());
    }
    let mut i: usize = 0;
    while i < items.len()
        invariant
            i <= items@.len() == iv.len(),
            iv == items_view(items@),
            forall|k: int| 0 <= k < items@.len() ==> #[trigger] iv[k] == json_view(items@[k]),
            blocks_view(out@) == content_blocks(iv.take(i as int)),
        decreases items@.len() - i,
    {
        proof {
            assert(iv.take(i + 1).drop_last() == iv.take(i as int));
            assert(iv.take(i + 1).last() == iv[i as int]);
        }
        match parse_content_item(&items[i]) {
            Some(b) => {
                proof {
                    crate::protocol::ir::lemma_blocks_view_push(out@, b);
                }
                out.push(b);
            },
            None => {
                proof {
                    assert(blocks_view(out@) + Seq::<BlockV>::empty() == blocks_view(out@));
                }
            },
        }
        i = i + 1;
    }
    proof {
        assert(iv.take(iv.len() as int) == iv);
    }
    out
}

fn one_block(b: ContentBlock) -> (r: Vec<ContentBlock>)
    ensures
        blocks_view(r@) == seq![block_view(b)],
{
    let mut v: Vec<ContentBlock> = Vec::new();
    proof {
        crate::protocol::ir::lemma_blocks_view_push(v@, b);
        lemma_blocks_view(v@);
        assert(blocks_view(v@) =~= Seq::<BlockV>::empty());
    }
    v.push(b);
    proof {
        assert(blocks_view(v@) =~= seq![block_view(b)]);
    }
    v
}

/// The arguments of a call item (see [`call_input`]).
fn call_input_json(item: &Json) -> (r: Json)
    ensures
        r@ == call_input(item@),
{
    match item.get("arguments") {
        Some(a) => match a {
            Json::Str(s) => match parse_json(s.as_str()) {
                Some(v) => v,
                None => crate::json::empty_object(),
            },
            Json::Object(_) => a.deep_clone(),
            _ => crate::json::empty_object(),
        },
        None => match item.get("action") {
            Some(x) => x.deep_clone(),
            None => match item.get("input") {
                Some(v) => match v {
                    Json::Str(s) => match parse_json(s.as_str()) {
                        Some(p) => p,
                        None => crate::protocol::chat_stream::one1("input", Json::Str(s.clone())),
                    },
                    _ => v.deep_clone(),
                },
                None => crate::json::empty_object(),
            },
        },
    }
}

/// A call item → an assistant message holding its tool use (see
/// [`call_block`]).
pub fn call_item_to_message(item: &Json, namespace: Option<String>) -> (r: Message)
    ensures
        message_view(r) == (Role::Assistant, seq![call_block(item@, opt_view(namespace))]),
{
    let id: String = match item.get("call_id") {
        Some(v) => match v.as_str() {
            Some(s) => s.to_string(),
            None => String::new(),
        },
        None => str_field(item, "id"),
    };
    let name: String = match item.get_str("name") {
        Some(n) => n.to_string(),
        None => match &namespace {
            Some(n) => n.clone(),
            None => "call".to_string(),
        },
    };
    let input = call_input_json(item);
    let b = ContentBlock::ToolUse { id, name, namespace, input, signature: None };
    Message { role: Role::Assistant, content: one_block(b) }
}

/// A call output item → a tool message holding its result (see
/// [`output_block`]).
pub fn call_output_to_message(item: &Json) -> (r: Message)
    ensures
        message_view(r) == (Role::Tool, seq![output_block(item@)]),
{
    proof {
        reveal_strlit("");
    }
    let id = str_field(item, "call_id");
    let content: Vec<ContentBlock> = match item.get("output") {
        Some(v) => match v {
            Json::Str(s) => one_block(text_block(s.as_str())),
            Json::Array(arr) => {
                let bs = parse_content_items(arr);
                proof {
                    lemma_blocks_view(bs@);
                }
                if bs.len() == 0 {
                    let e = text_block("");
                    proof {
                        assert(""@ =~= Seq::<char>::empty());
                    }
                    one_block(e)
                } else {
                    bs
                }
            },
            Json::Object(_) => match parse_content_item(v) {
                Some(b) => one_block(b),
                None => one_block(ContentBlock::Text { text: crate::json::json_to_string(v) }),
            },
            _ => one_block(ContentBlock::Text { text: crate::json::json_to_string(v) }),
        },
        None => {
            let e = text_block("");
            proof {
                assert(""@ =~= Seq::<char>::empty());
            }
            one_block(e)
        },
    };
    assert(blocks_view(content@) == output_content(item@));
    let b = ContentBlock::ToolResult { tool_use_id: id, content, is_error: false };
    Message { role: Role::Tool, content: one_block(b) }
}

/// A Responses tool definition → core tool (see [`tool_of`]).
pub fn parse_tool(item: &Json) -> (r: Option<Tool>)
    ensures
        match r {
            Some(t) => tool_of(item@) == Some(tool_view(t)),
            None => tool_of(item@) is None,
        },
{
    let name = item.get_str("name")?;
    let description = opt_string(item.get_str("description"));
    let input_schema = match item.get("parameters") {
        Some(p) => p.deep_clone(),
        None => crate::protocol::chat_stream::one1("type", Json::Str("object".to_string())),
    };
    Some(Tool { name: name.to_string(), description, input_schema })
}

/// A Responses `tool_choice` → core tool choice (see [`tool_choice_of`]).
pub fn parse_tool_choice(v: &Json) -> (r: Option<ToolChoice>)
    ensures
        opt_choice_view(r) == tool_choice_of(v@),
{
    if let Some(s) = v.as_str() {
        return if str_eq(s, "auto") {
            Some(ToolChoice::Auto)
        } else if str_eq(s, "none") {
            Some(ToolChoice::NoTools)
        } else if str_eq(s, "required") {
            Some(ToolChoice::Required)
        } else {
            None
        };
    }
    let is_fn = match v.get_str("type") {
        Some(t) => str_eq(t, "function"),
        None => false,
    };
    if is_fn {
        if let Some(name) = v.get_str("name") {
            return Some(ToolChoice::Tool { name: name.to_string() });
        }
    }
    None
}

} // verus!

verus! {

/// The boolean member `key`, false when absent or not a boolean.
pub open spec fn flag_of(raw: JsonV, key: Seq<char>) -> bool {
    match raw.field(key) {
        Some(v) => match v.bool_of() {
            Some(b) => b,
            None => false,
        },
        None => false,
    }
}

pub open spec fn opt_json(o: Option<Json>) -> Option<JsonV> {
    match o {
        Some(j) => Some(j@),
        None => None,
    }
}

/// The reasoning settings of a request: present with its `reasoning` member,
/// holding that member's `effort` (when a string) and `summary`.
pub open spec fn reasoning_matches(r: Option<Reasoning>, raw: JsonV) -> bool {
    match raw.field("reasoning"@) {
        Some(rv) => r matches Some(x) && opt_view(x.effort) == rv.field_str("effort"@) && opt_json(x.summary)
            == rv.field("summary"@),
        None => r is None,
    }
}

pub open spec fn msgs_view(ms: Seq<Message>) -> Seq<(Role, Seq<BlockV>)> {
    ms.map_values(|m: Message| message_view(m))
}

fn push_message(msgs: &mut Vec<Message>, m: Message)
    ensures
        msgs_view(final(msgs)@) == msgs_view(old(msgs)@).push(message_view(m)),
{
    let ghost before = msgs@;
    msgs.push(m);
    proof {
        assert(msgs_view(msgs@) =~= msgs_view(before).push(message_view(m)));
    }
}

fn append_blocks(sys: &mut Vec<ContentBlock>, more: Vec<ContentBlock>)
    ensures
        blocks_view(final(sys)@) == blocks_view(old(sys)@) + blocks_view(more@),
{
    let mut more = more;
    let ghost a = sys@;
    let ghost b = more@;
    sys.append(&mut more);
    proof {
        crate::protocol::ir::lemma_blocks_view_concat(a, b);
    }
}

/// The texts of the items of array member `key` (see [`array_texts`]).
pub(crate) fn texts_of(item: &Json, key: &str) -> (r: String)
    ensures
        r@ == array_texts(item@, key@),
{
    let mut out = String::new();
    match item.get(key) {
        Some(v) => match v {
            Json::Array(a) => {
                proof {
                    lemma_items_view(a@);
                }
                let ghost av = items_view(a@);
                let mut i: usize = 0;
                proof {
                    assert(out@ =~= item_texts(av.take(0)));
                }
                while i < a.len()
                    invariant
                        i <= a@.len() == av.len(),
                        av == items_view(a@),
                        forall|k: int| 0 <= k < a@.len() ==> #[trigger] av[k] == json_view(a@[k]),
                        out@ == item_texts(av.take(i as int)),
                    decreases a@.len() - i,
                {
                    proof {
                        assert(av.take(i + 1).drop_last() == av.take(i as int));
                        assert(av.take(i + 1).last() == av[i as int]);
                    }
                    let t = str_field(&a[i], "text");
                    out = concat_str(out.as_str(), t.as_str());
                    i = i + 1;
                }
                proof {
                    assert(av.take(av.len() as int) == av);
                }
            },
            _ => {},
        },
        None => {},
    }
    out
}

/// A message item (see [`message_step`]).
fn apply_message(sys: &mut Vec<ContentBlock>, msgs: &mut Vec<Message>, item: &Json)
    ensures
        (blocks_view(final(sys)@), msgs_view(final(msgs)@)) == message_step(
            (blocks_view(old(sys)@), msgs_view(old(msgs)@)),
            item@,
        ),
{
    let content: Vec<ContentBlock> = match item.get("content") {
        Some(c) => match c {
            Json::Array(ps) => parse_content_items(ps),
            Json::Str(t) => one_block(text_block(t.as_str())),
            _ => {
                let e: Vec<ContentBlock> = Vec::new();
                proof {
                    lemma_blocks_view(e@);
                    assert(blocks_view(e@) =~= Seq::<BlockV>::empty());
                }
                e
            },
        },
        None => {
            let e: Vec<ContentBlock> = Vec::new();
            proof {
                lemma_blocks_view(e@);
                assert(blocks_view(e@) =~= Seq::<BlockV>::empty());
            }
            e
        },
    };
    proof {
        lemma_blocks_view(content@);
    }
    if content.len() == 0 {
        return ;
    }
    let r = item.get_str("role");
    let role = match r {
        Some(x) => if str_eq(x, "system") || str_eq(x, "developer") {
            Role::System
        } else if str_eq(x, "assistant") {
            Role::Assistant
        } else if str_eq(x, "tool") {
            Role::Tool
        } else {
            Role::User
        },
        None => Role::User,
    };
    if role == Role::System {
        append_blocks(sys, content);
    } else {
        push_message(msgs, Message { role, content });
    }
}

/// One input item (see [`conv_step`]).
fn apply_item(sys: &mut Vec<ContentBlock>, msgs: &mut Vec<Message>, item: &Json)
    ensures
        (blocks_view(final(sys)@), msgs_view(final(msgs)@)) == conv_step(
            (blocks_view(old(sys)@), msgs_view(old(msgs)@)),
            item@,
        ),
{
    match item.get_str("type") {
        None => apply_message(sys, msgs, item),
        Some(t) => {
            if str_eq(t, "message") {
                apply_message(sys, msgs, item);
            } else if str_eq(t, "function_call") {
                push_message(msgs, call_item_to_message(item, None));
            } else if str_eq(t, "function_call_output") {
                push_message(msgs, call_output_to_message(item));
            } else if str_ends_with(t, "_call") {
                push_message(msgs, call_item_to_message(item, Some(t.to_string())));
            } else if str_ends_with(t, "_call_output") {
                push_message(msgs, call_output_to_message(item));
            } else if str_eq(t, "reasoning") {
                let a = texts_of(item, "summary");
                let b = texts_of(item, "content");
                let text = concat_str(a.as_str(), b.as_str());
                let signature = tag_signature(SIG_OPENAI, opt_string(item.get_str("encrypted_content")));
                if text.as_str().unicode_len() == 0 && signature.is_none() {
                    return ;
                }
                let blk = ContentBlock::Reasoning { text, signature, redacted: false };
                push_message(msgs, Message { role: Role::Assistant, content: one_block(blk) });
            }
        },
    }
}

/// The members of an object that the core request does not hold (see
/// [`extra_members`]).
fn extra_fields(fs: &Vec<(String, Json)>) -> (r: Vec<(String, Json)>)
    ensures
        fields_view(r@) == extra_members(fields_view(fs@)),
{
    proof {
        lemma_fields_view(fs@);
    }
    let ghost fv = fields_view(fs@);
    let mut out: Vec<(String, Json)> = Vec::new();
    proof {
        lemma_fields_view(out@);
        assert(fields_view(out@) =~= extra_members(fv.take(0)));
    }
    let mut i: usize = 0;
    while i < fs.len()
        invariant
            i <= fs@.len() == fv.len(),
            fv == fields_view(fs@),
            forall|k: int| 0 <= k < fs@.len() ==> #[trigger] fv[k] == (fs@[k].0@, json_view(fs@[k].1)),
            fields_view(out@) == extra_members(fv.take(i as int)),
        decreases fs@.len() - i,
    {
        proof {
            assert(fv.take(i + 1).drop_last() == fv.take(i as int));
            assert(fv.take(i + 1).last() == fv[i as int]);
        }
        let k = fs[i].0.as_str();
        let known = str_eq(k, "model") || str_eq(k, "input") || str_eq(k, "tools") || str_eq(k, "tool_choice")
            || str_eq(k, "reasoning") || str_eq(k, "instructions") || str_eq(k, "max_output_tokens") || str_eq(
            k,
            "max_tokens",
        ) || str_eq(k, "temperature") || str_eq(k, "top_p") || str_eq(k, "stream");
        if !known {
            let ghost before = out@;
            out.push((fs[i].0.clone(), fs[i].1.deep_clone()));
            proof {
                lemma_fields_view(before);
                lemma_fields_view(out@);
                assert(fields_view(out@) =~= fields_view(before).push(fv[i as int]));
            }
        } else {
            proof {
                assert(fields_view(out@) + Seq::<(Seq<char>, JsonV)>::empty() == fields_view(out@));
            }
        }
        i = i + 1;
    }
    proof {
        assert(fv.take(fv.len() as int) == fv);
    }
    out
}

pub(crate) fn number_of(v: Option<&Json>) -> (r: Option<JsonNum>)
    ensures
        opt_num(r) == match v {
            Some(x) => if is_number(x@) {
                Some(x@)
            } else {
                None
            },
            None => None,
        },
{
    match v {
        Some(Json::Num(n)) => match n {
            JsonNum::PosInt(u) => Some(JsonNum::PosInt(*u)),
            JsonNum::NegInt(i) => Some(JsonNum::NegInt(*i)),
            JsonNum::Float(x) => Some(JsonNum::Float(x.clone())),
        },
        _ => None,
    }
}

impl OpenAiResponsesAdapter {
    /// A Responses request → core request. `instructions` (when non-empty)
    /// enter the system once, ahead of the system messages of the input;
    /// members the core request does not hold are kept as metadata.
    pub fn to_core_request(&self, _ctx: &ReqCtx, raw: &Json) -> (r: CoreRequest)
        ensures
            r.model@ == str_or_empty(raw@, "model"@),
            r.model_alias@ == str_or_empty(raw@, "model"@),
            blocks_view(r.system@) == instruction_blocks(raw@) + input_conv(raw@).0,
            msgs_view(r.messages@) == input_conv(raw@).1,
            r.tools@.map_values(|t: Tool| tool_view(t)) == request_tools(raw@),
            opt_choice_view(r.tool_choice) == match raw@.field("tool_choice"@) {
                Some(tc) => tool_choice_of(tc),
                None => None,
            },
            r.max_tokens == max_tokens_of(raw@),
            opt_num(r.temperature) == number_field(raw@, "temperature"@),
            opt_num(r.top_p) == number_field(raw@, "top_p"@),
            r.stop@.len() == 0,
            r.stream == flag_of(raw@, "stream"@),
            reasoning_matches(r.reasoning, raw@),
            fields_view(r.meta@) == request_meta(raw@),
    {
        let model = str_field(raw, "model");
        let mut req = CoreRequest::new(model.as_str());
        req.model_alias = model;
        let mut sys: Vec<ContentBlock> = Vec::new();
        let mut msgs: Vec<Message> = Vec::new();
        proof {
            lemma_blocks_view(sys@);
            assert(blocks_view(sys@) =~= Seq::<BlockV>::empty());
            assert(msgs_view(msgs@) =~= Seq::<(Role, Seq<BlockV>)>::empty());
        }
        // instructions → system
        let instr: Option<&str> = match raw.get_str("instructions") {
            Some(s) => if s.unicode_len() > 0 {
                Some(s)
            } else {
                None
            },
            None => None,
        };
        if let Some(s) = instr {
            append_blocks(&mut sys, one_block(text_block(s)));
        }
        let ghost ib = blocks_view(sys@);
        assert(ib == instruction_blocks(raw@));
        match raw.get("input") {
            Some(Json::Str(s)) => {
                push_message(&mut msgs, Message { role: Role::User, content: one_block(text_block(s.as_str())) });
                proof {
                    assert(ib + Seq::<BlockV>::empty() == ib);
                }
            },
            Some(Json::Array(items)) => {
                proof {
                    lemma_items_view(items@);
                }
                let ghost iv = items_view(items@);
                let mut i: usize = 0;
                proof {
                    assert(ib + conv_run(iv.take(0)).0 == ib);
                    assert(msgs_view(msgs@) =~= conv_run(iv.take(0)).1);
                }
                while i < items.len()
                    invariant
                        i <= items@.len() == iv.len(),
                        iv == items_view(items@),
                        forall|k: int| 0 <= k < items@.len() ==> #[trigger] iv[k] == json_view(items@[k]),
                        blocks_view(sys@) == ib + conv_run(iv.take(i as int)).0,
                        msgs_view(msgs@) == conv_run(iv.take(i as int)).1,
                    decreases items@.len() - i,
                {
                    proof {
                        assert(iv.take(i + 1).drop_last() == iv.take(i as int));
                        assert(iv.take(i + 1).last() == iv[i as int]);
                    }
                    let ghost c0 = conv_run(iv.take(i as int));
                    let ghost s0 = blocks_view(sys@);
                    apply_item(&mut sys, &mut msgs, &items[i]);
                    proof {
                        let c1 = conv_step((s0, c0.1), iv[i as int]);
                        assert(blocks_view(sys@) == c1.0);
                        if c1.0 != s0 {
                            assert(c1.0 == s0 + message_content(iv[i as int]));
                            assert(ib + (c0.0 + message_content(iv[i as int])) =~= (ib + c0.0) + message_content(iv[i as int]));
                        }
                    }
                    i = i + 1;
                }
                proof {
                    assert(iv.take(iv.len() as int) == iv);
                }
            },
            _ => {
                proof {
                    assert(ib + Seq::<BlockV>::empty() == ib);
                }
            },
        }
        req.system = sys;
        req.messages = msgs;
        // tools
        let mut tools: Vec<Tool> = Vec::new();
        match raw.get("tools") {
            Some(Json::Array(ts)) => {
                proof {
                    lemma_items_view(ts@);
                }
                let ghost tv = items_view(ts@);
                let mut i: usize = 0;
                proof {
                    assert(tools@.map_values(|t: Tool| tool_view(t)) =~= tools_of_items(tv.take(0)));
                }
                while i < ts.len()
                    invariant
                        i <= ts@.len() == tv.len(),
                        tv == items_view(ts@),
                        forall|k: int| 0 <= k < ts@.len() ==> #[trigger] tv[k] == json_view(ts@[k]),
                        tools@.map_values(|t: Tool| tool_view(t)) == tools_of_items(tv.take(i as int)),
                    decreases ts@.len() - i,
                {
                    proof {
                        assert(tv.take(i + 1).drop_last() == tv.take(i as int));
                        assert(tv.take(i + 1).last() == tv[i as int]);
                    }
                    let ghost before = tools@;
                    match parse_tool(&ts[i]) {
                        Some(t) => {
                            tools.push(t);
                            proof {
                                assert(tools@.map_values(|t: Tool| tool_view(t)) =~= before.map_values(|t: Tool| tool_view(t)).push(tool_view(t)));
                            }
                        },
                        None => {
                            proof {
                                assert(tools_of_items(tv.take(i + 1)) =~= tools_of_items(tv.take(i as int)));
                            }
                        },
                    }
                    i = i + 1;
                }
                proof {
                    assert(tv.take(tv.len() as int) == tv);
                }
            },
            _ => {
                proof {
                    assert(tools@.map_values(|t: Tool| tool_view(t)) =~= Seq::<ToolV>::empty());
                }
            },
        }
        req.tools = tools;
        if let Some(tc) = raw.get("tool_choice") {
            req.tool_choice = parse_tool_choice(tc);
        }
        let mt = match raw.get("max_output_tokens") {
            Some(x) => Some(x),
            None => raw.get("max_tokens"),
        };
        req.max_tokens = match mt {
            Some(x) => match x.as_u64() {
                Some(u) => Some(u as u32),
                None => None,
            },
            None => None,
        };
        req.temperature = number_of(raw.get("temperature"));
        req.top_p = number_of(raw.get("top_p"));
        req.stream = match raw.get("stream") {
            Some(v) => match v.as_bool() {
                Some(b) => b,
                None => false,
            },
            None => false,
        };
        if let Some(rv) = raw.get("reasoning") {
            let effort = opt_string(rv.get_str("effort"));
            let summary = match rv.get("summary") {
                Some(s) => Some(s.deep_clone()),
                None => None,
            };
            req.reasoning = Some(Reasoning { effort, summary });
        }
        if let Json::Object(fs) = raw {
            let extra = extra_fields(fs);
            proof {
                lemma_fields_view(fs@);
                lemma_fields_view(extra@);
            }
            if extra.len() > 0 {
                let mut meta: Vec<(String, Json)> = Vec::new();
                meta.push(("responses.extra".to_string(), Json::Object(extra)));
                proof {
                    lemma_fields_view(meta@);
                    assert(fields_view(meta@) =~= request_meta(raw@));
                }
                req.meta = meta;
            } else {
                proof {
                    assert(fields_view(req.meta@) =~= request_meta(raw@));
                }
            }
        } else {
            proof {
                assert(fields_view(req.meta@) =~= request_meta(raw@));
            }
        }
        req
    }
}

} // verus!

verus! {

/// Output items so far, the text waiting to become a message item, and the
/// item counter.
pub type OutputState = (Seq<JsonV>, Seq<char>, nat);

/// The waiting text placed as message item `msg_<n>` (the counter then
/// advances), when there is any.
pub open spec fn flush_output(st: OutputState) -> OutputState {
    if st.1.len() > 0 {
        (st.0.push(message_item_value("msg_"@ + dec(st.2), st.1, "completed"@)), Seq::empty(), st.2 + 1)
    } else {
        st
    }
}

/// A reasoning output item `rs_<n>`: the text as its summary, and the
/// credential restored for OpenAI when one remains.
pub open spec fn reasoning_output(n: nat, text: Seq<char>, signature: Option<Seq<char>>) -> JsonV {
    JsonV::Object(
        seq![
            ("type"@, JsonV::Str("reasoning"@)),
            ("id"@, JsonV::Str("rs_"@ + dec(n))),
            ("summary"@, JsonV::Array(
                seq![JsonV::Object(seq![("type"@, JsonV::Str("summary_text"@)), ("text"@, JsonV::Str(text))])],
            )),
        ] + match signature {
            Some(s) => if emit_spec(SIG_OPENAI@, s).len() > 0 {
                seq![("encrypted_content"@, JsonV::Str(emit_spec(SIG_OPENAI@, s)))]
            } else {
                Seq::empty()
            },
            None => Seq::empty(),
        },
    )
}

/// One response block: text gathers into the waiting text; reasoning becomes
/// an item at once (the counter advances first); a tool use places the
/// waiting text and becomes a function call item; anything else is dropped.
pub open spec fn output_step(st: OutputState, b: BlockV) -> OutputState {
    match b {
        BlockV::Text { text } => (st.0, st.1 + text, st.2),
        BlockV::Reasoning { text, signature, redacted: _ } => (
            st.0.push(reasoning_output(st.2 + 1, text, signature)),
            st.1,
            st.2 + 1,
        ),
        BlockV::ToolUse { id, name, namespace: _, input, signature: _ } => {
            let f = flush_output(st);
            (f.0.push(function_call_item_value(id, name, json_text(input), "completed"@)), f.1, f.2)
        },
        _ => st,
    }
}

pub open spec fn output_run(bs: Seq<BlockV>) -> OutputState
    decreases bs.len(),
{
    if bs.len() == 0 {
        (Seq::empty(), Seq::empty(), 0)
    } else {
        output_step(output_run(bs.drop_last()), bs.last())
    }
}

/// The output items of response content.
pub open spec fn response_output(bs: Seq<BlockV>) -> Seq<JsonV> {
    flush_output(output_run(bs)).0
}

/// The status of a response and its incomplete details: output cut by the
/// token limit or by a content filter is `incomplete`.
pub open spec fn status_of(r: Option<StopReason>) -> (Seq<char>, Option<JsonV>) {
    match r {
        Some(StopReason::MaxTokens) => (
            "incomplete"@,
            Some(JsonV::Object(seq![("reason"@, JsonV::Str("max_output_tokens"@))])),
        ),
        Some(StopReason::ContentFilter) => (
            "incomplete"@,
            Some(JsonV::Object(seq![("reason"@, JsonV::Str("content_filter"@))])),
        ),
        _ => ("completed"@, None),
    }
}

/// The Responses response object of a core response created at `now`.
pub open spec fn responses_object(resp: CoreResponse, now: u64) -> JsonV {
    let st = status_of(resp.stop_reason);
    JsonV::Object(
        seq![
            ("id"@, JsonV::Str(resp.id@)),
            ("object"@, JsonV::Str("response"@)),
            ("created_at"@, JsonV::PosInt(now)),
            ("status"@, JsonV::Str(st.0)),
            ("model"@, JsonV::Str(resp.model@)),
            ("output"@, JsonV::Array(response_output(blocks_view(resp.content@)))),
            ("usage"@, usage_value(resp.usage.input_tokens, resp.usage.output_tokens)),
        ] + match st.1 {
            Some(d) => seq![("incomplete_details"@, d)],
            None => Seq::empty(),
        },
    )
}

fn flush_out(out: &mut Vec<Json>, buf: &mut String, n: &mut usize)
    requires
        old(buf)@.len() > 0 ==> *old(n) < usize::MAX,
    ensures
        (items_view(final(out)@), final(buf)@, *final(n) as nat) == flush_output(
            (items_view(old(out)@), old(buf)@, *old(n) as nat),
        ),
{
    if buf.as_str().unicode_len() > 0 {
        let id = concat_str("msg_", u64_to_dec(*n as u64).as_str());
        let item = message_item(id.as_str(), buf.as_str(), "completed");
        let ghost before = items_view(out@);
        proof {
            lemma_items_view(out@);
        }
        out.push(item);
        proof {
            lemma_items_view(out@);
            assert(items_view(out@) =~= before.push(item@));
        }
        *buf = String::new();
        *n = *n + 1;
    }
}

fn reasoning_output_json(n: usize, text: &String, signature: &Option<String>) -> (r: Json)
    ensures
        r@ == reasoning_output(n as nat, text@, opt_view(*signature)),
{
    let id = concat_str("rs_", u64_to_dec(n as u64).as_str());
    let mut part: Vec<(String, Json)> = Vec::new();
    part.push(jfield("type", Json::Str("summary_text".to_string())));
    part.push(jfield("text", Json::Str(text.clone())));
    proof {
        lemma_fields_view(part@);
    }
    let p = jobject(part);
    let mut summary: Vec<Json> = Vec::new();
    summary.push(p);
    proof {
        lemma_items_view(summary@);
        assert(items_view(summary@) =~= seq![p@]);
    }
    let mut fs: Vec<(String, Json)> = Vec::new();
    fs.push(jfield("type", Json::Str("reasoning".to_string())));
    fs.push(jfield("id", Json::Str(id)));
    fs.push(jfield("summary", Json::Array(summary)));
    if let Some(s) = signature {
        let enc = emit_signature(SIG_OPENAI, s.as_str());
        if enc.as_str().unicode_len() > 0 {
            fs.push(jfield("encrypted_content", Json::Str(enc)));
        }
    }
    proof {
        lemma_fields_view(fs@);
        let exp = reasoning_output(n as nat, text@, opt_view(*signature));
        assert(fields_view(part@) =~= seq![("type"@, JsonV::Str("summary_text"@)), ("text"@, JsonV::Str(text@))]);
        assert(fields_view(fs@) =~= exp->Object_0);
    }
    jobject(fs)
}

impl OpenAiResponsesAdapter {
    /// Core response → Responses response object created at `now` (seconds
    /// since the Unix epoch; see [`responses_object`]).
    pub fn from_core_response_at(&self, _ctx: &ReqCtx, resp: &CoreResponse, now: u64) -> (r: Json)
        requires
            resp.usage.input_tokens + resp.usage.output_tokens <= u32::MAX,
        ensures
            r@ == responses_object(*resp, now),
    {
        proof {
            lemma_blocks_view(resp.content@);
        }
        let ghost bv = blocks_view(resp.content@);
        let mut out: Vec<Json> = Vec::new();
        let mut buf = String::new();
        let mut n: usize = 0;
        proof {
            lemma_items_view(out@);
            assert(items_view(out@) =~= Seq::<JsonV>::empty());
            assert(buf@ =~= Seq::<char>::empty());
        }
        let mut i: usize = 0;
        while i < resp.content.len()
            invariant
                i <= resp.content@.len() == bv.len(),
                bv == blocks_view(resp.content@),
                forall|k: int| 0 <= k < resp.content@.len() ==> #[trigger] bv[k] == block_view(resp.content@[k]),
                n + (if buf@.len() > 0 {
                    1int
                } else {
                    0int
                }) <= i,
                (items_view(out@), buf@, n as nat) == output_run(bv.take(i as int)),
            decreases resp.content@.len() - i,
        {
            proof {
                assert(bv.take(i + 1).drop_last() == bv.take(i as int));
                assert(bv.take(i + 1).last() == bv[i as int]);
            }
            match &resp.content[i] {
                ContentBlock::Text { text } => {
                    buf = concat_str(buf.as_str(), text.as_str());
                },
                ContentBlock::Reasoning { text, signature, .. } => {
                    n = n + 1;
                    let item = reasoning_output_json(n, text, signature);
                    let ghost before = items_view(out@);
                    proof {
                        lemma_items_view(out@);
                    }
                    out.push(item);
                    proof {
                        lemma_items_view(out@);
                        assert(items_view(out@) =~= before.push(item@));
                    }
                },
                ContentBlock::ToolUse { id, name, input, .. } => {
                    flush_out(&mut out, &mut buf, &mut n);
                    let args = json_to_string(input);
                    let item = function_call_item(id.as_str(), name.as_str(), args.as_str(), "completed");
                    let ghost before = items_view(out@);
                    proof {
                        lemma_items_view(out@);
                    }
                    out.push(item);
                    proof {
                        lemma_items_view(out@);
                        assert(items_view(out@) =~= before.push(item@));
                    }
                },
                _ => {},
            }
            i = i + 1;
        }
        proof {
            assert(bv.take(bv.len() as int) == bv);
        }
        flush_out(&mut out, &mut buf, &mut n);
        let (status, incomplete) = match resp.stop_reason {
            Some(StopReason::MaxTokens) => ("incomplete", Some(one1("reason", Json::Str("max_output_tokens".to_string())))),
            Some(StopReason::ContentFilter) => ("incomplete", Some(one1("reason", Json::Str("content_filter".to_string())))),
            _ => ("completed", None),
        };
        let mut fs: Vec<(String, Json)> = Vec::new();
        fs.push(jfield("id", Json::Str(resp.id.clone())));
        fs.push(jfield("object", Json::Str("response".to_string())));
        fs.push(jfield("created_at", Json::Num(JsonNum::PosInt(now))));
        fs.push(jfield("status", Json::Str(status.to_string())));
        fs.push(jfield("model", Json::Str(resp.model.clone())));
        fs.push(jfield("output", Json::Array(out)));
        fs.push(jfield("usage", usage_object(resp.usage.input_tokens, resp.usage.output_tokens)));
        if let Some(d) = incomplete {
            fs.push(jfield("incomplete_details", d));
        }
        proof {
            lemma_fields_view(fs@);
            assert(fields_view(fs@) =~= responses_object(*resp, now)->Object_0);
        }
        jobject(fs)
    }

    /// Core response → Responses response object, created now (see
    /// [`OpenAiResponsesAdapter::from_core_response_at`]).
    pub fn from_core_response(&self, ctx: &ReqCtx, resp: &CoreResponse) -> (r: Json)
        requires
            resp.usage.input_tokens + resp.usage.output_tokens <= u32::MAX,
        ensures
            exists|now: u64| r@ == responses_object(*resp, now),
    {
        let now = now_unix();
        self.from_core_response_at(ctx, resp, now)
    }
}

} // verus!

verus! {

/// Instructions given as an input message go to the system: a `message`
/// item (typed so, or untyped) whose role is `developer` or `system` and whose
/// content is not empty adds that content after the system gathered so far and
/// adds no message; a `user` or `assistant` one adds a message of that role
/// with that content and leaves the system alone.
pub proof fn law_instruction_messages_join_the_system(c: Conv, item: JsonV, role: Seq<char>)
    requires
        item.field("type"@) is None || item.field("type"@) == Some(JsonV::Str("message"@)),
        item.field("role"@) == Some(JsonV::Str(role)),
        message_content(item).len() > 0,
    ensures
        role == "developer"@ || role == "system"@ ==> conv_step(c, item) == (c.0 + message_content(item), c.1),
        role == "user"@ ==> conv_step(c, item) == (c.0, c.1.push((Role::User, message_content(item)))),
        role == "assistant"@ ==> conv_step(c, item) == (c.0, c.1.push((Role::Assistant, message_content(item)))),
{
    reveal_strlit("developer");
    reveal_strlit("system");
    reveal_strlit("user");
    reveal_strlit("assistant");
    reveal_strlit("tool");
    reveal_strlit("message");
    assert("developer"@.len() == 9 && "system"@.len() == 6 && "user"@.len() == 4);
    assert("assistant"@.len() == 9 && "tool"@.len() == 4);
    assert("developer"@[0] != "assistant"@[0]);
    assert("user"@[0] != "tool"@[0]);
    assert(item.field_str("role"@) == Some(role));
}

/// Reading back the `tool_choice` written for the Responses upstream gives the
/// same choice.
pub proof fn law_responses_tool_choice_roundtrip(t: ToolChoiceV)
    ensures
        tool_choice_of(crate::protocol::responses_provider::tool_choice_value(t)) == Some(t),
{
    reveal_strlit("auto");
    reveal_strlit("none");
    reveal_strlit("required");
    reveal_strlit("type");
    reveal_strlit("function");
    reveal_strlit("name");
    assert("auto"@[0] != "none"@[0]);
    assert("auto"@.len() != "required"@.len() && "none"@.len() != "required"@.len());
    assert("type"@.len() != "name"@.len() || "type"@[0] != "name"@[0]);
    if let ToolChoiceV::Tool { name } = t {
        let fs = crate::protocol::responses_provider::tool_choice_value(t)->Object_0;
        assert(fs[0].0 == "type"@);
        assert(find_field(fs, "type"@) == Some(JsonV::Str("function"@)));
        assert(fs.drop_first()[0].0 == "name"@);
        assert(find_field(fs, "name"@) == find_field(fs.drop_first(), "name"@));
    }
}

/// Reading back a tool written for the Responses upstream gives the same
/// tool.
pub proof fn law_responses_tool_roundtrip(t: ToolV)
    ensures
        tool_of(crate::protocol::responses_provider::responses_tool(t)) == Some(t),
{
    reveal_strlit("type");
    reveal_strlit("name");
    reveal_strlit("parameters");
    reveal_strlit("description");
    assert("type"@[0] != "name"@[0] && "type"@[0] != "parameters"@[0] && "type"@[0] != "description"@[0]);
    assert("name"@[0] != "parameters"@[0] && "name"@[0] != "description"@[0]);
    assert("parameters"@[0] != "description"@[0]);
    let fs = crate::protocol::responses_provider::responses_tool(t)->Object_0;
    crate::json::lemma_find_field_at(fs, "name"@, 1);
    crate::json::lemma_find_field_at(fs, "parameters"@, 2);
    match t.description {
        Some(d) => {
            crate::json::lemma_find_field_at(fs, "description"@, 3);
        },
        None => {
            crate::json::lemma_find_field_absent(fs, "description"@);
        },
    }
}

/// An encrypted reasoning item coming in from a Responses client goes back to
/// a Responses upstream as the same encrypted reasoning: for a non-empty
/// credential `e` that carries no origin tag, the item
/// `{type: reasoning, summary: [], encrypted_content: e}` becomes an assistant
/// reasoning block, and that block becomes the input item
/// `{type: reasoning, summary: [], encrypted_content: e}` again.
pub proof fn law_encrypted_reasoning_roundtrip(e: Seq<char>, nss: Seq<(Seq<char>, Seq<char>)>)
    requires
        e.len() > 0,
        !crate::protocol::signature::is_tagged(e),
    ensures
        ({
            let item = JsonV::Object(
                seq![
                    ("type"@, JsonV::Str("reasoning"@)),
                    ("summary"@, JsonV::Array(Seq::empty())),
                    ("encrypted_content"@, JsonV::Str(e)),
                ],
            );
            let c = conv_step((Seq::empty(), Seq::empty()), item);
            &&& c.1.len() == 1
            &&& c.1[0].0 == Role::Assistant
            &&& crate::protocol::responses_provider::message_input(c.1[0].0, c.1[0].1, nss) == seq![
                crate::protocol::responses_provider::reasoning_item(e),
            ]
        }),
{
    reveal_strlit("type");
    reveal_strlit("summary");
    reveal_strlit("content");
    reveal_strlit("encrypted_content");
    reveal_strlit("reasoning");
    reveal_strlit("message");
    reveal_strlit("function_call");
    reveal_strlit("function_call_output");
    reveal_strlit("_call");
    reveal_strlit("_call_output");
    let item = JsonV::Object(
        seq![
            ("type"@, JsonV::Str("reasoning"@)),
            ("summary"@, JsonV::Array(Seq::empty())),
            ("encrypted_content"@, JsonV::Str(e)),
        ],
    );
    let fs = item->Object_0;
    assert("type"@[0] != "summary"@[0] && "type"@[0] != "encrypted_content"@[0] && "summary"@[0] != "encrypted_content"@[0]);
    assert("content"@[0] != "type"@[0] && "content"@[0] != "summary"@[0] && "content"@[0] != "encrypted_content"@[0]);
    crate::json::lemma_find_field_at(fs, "type"@, 0);
    crate::json::lemma_find_field_at(fs, "summary"@, 1);
    crate::json::lemma_find_field_at(fs, "encrypted_content"@, 2);
    crate::json::lemma_find_field_absent(fs, "content"@);
    assert(item.field_str("type"@) == Some("reasoning"@));
    assert("reasoning"@[0] != "message"@[0]);
    assert("reasoning"@[0] != "function_call"@[0]);
    assert("reasoning"@[0] != "function_call_output"@[0]);
    assert(!has_suffix("reasoning"@, "_call"@)) by {
        assert("reasoning"@.skip(4)[0] != "_call"@[0]);
    }
    assert(!has_suffix("reasoning"@, "_call_output"@));
    assert(array_texts(item, "summary"@) == Seq::<char>::empty()) by {
        assert(item_texts(Seq::<JsonV>::empty()) == Seq::<char>::empty());
    }
    assert(array_texts(item, "content"@) == Seq::<char>::empty());
    assert(reasoning_text(item) =~= Seq::<char>::empty());
    crate::protocol::signature::law_tag_untag_roundtrip(SIG_OPENAI@, e);
    let sig = tag_spec(SIG_OPENAI@, Some(e));
    let b = BlockV::Reasoning { text: Seq::empty(), signature: sig, redacted: false };
    let c = conv_step((Seq::empty(), Seq::empty()), item);
    assert(c.1 =~= seq![(Role::Assistant, seq![b])]);
    let bs = seq![b];
    assert(bs.drop_last() =~= Seq::<BlockV>::empty());
    let st0 = crate::protocol::responses_provider::input_run(Seq::<BlockV>::empty(), Role::Assistant, nss);
    assert(st0 == (Seq::<JsonV>::empty(), Seq::<JsonV>::empty()));
    let st1 = crate::protocol::responses_provider::input_run(bs, Role::Assistant, nss);
    assert(st1 == crate::protocol::responses_provider::input_step(st0, b, Role::Assistant, nss));
    assert(crate::protocol::responses_provider::message_input(Role::Assistant, bs, nss) =~= seq![
        crate::protocol::responses_provider::reasoning_item(e),
    ]);
}

} // verus!
