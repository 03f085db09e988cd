//! OpenAI Responses: paths, event names, and the output objects the gateway
//! writes.
pub mod event;

use vstd::prelude::*;
use crate::json::{fields_view, items_view, lemma_fields_view, lemma_items_view, Json, JsonNum, JsonV};
use crate::protocol::chat::{count_of, nested_count, read_count, read_nested_count};
use crate::protocol::ir::Usage;

verus! {

/// The `object` of a response.
pub const OBJECT_RESPONSE: &'static str = "response";

/// Path of the Responses API below a base URL.
pub const RESPONSES_PATH: &'static str = "/v1/responses";

/// `max_output_tokens` when the request sets none.
pub const DEFAULT_MAX_OUTPUT_TOKENS: u32 = 4096;

fn object_of(fs: Vec<(String, Json)>) -> (r: Json)
    ensures
        r@ == JsonV::Object(fields_view(fs@)),
{
    Json::Object(fs)
}

pub(crate) fn push_field(fs: &mut Vec<(String, Json)>, k: &str, v: Json)
    ensures
        fields_view(final(fs)@) == fields_view(old(fs)@).push((k@, v@)),
{
    let ghost before = fs@;
    fs.push((k.to_string(), v));
    proof {
        lemma_fields_view(before);
        lemma_fields_view(fs@);
        assert(fields_view(fs@) =~= fields_view(before).push((k@, v@)));
    }
}

/// The response object of `response.created` / `response.completed` before
/// any output: id, object, creation time zero, status, model, no output and
/// no usage.
pub open spec fn skeleton(id: Seq<char>, model: Seq<char>, status: Seq<char>) -> JsonV {
    JsonV::Object(
        seq![
            ("id"@, JsonV::Str(id)),
            ("object"@, JsonV::Str("response"@)),
            ("created_at"@, JsonV::PosInt(0)),
            ("status"@, JsonV::Str(status)),
            ("model"@, JsonV::Str(model)),
            ("output"@, JsonV::Array(Seq::empty())),
            ("usage"@, JsonV::Null),
        ],
    )
}

/// A response skeleton (see [`skeleton`]).
pub fn response_skeleton(id: &str, model: &str, status: &str) -> (r: Json)
    ensures
        r@ == skeleton(id@, model@, status@),
{
    let mut fs: Vec<(String, Json)> = Vec::new();
    proof {
        assert(fields_view(fs@) =~= Seq::<(Seq<char>, JsonV)>::empty());
    }
    push_field(&mut fs, "id", Json::Str(id.to_string()));
    push_field(&mut fs, "object", Json::Str(OBJECT_RESPONSE.to_string()));
    push_field(&mut fs, "created_at", Json::Num(JsonNum::PosInt(0)));
    push_field(&mut fs, "status", Json::Str(status.to_string()));
    push_field(&mut fs, "model", Json::Str(model.to_string()));
    let empty: Vec<Json> = Vec::new();
    proof {
        assert(items_view(empty@) =~= Seq::<JsonV>::empty());
    }
    push_field(&mut fs, "output", Json::Array(empty));
    push_field(&mut fs, "usage", Json::Null);
    proof {
        assert(fields_view(fs@) =~= skeleton(id@, model@, status@)->Object_0);
    }
    object_of(fs)
}

/// An assistant message output item holding one output text.
pub open spec fn message_item_value(id: Seq<char>, text: Seq<char>, status: Seq<char>) -> JsonV {
    JsonV::Object(
        seq![
            ("type"@, JsonV::Str("message"@)),
            ("id"@, JsonV::Str(id)),
            ("role"@, JsonV::Str("assistant"@)),
            ("status"@, JsonV::Str(status)),
            ("content"@, JsonV::Array(
                seq![JsonV::Object(
                    seq![
                        ("type"@, JsonV::Str("output_text"@)),
                        ("text"@, JsonV::Str(text)),
                        ("annotations"@, JsonV::Array(Seq::empty())),
                    ],
                )],
            )),
        ],
    )
}

/// An assistant message output item (see [`message_item_value`]).
pub fn message_item(id: &str, text: &str, status: &str) -> (r: Json)
    ensures
        r@ == message_item_value(id@, text@, status@),
{
    let mut part: Vec<(String, Json)> = Vec::new();
    proof {
        assert(fields_view(part@) =~= Seq::<(Seq<char>, JsonV)>::empty());
    }
    push_field(&mut part, "type", Json::Str("output_text".to_string()));
    push_field(&mut part, "text", Json::Str(text.to_string()));
    let none: Vec<Json> = Vec::new();
    proof {
        assert(items_view(none@) =~= Seq::<JsonV>::empty());
    }
    push_field(&mut part, "annotations", Json::Array(none));
    proof {
        assert(fields_view(part@) =~= seq![
            ("type"@, JsonV::Str("output_text"@)),
            ("text"@, JsonV::Str(text@)),
            ("annotations"@, JsonV::Array(Seq::empty())),
        ]);
    }
    let p = object_of(part);
    let mut content: Vec<Json> = Vec::new();
    content.push(p);
    proof {
        lemma_items_view(content@);
        assert(items_view(content@) =~= seq![p@]);
    }
    let mut fs: Vec<(String, Json)> = Vec::new();
    proof {
        assert(fields_view(fs@) =~= Seq::<(Seq<char>, JsonV)>::empty());
    }
    push_field(&mut fs, "type", Json::Str("message".to_string()));
    push_field(&mut fs, "id", Json::Str(id.to_string()));
    push_field(&mut fs, "role", Json::Str("assistant".to_string()));
    push_field(&mut fs, "status", Json::Str(status.to_string()));
    push_field(&mut fs, "content", Json::Array(content));
    proof {
        let exp = message_item_value(id@, text@, status@);
        assert(p@ == exp->Object_0[4].1->Array_0[0]);
        assert(fields_view(fs@) =~= exp->Object_0);
    }
    object_of(fs)
}

/// A function call output item.
pub open spec fn function_call_item_value(
    call_id: Seq<char>,
    name: Seq<char>,
    arguments: Seq<char>,
    status: Seq<char>,
) -> JsonV {
    JsonV::Object(
        seq![
            ("type"@, JsonV::Str("function_call"@)),
            ("call_id"@, JsonV::Str(call_id)),
            ("name"@, JsonV::Str(name)),
            ("arguments"@, JsonV::Str(arguments)),
            ("status"@, JsonV::Str(status)),
        ],
    )
}

/// A function call output item (see [`function_call_item_value`]).
pub fn function_call_item(call_id: &str, name: &str, arguments: &str, status: &str) -> (r: Json)
    ensures
        r@ == function_call_item_value(call_id@, name@, arguments@, status@),
{
    let mut fs: Vec<(String, Json)> = Vec::new();
    proof {
        assert(fields_view(fs@) =~= Seq::<(Seq<char>, JsonV)>::empty());
    }
    push_field(&mut fs, "type", Json::Str("function_call".to_string()));
    push_field(&mut fs, "call_id", Json::Str(call_id.to_string()));
    push_field(&mut fs, "name", Json::Str(name.to_string()));
    push_field(&mut fs, "arguments", Json::Str(arguments.to_string()));
    push_field(&mut fs, "status", Json::Str(status.to_string()));
    proof {
        assert(fields_view(fs@) =~= function_call_item_value(call_id@, name@, arguments@, status@)->Object_0);
    }
    object_of(fs)
}

/// A Responses usage object: input, output, and their total.
pub open spec fn usage_value(input_tokens: u32, output_tokens: u32) -> JsonV {
    JsonV::Object(
        seq![
            ("input_tokens"@, JsonV::PosInt(input_tokens as u64)),
            ("output_tokens"@, JsonV::PosInt(output_tokens as u64)),
            ("total_tokens"@, JsonV::PosInt((input_tokens + output_tokens) as u64)),
        ],
    )
}

/// A Responses usage object (see [`usage_value`]); the total is a `u32` sum.
pub fn usage_object(input_tokens: u32, output_tokens: u32) -> (r: Json)
    requires
        input_tokens + output_tokens <= u32::MAX,
    ensures
        r@ == usage_value(input_tokens, output_tokens),
{
    let total: u32 = input_tokens + output_tokens;
    let mut fs: Vec<(String, Json)> = Vec::new();
    proof {
        assert(fields_view(fs@) =~= Seq::<(Seq<char>, JsonV)>::empty());
    }
    push_field(&mut fs, "input_tokens", Json::Num(JsonNum::PosInt(input_tokens as u64)));
    push_field(&mut fs, "output_tokens", Json::Num(JsonNum::PosInt(output_tokens as u64)));
    push_field(&mut fs, "total_tokens", Json::Num(JsonNum::PosInt(total as u64)));
    proof {
        assert(fields_view(fs@) =~= usage_value(input_tokens, output_tokens)->Object_0);
    }
    object_of(fs)
}

/// Responses usage → core usage: input and output tokens, cached input
/// tokens and reasoning tokens, each the low 32 bits of the number and zero
/// when absent; no cache writes.
pub open spec fn responses_usage(v: JsonV) -> Usage {
    Usage {
        input_tokens: count_of(v, "input_tokens"@),
        output_tokens: count_of(v, "output_tokens"@),
        cache_read_tokens: nested_count(v, "input_tokens_details"@, "cached_tokens"@),
        cache_write_tokens: 0,
        reasoning_tokens: nested_count(v, "output_tokens_details"@, "reasoning_tokens"@),
    }
}

/// Responses usage → core usage (see [`responses_usage`]).
pub fn usage_from_value(v: &Json) -> (r: Usage)
    ensures
        r == responses_usage(v@),
{
    Usage {
        input_tokens: read_count(v, "input_tokens"),
        output_tokens: read_count(v, "output_tokens"),
        cache_read_tokens: read_nested_count(v, "input_tokens_details", "cached_tokens"),
        cache_write_tokens: 0,
        reasoning_tokens: read_nested_count(v, "output_tokens_details", "reasoning_tokens"),
    }
}

} // verus!
