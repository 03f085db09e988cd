//! Anthropic Messages: constants, stop reasons, usage, and the conversions
//! between Anthropic content blocks and core blocks.
use vstd::prelude::*;
use crate::json::{fields_view, lemma_fields_view, Json, JsonNum, JsonV};
use crate::protocol::ir::{StopReason, Usage};
use crate::text::str_eq;

verus! {

/// The default `anthropic-version` header.
pub const DEFAULT_VERSION: &'static str = "2023-06-01";

/// Path of the Messages API below a base URL.
pub const MESSAGES_PATH: &'static str = "/v1/messages";

/// `max_tokens` when neither the client nor the model table sets one
/// (Anthropic requires it).
pub const DEFAULT_MAX_TOKENS: u32 = 4096;

/// The stop reason of an Anthropic `stop_reason`.
pub open spec fn stop_reason_of(s: Seq<char>) -> Option<StopReason> {
    if s == "end_turn"@ {
        Some(StopReason::EndTurn)
    } else if s == "max_tokens"@ {
        Some(StopReason::MaxTokens)
    } else if s == "stop_sequence"@ {
        Some(StopReason::StopSequence)
    } else if s == "tool_use"@ {
        Some(StopReason::ToolUse)
    } else {
        None
    }
}

/// Anthropic `stop_reason` → stop reason.
pub fn map_stop_reason(s: &str) -> (r: Option<StopReason>)
    ensures
        r == stop_reason_of(s@),
{
    if str_eq(s, "end_turn") {
        Some(StopReason::EndTurn)
    } else if str_eq(s, "max_tokens") {
        Some(StopReason::MaxTokens)
    } else if str_eq(s, "stop_sequence") {
        Some(StopReason::StopSequence)
    } else if str_eq(s, "tool_use") {
        Some(StopReason::ToolUse)
    } else {
        None
    }
}

/// The Anthropic `stop_reason` of a stop reason (a content filter or refusal
/// stop is reported as an end of turn).
pub open spec fn stop_reason_name(r: StopReason) -> Seq<char> {
    match r {
        StopReason::EndTurn => "end_turn"@,
        StopReason::MaxTokens => "max_tokens"@,
        StopReason::StopSequence => "stop_sequence"@,
        StopReason::ToolUse => "tool_use"@,
        StopReason::ContentFilter => "end_turn"@,
        StopReason::Refusal => "end_turn"@,
    }
}

/// Stop reason → Anthropic `stop_reason`.
pub fn unmap_stop_reason(r: StopReason) -> (s: &'static str)
    ensures
        s@ == stop_reason_name(r),
{
    match r {
        StopReason::EndTurn => "end_turn",
        StopReason::MaxTokens => "max_tokens",
        StopReason::StopSequence => "stop_sequence",
        StopReason::ToolUse => "tool_use",
        StopReason::ContentFilter => "end_turn",
        StopReason::Refusal => "end_turn",
    }
}

/// An Anthropic usage object of a core usage. Core input tokens include
/// cache reads and writes; Anthropic's do not, so they are taken out
/// (saturating at zero).
pub open spec fn usage_out_value(u: Usage) -> JsonV {
    let cached = u.cache_read_tokens + u.cache_write_tokens;
    JsonV::Object(
        seq![
            ("input_tokens"@, JsonV::PosInt(
                (if u.input_tokens >= cached {
                    u.input_tokens - cached
                } else {
                    0
                }) as u64,
            )),
            ("output_tokens"@, JsonV::PosInt(u.output_tokens as u64)),
            ("cache_read_input_tokens"@, JsonV::PosInt(u.cache_read_tokens as u64)),
            ("cache_creation_input_tokens"@, JsonV::PosInt(u.cache_write_tokens as u64)),
        ],
    )
}

/// The Anthropic usage object (see [`usage_out_value`]); the cache counts are
/// summed as a `u32`.
pub fn anthropic_usage_out(u: &Usage) -> (r: Json)
    requires
        u.cache_read_tokens + u.cache_write_tokens <= u32::MAX,
    ensures
        r@ == usage_out_value(*u),
{
    let cached: u32 = u.cache_read_tokens + u.cache_write_tokens;
    let input = u.input_tokens.saturating_sub(cached);
    let mut fs: Vec<(String, Json)> = Vec::new();
    fs.push(("input_tokens".to_string(), Json::Num(JsonNum::PosInt(input as u64))));
    fs.push(("output_tokens".to_string(), Json::Num(JsonNum::PosInt(u.output_tokens as u64))));
    fs.push(("cache_read_input_tokens".to_string(), Json::Num(JsonNum::PosInt(u.cache_read_tokens as u64))));
    fs.push(("cache_creation_input_tokens".to_string(), Json::Num(JsonNum::PosInt(u.cache_write_tokens as u64))));
    proof {
        lemma_fields_view(fs@);
        assert(fields_view(fs@) =~= usage_out_value(*u)->Object_0);
    }
    Json::Object(fs)
}

} // verus!
