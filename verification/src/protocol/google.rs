//! Google Generative AI (Gemini): request paths, finish reasons, usage, and
//! the conversions between Gemini and the core representation shared by the
//! client and provider sides.
use vstd::prelude::*;
use crate::json::{fields_view, items_view, json_view, lemma_fields_view, lemma_items_view, Json, JsonNum, JsonV};
use crate::protocol::chat::{plain_text, str_or_empty};
use crate::protocol::ir::{message_view, block_view, blocks_view, lemma_blocks_view, lemma_blocks_view_push, opt_view, tool_choice_view, tool_view, BlockV, ContentBlock, Message, Role, StopReason, Tool, ToolChoice, ToolChoiceV, ToolV, Usage};
use crate::text::{chars_of, concat_str, dec, has_prefix, skip_str, slice_chars, str_eq, str_starts_with, string_of, u64_to_dec};
use crate::json::{json_text, json_to_string, with_field, with_member};
use crate::protocol::ir::{CoreRequest, DocSource};
use crate::protocol::reasoning::{clamped_budget, clamped_thinking_budget, effort_of, reasoning_effort};
use crate::protocol::signature::{tag_signature, tag_spec, untag_signature, untag_spec, SIG_GEMINI};

verus! {

/// API version segment used when none is configured.
pub const DEFAULT_VERSION: &'static str = "v1beta";

/// The stop reason of a Gemini `finishReason`.
pub open spec fn finish_reason_of(s: Seq<char>) -> Option<StopReason> {
    if s == "MAX_TOKENS"@ {
        Some(StopReason::MaxTokens)
    } else if s == "SAFETY"@ || s == "RECITATION"@ || s == "PROHIBITED_CONTENT"@ || s == "BLOCKLIST"@
        || s == "SPII"@ {
        Some(StopReason::ContentFilter)
    } else if s == "STOP"@ || s == "LANGUAGE"@ || s == "OTHER"@ || s == "MALFORMED_FUNCTION_CALL"@ {
        Some(StopReason::EndTurn)
    } else {
        None
    }
}

/// `finishReason` → stop reason.
pub fn map_finish_reason(s: &str) -> (r: Option<StopReason>)
    ensures
        r == finish_reason_of(s@),
{
    if str_eq(s, "MAX_TOKENS") {
        Some(StopReason::MaxTokens)
    } else if str_eq(s, "SAFETY") || str_eq(s, "RECITATION") || str_eq(s, "PROHIBITED_CONTENT")
        || str_eq(s, "BLOCKLIST") || str_eq(s, "SPII") {
        Some(StopReason::ContentFilter)
    } else if str_eq(s, "STOP") || str_eq(s, "LANGUAGE") || str_eq(s, "OTHER") || str_eq(
        s,
        "MALFORMED_FUNCTION_CALL",
    ) {
        Some(StopReason::EndTurn)
    } else {
        None
    }
}

/// The `finishReason` of a stop reason.
pub open spec fn finish_reason_name(r: Option<StopReason>) -> Seq<char> {
    match r {
        Some(StopReason::MaxTokens) => "MAX_TOKENS"@,
        Some(StopReason::ContentFilter) => "SAFETY"@,
        Some(StopReason::Refusal) => "SAFETY"@,
        _ => "STOP"@,
    }
}

/// Stop reason → `finishReason`.
pub fn unmap_stop_reason(r: Option<StopReason>) -> (s: &'static str)
    ensures
        s@ == finish_reason_name(r),
{
    match r {
        Some(StopReason::MaxTokens) => "MAX_TOKENS",
        Some(StopReason::ContentFilter) => "SAFETY",
        Some(StopReason::Refusal) => "SAFETY",
        _ => "STOP",
    }
}

/// `s` without leading `/` characters.
pub open spec fn strip_leading_slashes(s: Seq<char>) -> Seq<char>
    decreases s.len(),
{
    if s.len() > 0 && s[0] == '/' {
        strip_leading_slashes(s.drop_first())
    } else {
        s
    }
}

/// `s` without trailing `/` characters.
pub open spec fn strip_trailing_slashes(s: Seq<char>) -> Seq<char>
    decreases s.len(),
{
    if s.len() > 0 && s.last() == '/' {
        strip_trailing_slashes(s.drop_last())
    } else {
        s
    }
}

/// `s` without leading and trailing `/` (`str::trim_matches('/')`).
pub open spec fn trim_slashes(s: Seq<char>) -> Seq<char> {
    strip_trailing_slashes(strip_leading_slashes(s))
}

proof fn lemma_strip_leading(s: Seq<char>, i: int)
    requires
        0 <= i <= s.len(),
        forall|k: int| 0 <= k < i ==> #[trigger] s[k] == '/',
    ensures
        strip_leading_slashes(s) == strip_leading_slashes(s.skip(i)),
    decreases i,
{
    if i == 0 {
        assert(s.skip(0) == s);
    } else {
        let t = s.drop_first();
        assert forall|k: int| 0 <= k < i - 1 implies #[trigger] t[k] == '/' by {
            assert(t[k] == s[k + 1]);
        }
        lemma_strip_leading(t, i - 1);
        assert(t.skip(i - 1) == s.skip(i));
    }
}

proof fn lemma_strip_trailing(s: Seq<char>, j: int)
    requires
        0 <= j <= s.len(),
        forall|k: int| j <= k < s.len() ==> #[trigger] s[k] == '/',
    ensures
        strip_trailing_slashes(s) == strip_trailing_slashes(s.take(j)),
    decreases s.len() - j,
{
    if j == s.len() {
        assert(s.take(j) == s);
    } else {
        let t = s.drop_last();
        assert forall|k: int| j <= k < t.len() implies #[trigger] t[k] == '/' by {
            assert(t[k] == s[k]);
        }
        lemma_strip_trailing(t, j);
        assert(t.take(j) == s.take(j));
    }
}

/// `s` without trailing `/` (`str::trim_end_matches('/')`).
pub(crate) fn trim_end_slashes(s: &str) -> (r: String)
    ensures
        r@ == strip_trailing_slashes(s@),
{
    let cs = chars_of(s);
    let n = cs.len();
    let mut j: usize = n;
    while j > 0 && cs[j - 1] == '/'
        invariant
            j <= n == cs@.len(),
            cs@ == s@,
            forall|k: int| j <= k < n ==> #[trigger] cs@[k] == '/',
        decreases j,
    {
        j = j - 1;
    }
    proof {
        lemma_strip_trailing(cs@, j as int);
        let u = cs@.take(j as int);
        assert(u == cs@.subrange(0, j as int));
        if u.len() > 0 {
            assert(u.last() == cs@[j - 1]);
        }
    }
    string_of(slice_chars(&cs, 0, j).as_slice())
}

fn trim_slashes_str(s: &str) -> (r: String)
    ensures
        r@ == trim_slashes(s@),
{
    let cs = chars_of(s);
    let n = cs.len();
    let mut i: usize = 0;
    while i < n && cs[i] == '/'
        invariant
            i <= n == cs@.len(),
            cs@ == s@,
            forall|k: int| 0 <= k < i ==> #[trigger] cs@[k] == '/',
        decreases n - i,
    {
        i = i + 1;
    }
    proof {
        lemma_strip_leading(cs@, i as int);
    }
    let ghost t = cs@.skip(i as int);
    assert(strip_leading_slashes(t) == t);
    let mut j: usize = n;
    while j > i && cs[j - 1] == '/'
        invariant
            i <= j <= n == cs@.len(),
            t == cs@.skip(i as int),
            forall|k: int| j - i <= k < t.len() ==> #[trigger] t[k] == '/',
        decreases j,
    {
        assert(t[j - 1 - i] == cs@[j - 1]);
        j = j - 1;
    }
    proof {
        lemma_strip_trailing(t, j - i);
        assert(t.take(j - i) == cs@.subrange(i as int, j as int));
        let u = cs@.subrange(i as int, j as int);
        if u.len() > 0 {
            assert(u.last() == cs@[j - 1]);
        }
    }
    string_of(slice_chars(&cs, i, j).as_slice())
}

/// The `generateContent` path of a model.
pub open spec fn generate_path_of(version: Seq<char>, model: Seq<char>) -> Seq<char> {
    "/"@ + trim_slashes(version) + "/models/"@ + model + ":generateContent"@
}

/// The `streamGenerateContent` path of a model (standard SSE via `alt=sse`).
pub open spec fn stream_path_of(version: Seq<char>, model: Seq<char>) -> Seq<char> {
    "/"@ + trim_slashes(version) + "/models/"@ + model + ":streamGenerateContent?alt=sse"@
}

/// `/{version}/models/{model}:generateContent`, the version stripped of `/`.
pub fn generate_path(version: &str, model: &str) -> (r: String)
    ensures
        r@ == generate_path_of(version@, model@),
{
    let v = trim_slashes_str(version);
    let a = concat_str("/", v.as_str());
    let b = concat_str(a.as_str(), "/models/");
    let c = concat_str(b.as_str(), model);
    concat_str(c.as_str(), ":generateContent")
}

/// `/{version}/models/{model}:streamGenerateContent?alt=sse`.
pub fn stream_path(version: &str, model: &str) -> (r: String)
    ensures
        r@ == stream_path_of(version@, model@),
{
    let v = trim_slashes_str(version);
    let a = concat_str("/", v.as_str());
    let b = concat_str(a.as_str(), "/models/");
    let c = concat_str(b.as_str(), model);
    concat_str(c.as_str(), ":streamGenerateContent?alt=sse")
}

/// The plain text of content blocks: the texts of the text blocks, joined.
pub fn text_of(blocks: &[ContentBlock]) -> (r: String)
    ensures
        r@ == plain_text(blocks_view(blocks@)),
{
    crate::protocol::chat::text_of(blocks)
}

/// `v[key]` as a count: a non-negative integer, cut to 32 bits, else zero.
pub open spec fn count_of(v: JsonV, key: Seq<char>) -> u32 {
    match v.field_u64(key) {
        Some(u) => u as u32,
        None => 0,
    }
}

fn read_count(v: &Json, key: &str) -> (r: u32)
    ensures
        r == count_of(v@, key@),
{
    match v.get_u64(key) {
        Some(u) => u as u32,
        None => 0,
    }
}

/// Gemini `usageMetadata` → core usage: prompt, candidate, cached-content and
/// thought token counts (each zero when absent).
pub open spec fn gemini_usage(v: JsonV) -> Usage {
    Usage {
        input_tokens: count_of(v, "promptTokenCount"@),
        output_tokens: count_of(v, "candidatesTokenCount"@),
        cache_read_tokens: count_of(v, "cachedContentTokenCount"@),
        cache_write_tokens: 0,
        reasoning_tokens: count_of(v, "thoughtsTokenCount"@),
    }
}

/// Gemini `usageMetadata` → core usage (see [`gemini_usage`]).
pub fn usage_from_gemini(v: &Json) -> (r: Usage)
    ensures
        r == gemini_usage(v@),
{
    Usage {
        input_tokens: read_count(v, "promptTokenCount"),
        output_tokens: read_count(v, "candidatesTokenCount"),
        cache_read_tokens: read_count(v, "cachedContentTokenCount"),
        cache_write_tokens: 0,
        reasoning_tokens: read_count(v, "thoughtsTokenCount"),
    }
}

/// The Gemini `usageMetadata` of a core usage.
pub open spec fn gemini_usage_value(u: Usage) -> JsonV {
    JsonV::Object(
        seq![
            ("promptTokenCount"@, JsonV::PosInt(u.input_tokens as u64)),
            ("candidatesTokenCount"@, JsonV::PosInt(u.output_tokens as u64)),
            ("totalTokenCount"@, JsonV::PosInt((u.input_tokens + u.output_tokens) as u64)),
            ("thoughtsTokenCount"@, JsonV::PosInt(u.reasoning_tokens as u64)),
        ],
    )
}

/// The Gemini `usageMetadata` object: prompt, candidate, total and thought
/// token counts.
pub fn usage_object(u: &Usage) -> (r: Json)
    requires
        u.input_tokens + u.output_tokens <= u32::MAX,
    ensures
        r@ == gemini_usage_value(*u),
{
    let total: u32 = u.input_tokens + u.output_tokens;
    let mut fs: Vec<(String, Json)> = Vec::new();
    fs.push(("promptTokenCount".to_string(), Json::Num(JsonNum::PosInt(u.input_tokens as u64))));
    fs.push(("candidatesTokenCount".to_string(), Json::Num(JsonNum::PosInt(u.output_tokens as u64))));
    fs.push(("totalTokenCount".to_string(), Json::Num(JsonNum::PosInt(total as u64))));
    fs.push(("thoughtsTokenCount".to_string(), Json::Num(JsonNum::PosInt(u.reasoning_tokens as u64))));
    proof {
        lemma_fields_view(fs@);
        assert(fields_view(fs@) =~= gemini_usage_value(*u)->Object_0);
    }
    Json::Object(fs)
}

/// The tool name that carries Gemini's server-side code execution
/// (`executableCode` / `codeExecutionResult` parts) in core form.
pub const EXEC_CODE: &'static str = "executable_code";

/// Placeholder id of a `functionCall` without an id, replaced when the
/// contents are paired up.
pub const FCALL_PENDING: &'static str = "__gemini_fcall__";

/// Prefix of the placeholder call id of a `functionResponse` without an id
/// (followed by the function name).
pub const FR_NAME_PREFIX: &'static str = "__gemini_fres__:";

/// The readable text of a `functionResponse.response`: a string as itself; of
/// an object, the first of `result`, `output`, `content` that is a string,
/// else its JSON text; nothing for `null`; JSON text otherwise.
pub open spec fn response_text(v: JsonV) -> Seq<char> {
    match v {
        JsonV::Str(s) => s,
        JsonV::Null => Seq::empty(),
        JsonV::Object(_) => match v.field_str("result"@) {
            Some(s) => s,
            None => match v.field_str("output"@) {
                Some(s) => s,
                None => match v.field_str("content"@) {
                    Some(s) => s,
                    None => json_text(v),
                },
            },
        },
        _ => json_text(v),
    }
}

fn resp_to_text(v: &Json) -> (r: String)
    ensures
        r@ == response_text(v@),
{
    match v {
        Json::Str(s) => s.clone(),
        Json::Null => String::new(),
        Json::Object(_) => {
            if let Some(s) = v.get_str("result") {
                return s.to_string();
            }
            if let Some(s) = v.get_str("output") {
                return s.to_string();
            }
            if let Some(s) = v.get_str("content") {
                return s.to_string();
            }
            json_to_string(v)
        },
        _ => json_to_string(v),
    }
}

/// A reasoning block that only carries a credential.
pub open spec fn carrier(sig: Option<Seq<char>>) -> Seq<BlockV> {
    match sig {
        Some(s) => seq![BlockV::Reasoning { text: Seq::empty(), signature: Some(s), redacted: false }],
        None => Seq::empty(),
    }
}

/// `p[key]`, falling back to `q[key]` when `p` has no such member, as a
/// string.
pub open spec fn str_either(p: JsonV, q: JsonV, key: Seq<char>) -> Option<Seq<char>> {
    match p.field(key) {
        Some(v) => v.str_of(),
        None => q.field_str(key),
    }
}

/// `v[key]` when it is a non-empty string.
pub open spec fn nonempty_str(v: JsonV, key: Seq<char>) -> Option<Seq<char>> {
    match v.field_str(key) {
        Some(s) => if s.len() > 0 {
            Some(s)
        } else {
            None
        },
        None => None,
    }
}

/// The text and credential blocks of a part: a thought part's text is
/// reasoning carrying the part's credential; other text is text, followed by
/// a credential carrier when the part is signed; a signed part without text
/// (and without a call) keeps its credential in a carrier.
pub open spec fn part_text_blocks(p: JsonV) -> Seq<BlockV> {
    let signature = tag_spec(SIG_GEMINI@, p.field_str("thoughtSignature"@));
    let thought = p.field("thought"@) matches Some(JsonV::Bool(true));
    match p.field_str("text"@) {
        Some(t) => if t.len() > 0 {
            if thought {
                seq![BlockV::Reasoning { text: t, signature, redacted: false }]
            } else {
                seq![BlockV::Text { text: t }] + carrier(signature)
            }
        } else {
            carrier(signature)
        },
        None => if p.field("functionCall"@) is None && p.field("executableCode"@) is None {
            carrier(signature)
        } else {
            Seq::empty()
        },
    }
}

/// The blocks of a `functionCall` part: a credential carrier when signed,
/// then the tool use (a placeholder id when the call has none; `{}` when no
/// arguments).
pub open spec fn part_call_blocks(p: JsonV) -> Seq<BlockV> {
    match p.field("functionCall"@) {
        Some(fc) => {
            let sig = tag_spec(SIG_GEMINI@, str_either(p, fc, "thoughtSignature"@));
            carrier(sig) + seq![
                BlockV::ToolUse {
                    id: match nonempty_str(fc, "id"@) {
                        Some(i) => i,
                        None => FCALL_PENDING@,
                    },
                    name: str_or_empty(fc, "name"@),
                    namespace: None,
                    input: match fc.field("args"@) {
                        Some(a) => a,
                        None => JsonV::Object(Seq::empty()),
                    },
                    signature: sig,
                },
            ]
        },
        None => Seq::empty(),
    }
}

/// The block of a `functionResponse` part: a tool result with the response's
/// readable text, for the response's id or else a placeholder naming the
/// function, an error when the response says `is_error: true`.
pub open spec fn part_response_blocks(p: JsonV) -> Seq<BlockV> {
    match p.field("functionResponse"@) {
        Some(fr) => {
            let resp = match fr.field("response"@) {
                Some(r) => r,
                None => JsonV::Null,
            };
            seq![
                BlockV::ToolResult {
                    tool_use_id: match nonempty_str(fr, "id"@) {
                        Some(i) => i,
                        None => FR_NAME_PREFIX@ + str_or_empty(fr, "name"@),
                    },
                    content: seq![BlockV::Text { text: response_text(resp) }],
                    is_error: resp.field("is_error"@) == Some(JsonV::Bool(true)),
                },
            ]
        },
        None => Seq::empty(),
    }
}

/// The block of an `inlineData` part: an image (`image/png` when no type).
pub open spec fn part_inline_blocks(p: JsonV) -> Seq<BlockV> {
    match p.field("inlineData"@) {
        Some(i) => seq![
            BlockV::Image {
                data: str_or_empty(i, "data"@),
                media_type: match i.field_str("mimeType"@) {
                    Some(m) => m,
                    None => "image/png"@,
                },
            },
        ],
        None => Seq::empty(),
    }
}

/// The block of a `fileData` part with a URI: a document by URL.
pub open spec fn part_file_blocks(p: JsonV) -> Seq<BlockV> {
    match p.field("fileData"@) {
        Some(fd) => {
            let uri = str_or_empty(fd, "fileUri"@);
            if uri.len() > 0 {
                seq![
                    BlockV::Document {
                        source: DocSource::Url,
                        media_type: match fd.field_str("mimeType"@) {
                            Some(m) => m,
                            None => "application/octet-stream"@,
                        },
                        data: uri,
                        name: fd.field_str("displayName"@),
                    },
                ]
            } else {
                Seq::empty()
            }
        },
        None => Seq::empty(),
    }
}

/// The blocks of code execution parts: the code as a tool use of
/// [`EXEC_CODE`] (after a credential carrier when signed), the result as a
/// tool result, an error unless the outcome is `OUTCOME_OK`.
pub open spec fn part_exec_blocks(p: JsonV) -> Seq<BlockV> {
    (match p.field("executableCode"@) {
        Some(ec) => {
            let sig = tag_spec(SIG_GEMINI@, str_either(p, ec, "thoughtSignature"@));
            carrier(sig) + seq![
                BlockV::ToolUse {
                    id: EXEC_CODE@,
                    name: EXEC_CODE@,
                    namespace: None,
                    input: ec,
                    signature: sig,
                },
            ]
        },
        None => Seq::empty(),
    }) + match p.field("codeExecutionResult"@) {
        Some(er) => seq![
            BlockV::ToolResult {
                tool_use_id: EXEC_CODE@,
                content: seq![BlockV::Text { text: str_or_empty(er, "output"@) }],
                is_error: match er.field_str("outcome"@) {
                    Some(o) => o != "OUTCOME_OK"@,
                    None => false,
                },
            },
        ],
        None => Seq::empty(),
    }
}

/// The core blocks of one Gemini part, in this order: text and credential,
/// function call, function response, inline data, file data, code execution.
pub open spec fn part_blocks(p: JsonV) -> Seq<BlockV> {
    part_text_blocks(p) + part_call_blocks(p) + part_response_blocks(p) + part_inline_blocks(p)
        + part_file_blocks(p) + part_exec_blocks(p)
}

fn one(b: ContentBlock) -> (r: Vec<ContentBlock>)
    ensures
        blocks_view(r@) == seq![b@],
{
    let mut v: Vec<ContentBlock> = Vec::new();
    v.push(b);
    proof {
        lemma_blocks_view(v@);
        assert(blocks_view(v@) =~= seq![b@]);
    }
    v
}

fn none_blocks() -> (r: Vec<ContentBlock>)
    ensures
        blocks_view(r@) == Seq::<BlockV>::empty(),
{
    let v: Vec<ContentBlock> = Vec::new();
    proof {
        lemma_blocks_view(v@);
    }
    v
}

fn carrier_blocks(sig: &Option<String>) -> (r: Vec<ContentBlock>)
    ensures
        blocks_view(r@) == carrier(opt_view(*sig)),
{
    match sig {
        Some(s) => one(ContentBlock::Reasoning { text: String::new(), signature: Some(s.clone()), redacted: false }),
        None => none_blocks(),
    }
}

/// Appends `more` after `out`.
fn append(out: &mut Vec<ContentBlock>, more: Vec<ContentBlock>)
    ensures
        blocks_view(final(out)@) == blocks_view(old(out)@) + blocks_view(more@),
{
    let ghost a = out@;
    let ghost b = more@;
    let mut more = more;
    out.append(&mut more);
    proof {
        crate::protocol::ir::lemma_blocks_view_concat(a, b);
    }
}

fn opt_string(o: Option<&str>) -> (r: Option<String>)
    ensures
        opt_view(r) == match o {
            Some(s) => Some(s@),
            None => None,
        },
{
    match o {
        Some(s) => Some(s.to_string()),
        None => None,
    }
}

fn either_str<'a>(p: &'a Json, q: &'a Json, key: &str) -> (r: Option<&'a str>)
    ensures
        match r {
            Some(s) => str_either(p@, q@, key@) == Some(s@),
            None => str_either(p@, q@, key@) is None,
        },
{
    match p.get(key) {
        Some(v) => v.as_str(),
        None => q.get_str(key),
    }
}

fn nonempty<'a>(v: &'a Json, key: &str) -> (r: Option<&'a str>)
    ensures
        match r {
            Some(s) => nonempty_str(v@, key@) == Some(s@),
            None => nonempty_str(v@, key@) is None,
        },
{
    match v.get_str(key) {
        Some(s) => if s.unicode_len() > 0 {
            Some(s)
        } else {
            None
        },
        None => None,
    }
}

fn text_blocks_of(p: &Json) -> (r: Vec<ContentBlock>)
    ensures
        blocks_view(r@) == part_text_blocks(p@),
{
    let signature = tag_signature(SIG_GEMINI, opt_string(p.get_str("thoughtSignature")));
    let thought = match p.get("thought") {
        Some(Json::Bool(true)) => true,
        _ => false,
    };
    match p.get_str("text") {
        Some(t) => {
            if t.unicode_len() > 0 {
                if thought {
                    one(ContentBlock::Reasoning { text: t.to_string(), signature, redacted: false })
                } else {
                    let mut out = one(ContentBlock::Text { text: t.to_string() });
                    append(&mut out, carrier_blocks(&signature));
                    out
                }
            } else {
                carrier_blocks(&signature)
            }
        },
        None => {
            if p.get("functionCall").is_none() && p.get("executableCode").is_none() {
                carrier_blocks(&signature)
            } else {
                none_blocks()
            }
        },
    }
}

fn call_blocks_of(p: &Json) -> (r: Vec<ContentBlock>)
    ensures
        blocks_view(r@) == part_call_blocks(p@),
{
    match p.get("functionCall") {
        Some(fc) => {
            let sig = tag_signature(SIG_GEMINI, opt_string(either_str(p, fc, "thoughtSignature")));
            let mut out = carrier_blocks(&sig);
            let id = match nonempty(fc, "id") {
                Some(i) => i.to_string(),
                None => FCALL_PENDING.to_string(),
            };
            let input = match fc.get("args") {
                Some(a) => a.deep_clone(),
                None => Json::Object(Vec::new()),
            };
            proof {
                lemma_fields_view(Seq::<(String, Json)>::empty());
            }
            let name = crate::protocol::chat::str_field(fc, "name");
            append(&mut out, one(ContentBlock::ToolUse { id, name, namespace: None, input, signature: sig }));
            out
        },
        None => none_blocks(),
    }
}

fn response_blocks_of(p: &Json) -> (r: Vec<ContentBlock>)
    ensures
        blocks_view(r@) == part_response_blocks(p@),
{
    match p.get("functionResponse") {
        Some(fr) => {
            let null = Json::Null;
            let resp = match fr.get("response") {
                Some(r) => r,
                None => &null,
            };
            let tool_use_id = match nonempty(fr, "id") {
                Some(i) => i.to_string(),
                None => concat_str(FR_NAME_PREFIX, crate::protocol::chat::str_field(fr, "name").as_str()),
            };
            let is_error = match resp.get("is_error") {
                Some(Json::Bool(true)) => true,
                _ => false,
            };
            let content = one(ContentBlock::Text { text: resp_to_text(resp) });
            one(ContentBlock::ToolResult { tool_use_id, content, is_error })
        },
        None => none_blocks(),
    }
}

fn inline_blocks_of(p: &Json) -> (r: Vec<ContentBlock>)
    ensures
        blocks_view(r@) == part_inline_blocks(p@),
{
    match p.get("inlineData") {
        Some(i) => {
            let data = crate::protocol::chat::str_field(i, "data");
            let media_type = match i.get_str("mimeType") {
                Some(m) => m.to_string(),
                None => "image/png".to_string(),
            };
            one(ContentBlock::Image { data, media_type })
        },
        None => none_blocks(),
    }
}

fn file_blocks_of(p: &Json) -> (r: Vec<ContentBlock>)
    ensures
        blocks_view(r@) == part_file_blocks(p@),
{
    match p.get("fileData") {
        Some(fd) => {
            let uri = crate::protocol::chat::str_field(fd, "fileUri");
            if uri.as_str().unicode_len() > 0 {
                let media_type = match fd.get_str("mimeType") {
                    Some(m) => m.to_string(),
                    None => "application/octet-stream".to_string(),
                };
                let name = opt_string(fd.get_str("displayName"));
                one(ContentBlock::Document { source: DocSource::Url, media_type, data: uri, name })
            } else {
                none_blocks()
            }
        },
        None => none_blocks(),
    }
}

fn exec_blocks_of(p: &Json) -> (r: Vec<ContentBlock>)
    ensures
        blocks_view(r@) == part_exec_blocks(p@),
{
    let mut out = match p.get("executableCode") {
        Some(ec) => {
            let sig = tag_signature(SIG_GEMINI, opt_string(either_str(p, ec, "thoughtSignature")));
            let mut o = carrier_blocks(&sig);
            append(
                &mut o,
                one(ContentBlock::ToolUse {
                    id: EXEC_CODE.to_string(),
                    name: EXEC_CODE.to_string(),
                    namespace: None,
                    input: ec.deep_clone(),
                    signature: sig,
                }),
            );
            o
        },
        None => none_blocks(),
    };
    let rest = match p.get("codeExecutionResult") {
        Some(er) => {
            let is_error = match er.get_str("outcome") {
                Some(o) => !str_eq(o, "OUTCOME_OK"),
                None => false,
            };
            let content = one(ContentBlock::Text { text: crate::protocol::chat::str_field(er, "output") });
            one(ContentBlock::ToolResult { tool_use_id: EXEC_CODE.to_string(), content, is_error })
        },
        None => none_blocks(),
    };
    append(&mut out, rest);
    out
}

/// One Gemini part → its core blocks (see [`part_blocks`]). A part's
/// `thoughtSignature` is tagged as a Gemini credential; it binds to the next
/// tool use or the previous part, so a signed text part gives the text and
/// then a credential-only carrier block.
pub fn part_to_blocks(p: &Json) -> (r: Vec<ContentBlock>)
    ensures
        blocks_view(r@) == part_blocks(p@),
{
    let mut out = text_blocks_of(p);
    append(&mut out, call_blocks_of(p));
    append(&mut out, response_blocks_of(p));
    append(&mut out, inline_blocks_of(p));
    append(&mut out, file_blocks_of(p));
    append(&mut out, exec_blocks_of(p));
    out
}

/// The parts of a Gemini content or candidate content (none when absent or
/// not an array).
pub open spec fn parts_of(c: JsonV) -> Seq<JsonV> {
    match c.field("parts"@) {
        Some(JsonV::Array(a)) => a,
        _ => Seq::empty(),
    }
}

/// The blocks of a list of parts, joined in order.
pub open spec fn parts_blocks(ps: Seq<JsonV>) -> Seq<BlockV>
    decreases ps.len(),
{
    if ps.len() == 0 {
        Seq::empty()
    } else {
        parts_blocks(ps.drop_last()) + part_blocks(ps.last())
    }
}

fn blocks_of_parts(c: &Json) -> (r: Vec<ContentBlock>)
    ensures
        blocks_view(r@) == parts_blocks(parts_of(c@)),
{
    let mut out = none_blocks();
    if let Some(Json::Array(ps)) = c.get("parts") {
        let ghost pv = items_view(ps@);
        proof {
            lemma_items_view(ps@);
        }
        let mut i: usize = 0;
        while i < ps.len()
            invariant
                i <= ps@.len() == pv.len(),
                pv == items_view(ps@),
                forall|k: int| 0 <= k < ps@.len() ==> #[trigger] pv[k] == json_view(ps@[k]),
                blocks_view(out@) == parts_blocks(pv.take(i as int)),
            decreases ps@.len() - i,
        {
            proof {
                assert(pv.take(i + 1).drop_last() == pv.take(i as int));
                assert(pv.take(i + 1).last() == pv[i as int]);
            }
            append(&mut out, part_to_blocks(&ps[i]));
            i = i + 1;
        }
        proof {
            assert(pv.take(pv.len() as int) == pv);
        }
    }
    out
}

/// The content of a candidate (`null` when absent).
pub open spec fn candidate_content(cand: JsonV) -> JsonV {
    match cand.field("content"@) {
        Some(c) => c,
        None => JsonV::Null,
    }
}

/// A Gemini response candidate → core blocks (of its content's parts) and
/// the stop reason of its `finishReason`.
pub fn candidate_to_core(cand: &Json) -> (r: (Vec<ContentBlock>, Option<StopReason>))
    ensures
        blocks_view(r.0@) == parts_blocks(parts_of(candidate_content(cand@))),
        r.1 == match cand@.field_str("finishReason"@) {
            Some(s) => finish_reason_of(s),
            None => None,
        },
{
    let null = Json::Null;
    let c = match cand.get("content") {
        Some(c) => c,
        None => &null,
    };
    let content = blocks_of_parts(c);
    let finish = match cand.get_str("finishReason") {
        Some(s) => map_finish_reason(s),
        None => None,
    };
    (content, finish)
}

/// The next value of a counter (which stays at `usize::MAX` once there).
pub open spec fn next_count(n: nat) -> nat {
    if n < usize::MAX {
        n + 1
    } else {
        n
    }
}

/// The state of pairing code execution within one message: calls numbered so
/// far, and the id of the call waiting for its result.
pub type ExecPairing = (nat, Option<Seq<char>>);

/// One block through code-execution pairing: a code call gets the id
/// `executable_code-{n}` and waits for its result; a code result takes the
/// waiting call's id.
pub open spec fn exec_step(st: ExecPairing, b: BlockV) -> (ExecPairing, BlockV) {
    match b {
        BlockV::ToolUse { id, name, namespace, input, signature } => if name == EXEC_CODE@ {
            let a = EXEC_CODE@ + "-"@ + dec(st.0);
            ((next_count(st.0), Some(a)), BlockV::ToolUse { id: a, name, namespace, input, signature })
        } else {
            (st, b)
        },
        BlockV::ToolResult { tool_use_id, content, is_error } => if tool_use_id == EXEC_CODE@ {
            match st.1 {
                Some(a) => ((st.0, None), BlockV::ToolResult { tool_use_id: a, content, is_error }),
                None => (st, b),
            }
        } else {
            (st, b)
        },
        _ => (st, b),
    }
}

/// Code-execution pairing over blocks, from state `st`.
pub open spec fn exec_run(bs: Seq<BlockV>, st: ExecPairing) -> (ExecPairing, Seq<BlockV>)
    decreases bs.len(),
{
    if bs.len() == 0 {
        (st, Seq::empty())
    } else {
        let (s1, out) = exec_run(bs.drop_last(), st);
        let (s2, b) = exec_step(s1, bs.last());
        (s2, out.push(b))
    }
}

/// The state of pairing function calls with responses: calls numbered so far,
/// and every call seen (name, id, whether a response took it).
pub type CallPairing = (nat, Seq<(Seq<char>, Seq<char>, bool)>);

/// The first call named `name` at or after `i` that no response took yet.
pub open spec fn first_open_from(calls: Seq<(Seq<char>, Seq<char>, bool)>, name: Seq<char>, i: int) -> Option<int>
    decreases calls.len() - i,
{
    if i < 0 || i >= calls.len() {
        None
    } else if calls[i].0 == name && !calls[i].2 {
        Some(i)
    } else {
        first_open_from(calls, name, i + 1)
    }
}

/// One block through call pairing: a call without id gets `fcall-{n}`; every
/// call is queued under its name; a response without id (a placeholder
/// naming the function) takes the first queued call of that name, or else
/// keeps the bare function name.
pub open spec fn call_step(st: CallPairing, b: BlockV) -> (CallPairing, BlockV) {
    match b {
        BlockV::ToolUse { id, name, namespace, input, signature } => {
            let (id2, n2) = if id == FCALL_PENDING@ {
                ("fcall-"@ + dec(st.0), next_count(st.0))
            } else {
                (id, st.0)
            };
            (
                (n2, st.1.push((name, id2, false))),
                BlockV::ToolUse { id: id2, name, namespace, input, signature },
            )
        },
        BlockV::ToolResult { tool_use_id, content, is_error } => if has_prefix(tool_use_id, FR_NAME_PREFIX@) {
            let name = tool_use_id.skip(FR_NAME_PREFIX@.len() as int);
            match first_open_from(st.1, name, 0) {
                Some(j) => (
                    (st.0, st.1.update(j, (st.1[j].0, st.1[j].1, true))),
                    BlockV::ToolResult { tool_use_id: st.1[j].1, content, is_error },
                ),
                None => (st, BlockV::ToolResult { tool_use_id: name, content, is_error }),
            }
        } else {
            (st, b)
        },
        _ => (st, b),
    }
}

/// Call pairing over blocks, from state `st`.
pub open spec fn call_run(bs: Seq<BlockV>, st: CallPairing) -> (CallPairing, Seq<BlockV>)
    decreases bs.len(),
{
    if bs.len() == 0 {
        (st, Seq::empty())
    } else {
        let (s1, out) = call_run(bs.drop_last(), st);
        let (s2, b) = call_step(s1, bs.last());
        (s2, out.push(b))
    }
}

proof fn lemma_first_open(calls: Seq<(Seq<char>, Seq<char>, bool)>, name: Seq<char>, i: int, r: Option<int>)
    requires
        0 <= i <= calls.len(),
        match r {
            Some(j) => i <= j < calls.len() && calls[j].0 == name && !calls[j].2 && forall|k: int|
                i <= k < j ==> !(calls[k].0 == name && !calls[k].2),
            None => forall|k: int| i <= k < calls.len() ==> !(calls[k].0 == name && !calls[k].2),
        },
    ensures
        first_open_from(calls, name, i) == r,
    decreases calls.len() - i,
{
    if i < calls.len() {
        if calls[i].0 == name && !calls[i].2 {
            if let Some(j) = r {
                if j > i {
                    assert(!(calls[i].0 == name && !calls[i].2));
                }
            }
        } else {
            if let Some(j) = r {
                assert(j != i);
            }
            lemma_first_open(calls, name, i + 1, r);
        }
    } else {
        if let Some(j) = r {
            assert(j < calls.len());
        }
    }
}

fn count_text(n: usize) -> (r: String)
    ensures
        r@ == dec(n as nat),
{
    u64_to_dec(n as u64)
}

fn bump(n: usize) -> (r: usize)
    ensures
        r == next_count(n as nat),
{
    if n < usize::MAX {
        n + 1
    } else {
        n
    }
}

/// Pairs code execution calls and results within one message (see
/// [`exec_run`]).
fn exec_pair(bs: &Vec<ContentBlock>) -> (r: Vec<ContentBlock>)
    ensures
        blocks_view(r@) == exec_run(blocks_view(bs@), (0, None)).1,
{
    proof {
        lemma_blocks_view(bs@);
    }
    let ghost bv = blocks_view(bs@);
    let mut out = none_blocks();
    let mut n: usize = 0;
    let mut pending: Option<String> = None;
    let mut i: usize = 0;
    while i < bs.len()
        invariant
            i <= bs@.len() == bv.len(),
            bv == blocks_view(bs@),
            forall|k: int| 0 <= k < bs@.len() ==> #[trigger] bv[k] == block_view(bs@[k]),
            exec_run(bv.take(i as int), (0, None)).0 == (n as nat, opt_view(pending)),
            exec_run(bv.take(i as int), (0, None)).1 == blocks_view(out@),
        decreases bs@.len() - i,
    {
        proof {
            assert(bv.take(i + 1).drop_last() == bv.take(i as int));
            assert(bv.take(i + 1).last() == bv[i as int]);
        }
        let ghost before = out@;
        let b = match &bs[i] {
            ContentBlock::ToolUse { id, name, namespace, input, signature } => {
                if str_eq(name.as_str(), EXEC_CODE) {
                    let pre = concat_str(EXEC_CODE, "-");
                    let a = concat_str(pre.as_str(), count_text(n).as_str());
                    n = bump(n);
                    pending = Some(a.clone());
                    ContentBlock::ToolUse {
                        id: a,
                        name: name.clone(),
                        namespace: crate::protocol::ir::clone_opt(namespace),
                        input: input.deep_clone(),
                        signature: crate::protocol::ir::clone_opt(signature),
                    }
                } else {
                    bs[i].deep_clone()
                }
            },
            ContentBlock::ToolResult { tool_use_id, content, is_error } => {
                if str_eq(tool_use_id.as_str(), EXEC_CODE) {
                    match pending {
                        Some(a) => {
                            pending = None;
                            ContentBlock::ToolResult {
                                tool_use_id: a,
                                content: crate::protocol::ir::clone_blocks(content),
                                is_error: *is_error,
                            }
                        },
                        None => bs[i].deep_clone(),
                    }
                } else {
                    bs[i].deep_clone()
                }
            },
            _ => bs[i].deep_clone(),
        };
        out.push(b);
        proof {
            lemma_blocks_view_push(before, b);
        }
        i = i + 1;
    }
    proof {
        assert(bv.take(bv.len() as int) == bv);
    }
    out
}

/// The calls of a pairing state, by value.
pub open spec fn calls_view(c: Seq<(String, String, bool)>) -> Seq<(Seq<char>, Seq<char>, bool)> {
    c.map_values(|e: (String, String, bool)| (e.0@, e.1@, e.2))
}

fn find_open(calls: &Vec<(String, String, bool)>, name: &str) -> (r: Option<usize>)
    ensures
        match r {
            Some(j) => j < calls@.len() && first_open_from(calls_view(calls@), name@, 0) == Some(j as int),
            None => first_open_from(calls_view(calls@), name@, 0) is None,
        },
{
    let ghost cv = calls_view(calls@);
    let mut j: usize = 0;
    while j < calls.len()
        invariant
            j <= calls@.len() == cv.len(),
            cv == calls_view(calls@),
            forall|k: int| 0 <= k < j ==> !(cv[k].0 == name@ && !cv[k].2),
        decreases calls@.len() - j,
    {
        if str_eq(calls[j].0.as_str(), name) && !calls[j].2 {
            proof {
                lemma_first_open(cv, name@, 0, Some(j as int));
            }
            return Some(j);
        }
        proof {
            assert(cv[j as int] == (calls@[j as int].0@, calls@[j as int].1@, calls@[j as int].2));
        }
        j = j + 1;
    }
    proof {
        lemma_first_open(cv, name@, 0, None);
    }
    None
}

/// Pairs function calls and responses over one message's blocks, carrying
/// the state (see [`call_run`]).
fn call_pair(bs: &Vec<ContentBlock>, n: &mut usize, calls: &mut Vec<(String, String, bool)>) -> (r: Vec<ContentBlock>)
    ensures
        call_run(blocks_view(bs@), (*old(n) as nat, calls_view(old(calls)@))) == (
            (*final(n) as nat, calls_view(final(calls)@)),
            blocks_view(r@),
        ),
{
    proof {
        lemma_blocks_view(bs@);
    }
    let ghost bv = blocks_view(bs@);
    let ghost st0 = (*n as nat, calls_view(calls@));
    let mut out = none_blocks();
    let mut i: usize = 0;
    while i < bs.len()
        invariant
            i <= bs@.len() == bv.len(),
            bv == blocks_view(bs@),
            forall|k: int| 0 <= k < bs@.len() ==> #[trigger] bv[k] == block_view(bs@[k]),
            call_run(bv.take(i as int), st0) == ((*n as nat, calls_view(calls@)), blocks_view(out@)),
        decreases bs@.len() - i,
    {
        proof {
            assert(bv.take(i + 1).drop_last() == bv.take(i as int));
            assert(bv.take(i + 1).last() == bv[i as int]);
        }
        let ghost before = out@;
        let ghost cv0 = calls_view(calls@);
        let b = match &bs[i] {
            ContentBlock::ToolUse { id, name, namespace, input, signature } => {
                let id2 = if str_eq(id.as_str(), FCALL_PENDING) {
                    let t = concat_str("fcall-", count_text(*n).as_str());
                    *n = bump(*n);
                    t
                } else {
                    id.clone()
                };
                calls.push((name.clone(), id2.clone(), false));
                proof {
                    assert(calls_view(calls@) =~= cv0.push((name@, id2@, false)));
                }
                ContentBlock::ToolUse {
                    id: id2,
                    name: name.clone(),
                    namespace: crate::protocol::ir::clone_opt(namespace),
                    input: input.deep_clone(),
                    signature: crate::protocol::ir::clone_opt(signature),
                }
            },
            ContentBlock::ToolResult { tool_use_id, content, is_error } => {
                if str_starts_with(tool_use_id.as_str(), FR_NAME_PREFIX) {
                    proof {
                        reveal_strlit("__gemini_fres__:");
                    }
                    let name = skip_str(tool_use_id.as_str(), FR_NAME_PREFIX.unicode_len());
                    match find_open(calls, name.as_str()) {
                        Some(j) => {
                            let matched = calls[j].1.clone();
                            let nm = calls[j].0.clone();
                            calls.set(j, (nm, matched.clone(), true));
                            proof {
                                assert(calls_view(calls@) =~= cv0.update(j as int, (cv0[j as int].0, cv0[j as int].1, true)));
                            }
                            ContentBlock::ToolResult {
                                tool_use_id: matched,
                                content: crate::protocol::ir::clone_blocks(content),
                                is_error: *is_error,
                            }
                        },
                        None => ContentBlock::ToolResult {
                            tool_use_id: name,
                            content: crate::protocol::ir::clone_blocks(content),
                            is_error: *is_error,
                        },
                    }
                } else {
                    bs[i].deep_clone()
                }
            },
            _ => bs[i].deep_clone(),
        };
        out.push(b);
        proof {
            lemma_blocks_view_push(before, b);
        }
        i = i + 1;
    }
    proof {
        assert(bv.take(bv.len() as int) == bv);
    }
    out
}

/// The role of a Gemini content: `model` is the assistant, anything else the
/// user.
pub open spec fn content_role(c: JsonV) -> Role {
    if c.field_str("role"@) == Some("model"@) {
        Role::Assistant
    } else {
        Role::User
    }
}

/// The blocks of one content: its parts' blocks with code execution paired.
pub open spec fn content_message(c: JsonV) -> (Role, Seq<BlockV>) {
    (content_role(c), exec_run(parts_blocks(parts_of(c)), (0, None)).1)
}

/// Call pairing over messages in order, from state `st`.
pub open spec fn pair_messages(ms: Seq<(Role, Seq<BlockV>)>, st: CallPairing) -> (CallPairing, Seq<(Role, Seq<BlockV>)>)
    decreases ms.len(),
{
    if ms.len() == 0 {
        (st, Seq::empty())
    } else {
        let (s1, out) = pair_messages(ms.drop_last(), st);
        let (s2, bs) = call_run(ms.last().1, s1);
        (s2, out.push((ms.last().0, bs)))
    }
}

/// The core messages of Gemini contents: each content's message, then calls
/// and responses paired across all of them.
pub open spec fn contents_messages(cs: Seq<JsonV>) -> Seq<(Role, Seq<BlockV>)> {
    pair_messages(cs.map_values(|c: JsonV| content_message(c)), (0, Seq::empty())).1
}


/// Gemini `contents` → core messages (see [`contents_messages`]). Calls and
/// results of server-side code execution get unique ids per message; function
/// calls without an id get unique ids, and responses without an id point back
/// at the earliest unanswered call of the same function.
pub fn contents_to_core(contents: &[Json]) -> (r: Vec<Message>)
    ensures
        r@.map_values(|m: Message| message_view(m)) == contents_messages(contents@.map_values(|j: Json| j@)),
{
    let ghost cv = contents@.map_values(|j: Json| j@);
    let ghost ms = cv.map_values(|c: JsonV| content_message(c));
    let mut out: Vec<Message> = Vec::new();
    let mut n: usize = 0;
    let mut calls: Vec<(String, String, bool)> = Vec::new();
    let mut i: usize = 0;
    while i < contents.len()
        invariant
            i <= contents@.len() == cv.len() == ms.len(),
            cv == contents@.map_values(|j: Json| j@),
            ms == cv.map_values(|c: JsonV| content_message(c)),
            out@.len() == i,
            pair_messages(ms.take(i as int), (0, Seq::empty())) == (
                (n as nat, calls_view(calls@)),
                out@.map_values(|m: Message| message_view(m)),
            ),
        decreases contents@.len() - i,
    {
        proof {
            assert(ms.take(i + 1).drop_last() == ms.take(i as int));
            assert(ms.take(i + 1).last() == content_message(contents@[i as int]@));
        }
        let c = &contents[i];
        let role = match c.get_str("role") {
            Some(r) => if str_eq(r, "model") {
                Role::Assistant
            } else {
                Role::User
            },
            None => Role::User,
        };
        let raw = blocks_of_parts(c);
        let local = exec_pair(&raw);
        let paired = call_pair(&local, &mut n, &mut calls);
        let ghost before = out@;
        out.push(Message { role, content: paired });
        proof {
            assert(out@.map_values(|m: Message| message_view(m)) =~= before.map_values(|m: Message| message_view(m)).push(message_view(out@[i as int])));
        }
        i = i + 1;
    }
    proof {
        assert(ms.take(ms.len() as int) == ms);
    }
    out
}

/// An object of one member.
pub open spec fn obj1(k: Seq<char>, v: JsonV) -> JsonV {
    JsonV::Object(seq![(k, v)])
}

/// A text part.
pub open spec fn text_part(t: Seq<char>) -> JsonV {
    obj1("text"@, JsonV::Str(t))
}

/// An inline-data part.
pub open spec fn inline_part(mt: Seq<char>, data: Seq<char>) -> JsonV {
    obj1("inlineData"@, JsonV::Object(seq![("mimeType"@, JsonV::Str(mt)), ("data"@, JsonV::Str(data))]))
}

/// A file-data part (by URI, with a display name when there is one).
pub open spec fn file_part(uri: Seq<char>, mt: Seq<char>, name: Option<Seq<char>>) -> JsonV {
    obj1(
        "fileData"@,
        JsonV::Object(
            seq![("fileUri"@, JsonV::Str(uri)), ("mimeType"@, JsonV::Str(mt))] + match name {
                Some(n) => seq![("displayName"@, JsonV::Str(n))],
                None => Seq::empty(),
            },
        ),
    )
}

/// `part` with a `thoughtSignature` member when the credential is non-empty.
pub open spec fn signed(part: JsonV, sig: Option<Seq<char>>) -> JsonV {
    match sig {
        Some(s) => if s.len() > 0 {
            with_field(part, "thoughtSignature"@, JsonV::Str(s))
        } else {
            part
        },
        None => part,
    }
}

/// Images held by URL or by file id are references that Gemini cannot take.
pub open spec fn is_ref_image(mt: Seq<char>) -> bool {
    mt == "url"@ || mt == "file"@
}

/// The part of a document: by URL as file data, base64 as inline data, text
/// as text; a platform file id has none.
pub open spec fn doc_part(source: DocSource, mt: Seq<char>, data: Seq<char>, name: Option<Seq<char>>) -> Option<JsonV> {
    match source {
        DocSource::Url => Some(file_part(data, mt, name)),
        DocSource::Base64 => Some(inline_part(mt, data)),
        DocSource::Text => Some(text_part(data)),
        DocSource::File => None,
    }
}

/// The media part of a block inside a tool result: images (other than
/// references) and documents.
pub open spec fn media_part(b: BlockV) -> Option<JsonV> {
    match b {
        BlockV::Image { data, media_type } => if is_ref_image(media_type) {
            None
        } else {
            Some(inline_part(media_type, data))
        },
        BlockV::Document { source, media_type, data, name } => doc_part(source, media_type, data, name),
        _ => None,
    }
}

pub open spec fn opt_seq(o: Option<JsonV>) -> Seq<JsonV> {
    match o {
        Some(v) => seq![v],
        None => Seq::empty(),
    }
}

/// The media parts of a tool result's content, in order.
pub open spec fn media_parts(bs: Seq<BlockV>) -> Seq<JsonV>
    decreases bs.len(),
{
    if bs.len() == 0 {
        Seq::empty()
    } else {
        media_parts(bs.drop_last()) + opt_seq(media_part(bs.last()))
    }
}

/// Places a pending credential: on the previous part when it has none, else
/// as a part of its own.
pub open spec fn flush_sig(parts: Seq<JsonV>, pending: Option<Seq<char>>) -> Seq<JsonV> {
    match pending {
        None => parts,
        Some(sig) => if parts.len() > 0 && parts.last().field("thoughtSignature"@) is None {
            parts.update(parts.len() - 1, with_field(parts.last(), "thoughtSignature"@, JsonV::Str(sig)))
        } else {
            parts.push(JsonV::Object(seq![("thought"@, JsonV::Bool(true)), ("thoughtSignature"@, JsonV::Str(sig))]))
        },
    }
}

/// The name the last tool use with id `id` has.
pub open spec fn last_name(names: Seq<(Seq<char>, Seq<char>)>, id: Seq<char>) -> Option<Seq<char>>
    decreases names.len(),
{
    if names.len() == 0 {
        None
    } else if names.last().0 == id {
        Some(names.last().1)
    } else {
        last_name(names.drop_last(), id)
    }
}

/// The function name a tool result answers: the name of its call, else the
/// name in a placeholder id, else the id itself.
pub open spec fn result_name(names: Seq<(Seq<char>, Seq<char>)>, id: Seq<char>) -> Seq<char> {
    match last_name(names, id) {
        Some(n) => n,
        None => if has_prefix(id, FR_NAME_PREFIX@) {
            id.skip(FR_NAME_PREFIX@.len() as int)
        } else {
            id
        },
    }
}

/// The native part of a code execution result.
pub open spec fn exec_result_part(is_error: bool, output: Seq<char>) -> JsonV {
    obj1(
        "codeExecutionResult"@,
        JsonV::Object(
            seq![
                ("outcome"@, JsonV::Str(if is_error {
                    "OUTCOME_FAILED"@
                } else {
                    "OUTCOME_OK"@
                })),
                ("output"@, JsonV::Str(output)),
            ],
        ),
    )
}

/// The part of a tool call: native code execution for [`EXEC_CODE`], else a
/// function call with name, arguments and id; either signed with `sig`.
pub open spec fn call_part(id: Seq<char>, name: Seq<char>, input: JsonV, sig: Option<Seq<char>>) -> JsonV {
    if name == EXEC_CODE@ {
        signed(obj1("executableCode"@, input), sig)
    } else {
        obj1(
            "functionCall"@,
            signed(JsonV::Object(seq![("name"@, JsonV::Str(name)), ("args"@, input), ("id"@, JsonV::Str(id))]), sig),
        )
    }
}

/// The parts of a tool result: a native code execution result, or a function
/// response (with the call id when the call is known, and the error flag in
/// the response) followed by the result's media, introduced by one line naming
/// the function.
pub open spec fn result_parts(names: Seq<(Seq<char>, Seq<char>)>, id: Seq<char>, content: Seq<BlockV>, is_error: bool) -> Seq<JsonV> {
    let fname = result_name(names, id);
    if fname == EXEC_CODE@ || has_prefix(id, EXEC_CODE@) {
        seq![exec_result_part(is_error, plain_text(content))]
    } else {
        let resp = JsonV::Object(
            seq![("result"@, JsonV::Str(plain_text(content)))] + if is_error {
                seq![("is_error"@, JsonV::Bool(true))]
            } else {
                Seq::empty()
            },
        );
        let fr = JsonV::Object(
            seq![("name"@, JsonV::Str(fname)), ("response"@, resp)] + if last_name(names, id) is Some {
                seq![("id"@, JsonV::Str(id))]
            } else {
                Seq::empty()
            },
        );
        let media = media_parts(content);
        seq![obj1("functionResponse"@, fr)] + if media.len() > 0 {
            seq![text_part("[media content returned by function call "@ + fname + "]"@)] + media
        } else {
            Seq::empty()
        }
    }
}

/// Parts built so far and the credential waiting for its place.
pub type PartsState = (Seq<JsonV>, Option<Seq<char>>);

/// One block into Gemini parts. A credential-only reasoning block waits: the
/// next tool call takes it (unless it carries its own), anything else places
/// it first (see [`flush_sig`]).
pub open spec fn gem_step(st: PartsState, b: BlockV, names: Seq<(Seq<char>, Seq<char>)>) -> PartsState {
    let parts = st.0;
    let pending = st.1;
    match b {
        BlockV::Text { text } => (flush_sig(parts, pending).push(text_part(text)), None),
        BlockV::Image { data, media_type } => (
            flush_sig(parts, pending) + if is_ref_image(media_type) {
                Seq::empty()
            } else {
                seq![inline_part(media_type, data)]
            },
            None,
        ),
        BlockV::Document { source, media_type, data, name } => (
            flush_sig(parts, pending) + opt_seq(doc_part(source, media_type, data, name)),
            None,
        ),
        BlockV::ToolUse { id, name, namespace: _, input, signature } => {
            let own = untag_spec(SIG_GEMINI@, signature);
            let sig = match own {
                Some(s) => Some(s),
                None => pending,
            };
            let rest = match own {
                Some(_) => pending,
                None => None,
            };
            (parts.push(call_part(id, name, input, sig)), rest)
        },
        BlockV::ToolResult { tool_use_id, content, is_error } => (
            flush_sig(parts, pending) + result_parts(names, tool_use_id, content, is_error),
            None,
        ),
        BlockV::Reasoning { text, signature, redacted: _ } => {
            let sig = untag_spec(SIG_GEMINI@, signature);
            if text.len() == 0 {
                match sig {
                    Some(s) => if s.len() > 0 {
                        (parts, Some(s))
                    } else {
                        (parts, pending)
                    },
                    None => (parts, pending),
                }
            } else {
                (
                    flush_sig(parts, pending).push(
                        signed(JsonV::Object(seq![("thought"@, JsonV::Bool(true)), ("text"@, JsonV::Str(text))]), sig),
                    ),
                    None,
                )
            }
        },
    }
}

/// Blocks into parts, from state `st`.
pub open spec fn gem_run(bs: Seq<BlockV>, st: PartsState, names: Seq<(Seq<char>, Seq<char>)>) -> PartsState
    decreases bs.len(),
{
    if bs.len() == 0 {
        st
    } else {
        gem_step(gem_run(bs.drop_last(), st, names), bs.last(), names)
    }
}

/// The parts of one message: its blocks, then the last pending credential
/// placed.
pub open spec fn message_parts(bs: Seq<BlockV>, names: Seq<(Seq<char>, Seq<char>)>) -> Seq<JsonV> {
    let st = gem_run(bs, (Seq::empty(), None), names);
    flush_sig(st.0, st.1)
}

fn jobj1(k: &str, v: Json) -> (r: Json)
    ensures
        r@ == obj1(k@, v@),
{
    let mut fs: Vec<(String, Json)> = Vec::new();
    fs.push((k.to_string(), v));
    proof {
        lemma_fields_view(fs@);
        assert(fields_view(fs@) =~= seq![(k@, v@)]);
    }
    Json::Object(fs)
}

fn jobj2(k1: &str, v1: Json, k2: &str, v2: Json) -> (r: Json)
    ensures
        r@ == JsonV::Object(seq![(k1@, v1@), (k2@, v2@)]),
{
    let mut fs: Vec<(String, Json)> = Vec::new();
    fs.push((k1.to_string(), v1));
    fs.push((k2.to_string(), v2));
    proof {
        lemma_fields_view(fs@);
        assert(fields_view(fs@) =~= seq![(k1@, v1@), (k2@, v2@)]);
    }
    Json::Object(fs)
}

fn jstr(s: &String) -> (r: Json)
    ensures
        r@ == JsonV::Str(s@),
{
    Json::Str(s.clone())
}

fn text_part_json(t: &String) -> (r: Json)
    ensures
        r@ == text_part(t@),
{
    jobj1("text", jstr(t))
}

fn inline_part_json(mt: &String, data: &String) -> (r: Json)
    ensures
        r@ == inline_part(mt@, data@),
{
    jobj1("inlineData", jobj2("mimeType", jstr(mt), "data", jstr(data)))
}

fn file_part_json(uri: &String, mt: &String, name: &Option<String>) -> (r: Json)
    ensures
        r@ == file_part(uri@, mt@, opt_view(*name)),
{
    let mut fs: Vec<(String, Json)> = Vec::new();
    fs.push(("fileUri".to_string(), jstr(uri)));
    fs.push(("mimeType".to_string(), jstr(mt)));
    if let Some(n) = name {
        fs.push(("displayName".to_string(), jstr(n)));
    }
    proof {
        lemma_fields_view(fs@);
        assert(fields_view(fs@) =~= seq![("fileUri"@, JsonV::Str(uri@)), ("mimeType"@, JsonV::Str(mt@))] + match opt_view(*name) {
            Some(n) => seq![("displayName"@, JsonV::Str(n))],
            None => Seq::empty(),
        });
    }
    jobj1("fileData", Json::Object(fs))
}

fn signed_json(part: Json, sig: &Option<String>) -> (r: Json)
    ensures
        r@ == signed(part@, opt_view(*sig)),
{
    match sig {
        Some(s) => if s.as_str().unicode_len() > 0 {
            with_member(part, "thoughtSignature".to_string(), jstr(s))
        } else {
            part
        },
        None => part,
    }
}

fn is_ref_image_str(mt: &String) -> (r: bool)
    ensures
        r == is_ref_image(mt@),
{
    str_eq(mt.as_str(), "url") || str_eq(mt.as_str(), "file")
}

fn doc_part_json(source: DocSource, mt: &String, data: &String, name: &Option<String>) -> (r: Option<Json>)
    ensures
        match r {
            Some(v) => doc_part(source, mt@, data@, opt_view(*name)) == Some(v@),
            None => doc_part(source, mt@, data@, opt_view(*name)) is None,
        },
{
    match source {
        DocSource::Url => Some(file_part_json(data, mt, name)),
        DocSource::Base64 => Some(inline_part_json(mt, data)),
        DocSource::Text => Some(text_part_json(data)),
        DocSource::File => None,
    }
}

/// Appends `v` to the parts.
fn push_part(parts: &mut Vec<Json>, v: Json)
    ensures
        items_view(final(parts)@) == items_view(old(parts)@).push(v@),
{
    proof {
        lemma_items_view(parts@);
    }
    let ghost before = items_view(parts@);
    parts.push(v);
    proof {
        lemma_items_view(parts@);
        assert(items_view(parts@) =~= before.push(v@));
    }
}

/// Places a pending credential (see [`flush_sig`]).
fn flush_pending_sig(parts: &mut Vec<Json>, pending: &mut Option<String>)
    ensures
        items_view(final(parts)@) == flush_sig(items_view(old(parts)@), opt_view(*old(pending))),
        *final(pending) == None::<String>,
{
    proof {
        lemma_items_view(parts@);
    }
    let ghost before = items_view(parts@);
    let p = pending.take();
    match p {
        None => {},
        Some(sig) => {
            let n = parts.len();
            let open_last = n > 0 && parts[n - 1].get("thoughtSignature").is_none();
            if open_last {
                let last = parts.pop().unwrap();
                let ghost mid = parts@;
                let updated = with_member(last, "thoughtSignature".to_string(), Json::Str(sig));
                parts.push(updated);
                proof {
                    lemma_items_view(mid);
                    lemma_items_view(parts@);
                    assert(items_view(parts@) =~= before.update(before.len() - 1, with_field(before.last(), "thoughtSignature"@, JsonV::Str(sig@))));
                }
            } else {
                let v = jobj2("thought", Json::Bool(true), "thoughtSignature", Json::Str(sig));
                push_part(parts, v);
            }
        },
    }
}

/// The names of the tool uses, by value.
pub open spec fn names_view(names: Seq<(String, String)>) -> Seq<(Seq<char>, Seq<char>)> {
    names.map_values(|e: (String, String)| (e.0@, e.1@))
}

pub(crate) fn last_name_of<'a>(names: &'a Vec<(String, String)>, id: &str) -> (r: Option<&'a String>)
    ensures
        match r {
            Some(n) => last_name(names@.map_values(|e: (String, String)| (e.0@, e.1@)), id@) == Some(n@),
            None => last_name(names@.map_values(|e: (String, String)| (e.0@, e.1@)), id@) is None,
        },
{
    let ghost nv = names@.map_values(|e: (String, String)| (e.0@, e.1@));
    let mut k: usize = names.len();
    assert(nv.take(nv.len() as int) == nv);
    while k > 0
        invariant
            k <= names@.len() == nv.len(),
            nv == names@.map_values(|e: (String, String)| (e.0@, e.1@)),
            last_name(nv, id@) == last_name(nv.take(k as int), id@),
        decreases k,
    {
        proof {
            assert(nv.take(k as int).drop_last() == nv.take(k - 1));
            assert(nv.take(k as int).last() == nv[k - 1]);
        }
        if str_eq(names[k - 1].0.as_str(), id) {
            return Some(&names[k - 1].1);
        }
        k = k - 1;
    }
    None
}

fn call_part_json(id: &String, name: &String, input: &Json, sig: &Option<String>) -> (r: Json)
    ensures
        r@ == call_part(id@, name@, input@, opt_view(*sig)),
{
    if str_eq(name.as_str(), EXEC_CODE) {
        signed_json(jobj1("executableCode", input.deep_clone()), sig)
    } else {
        let mut fs: Vec<(String, Json)> = Vec::new();
        fs.push(("name".to_string(), jstr(name)));
        fs.push(("args".to_string(), input.deep_clone()));
        fs.push(("id".to_string(), jstr(id)));
        proof {
            lemma_fields_view(fs@);
            assert(fields_view(fs@) =~= seq![("name"@, JsonV::Str(name@)), ("args"@, input@), ("id"@, JsonV::Str(id@))]);
        }
        jobj1("functionCall", signed_json(Json::Object(fs), sig))
    }
}

fn exec_result_part_json(is_error: bool, output: String) -> (r: Json)
    ensures
        r@ == exec_result_part(is_error, output@),
{
    let outcome = if is_error {
        "OUTCOME_FAILED".to_string()
    } else {
        "OUTCOME_OK".to_string()
    };
    jobj1("codeExecutionResult", jobj2("outcome", Json::Str(outcome), "output", Json::Str(output)))
}

/// Appends the media parts of a tool result's content.
fn push_media(parts: &mut Vec<Json>, content: &Vec<ContentBlock>)
    ensures
        items_view(final(parts)@) == items_view(old(parts)@) + media_parts(blocks_view(content@)),
{
    proof {
        lemma_blocks_view(content@);
    }
    let ghost bv = blocks_view(content@);
    let ghost start = items_view(parts@);
    let mut i: usize = 0;
    while i < content.len()
        invariant
            i <= content@.len() == bv.len(),
            bv == blocks_view(content@),
            forall|k: int| 0 <= k < content@.len() ==> #[trigger] bv[k] == block_view(content@[k]),
            items_view(parts@) == start + media_parts(bv.take(i as int)),
        decreases content@.len() - i,
    {
        proof {
            assert(bv.take(i + 1).drop_last() == bv.take(i as int));
            assert(bv.take(i + 1).last() == bv[i as int]);
        }
        let ghost mid = items_view(parts@);
        let part = match &content[i] {
            ContentBlock::Image { data, media_type } => if is_ref_image_str(media_type) {
                None
            } else {
                Some(inline_part_json(media_type, data))
            },
            ContentBlock::Document { source, media_type, data, name } => doc_part_json(*source, media_type, data, name),
            _ => None,
        };
        match part {
            Some(v) => {
                push_part(parts, v);
                proof {
                    assert(start + media_parts(bv.take(i + 1)) =~= mid.push(v@));
                }
            },
            None => {
                proof {
                    assert(start + media_parts(bv.take(i + 1)) =~= mid);
                }
            },
        }
        i = i + 1;
    }
    proof {
        assert(bv.take(bv.len() as int) == bv);
    }
}

/// Whether a block is an image or document that a tool result hoists.
fn has_media(content: &Vec<ContentBlock>) -> (r: bool)
    ensures
        r == (media_parts(blocks_view(content@)).len() > 0),
{
    let mut probe: Vec<Json> = Vec::new();
    proof {
        lemma_items_view(probe@);
    }
    push_media(&mut probe, content);
    proof {
        lemma_items_view(probe@);
    }
    probe.len() > 0
}

/// Appends the parts of a tool result (see [`result_parts`]).
fn push_result_parts(parts: &mut Vec<Json>, names: &Vec<(String, String)>, id: &String, content: &Vec<ContentBlock>, is_error: bool)
    ensures
        items_view(final(parts)@) == items_view(old(parts)@) + result_parts(names_view(names@), id@, blocks_view(content@), is_error),
{
    let ghost start = items_view(parts@);
    let ghost nv = names_view(names@);
    let known = last_name_of(names, id.as_str());
    let fname = match known {
        Some(n) => n.clone(),
        None => if str_starts_with(id.as_str(), FR_NAME_PREFIX) {
            proof {
                reveal_strlit("__gemini_fres__:");
            }
            skip_str(id.as_str(), FR_NAME_PREFIX.unicode_len())
        } else {
            id.clone()
        },
    };
    proof {
        assert(fname@ == result_name(nv, id@));
    }
    let text = text_of(content.as_slice());
    if str_eq(fname.as_str(), EXEC_CODE) || str_starts_with(id.as_str(), EXEC_CODE) {
        push_part(parts, exec_result_part_json(is_error, text));
        proof {
            assert(items_view(parts@) =~= start + result_parts(nv, id@, blocks_view(content@), is_error));
        }
        return;
    }
    let mut rs: Vec<(String, Json)> = Vec::new();
    rs.push(("result".to_string(), Json::Str(text)));
    if is_error {
        rs.push(("is_error".to_string(), Json::Bool(true)));
    }
    let mut fr: Vec<(String, Json)> = Vec::new();
    fr.push(("name".to_string(), jstr(&fname)));
    proof {
        lemma_fields_view(rs@);
    }
    let ghost resp_v = JsonV::Object(fields_view(rs@));
    fr.push(("response".to_string(), Json::Object(rs)));
    if known.is_some() {
        fr.push(("id".to_string(), jstr(id)));
    }
    proof {
        lemma_fields_view(fr@);
    }
    let ghost fr_v = JsonV::Object(fields_view(fr@));
    push_part(parts, jobj1("functionResponse", Json::Object(fr)));
    let ghost mid = items_view(parts@);
    let media = has_media(content);
    if media {
        let intro = concat_str("[media content returned by function call ", fname.as_str());
        let intro2 = concat_str(intro.as_str(), "]");
        push_part(parts, text_part_json(&intro2));
        push_media(parts, content);
    }
    proof {
        let plain = plain_text(blocks_view(content@));
        assert(resp_v == JsonV::Object(seq![("result"@, JsonV::Str(plain))] + if is_error {
            seq![("is_error"@, JsonV::Bool(true))]
        } else {
            Seq::empty()
        })) by {
            assert(fields_view(rs@) =~= seq![("result"@, JsonV::Str(plain))] + if is_error {
                seq![("is_error"@, JsonV::Bool(true))]
            } else {
                Seq::empty()
            });
        }
        assert(fr_v == JsonV::Object(seq![("name"@, JsonV::Str(fname@)), ("response"@, resp_v)] + if last_name(nv, id@) is Some {
            seq![("id"@, JsonV::Str(id@))]
        } else {
            Seq::empty()
        })) by {
            assert(fields_view(fr@) =~= seq![("name"@, JsonV::Str(fname@)), ("response"@, resp_v)] + if last_name(nv, id@) is Some {
                seq![("id"@, JsonV::Str(id@))]
            } else {
                Seq::empty()
            });
        }
        assert(items_view(parts@) =~= start + result_parts(nv, id@, blocks_view(content@), is_error));
    }
}

fn untag_own(sig: &Option<String>) -> (r: Option<String>)
    ensures
        opt_view(r) == untag_spec(SIG_GEMINI@, opt_view(*sig)),
{
    let s = match sig {
        Some(s) => Some(s.as_str()),
        None => None,
    };
    untag_signature(SIG_GEMINI, s)
}

/// One block into Gemini parts (see [`gem_step`]).
fn gem_block(parts: &mut Vec<Json>, pending: &mut Option<String>, b: &ContentBlock, names: &Vec<(String, String)>)
    ensures
        (items_view(final(parts)@), opt_view(*final(pending))) == gem_step(
            (items_view(old(parts)@), opt_view(*old(pending))),
            b@,
            names_view(names@),
        ),
{
    let ghost p0 = items_view(parts@);
    let ghost s0 = opt_view(*pending);
    match b {
        ContentBlock::Text { text } => {
            flush_pending_sig(parts, pending);
            push_part(parts, text_part_json(text));
        },
        ContentBlock::Image { data, media_type } => {
            flush_pending_sig(parts, pending);
            let ghost f = items_view(parts@);
            if !is_ref_image_str(media_type) {
                push_part(parts, inline_part_json(media_type, data));
                proof {
                    assert(items_view(parts@) =~= f + seq![inline_part(media_type@, data@)]);
                }
            } else {
                proof {
                    assert(f + Seq::<JsonV>::empty() == f);
                }
            }
        },
        ContentBlock::Document { source, media_type, data, name } => {
            flush_pending_sig(parts, pending);
            let ghost f = items_view(parts@);
            match doc_part_json(*source, media_type, data, name) {
                Some(v) => {
                    push_part(parts, v);
                    proof {
                        assert(items_view(parts@) =~= f + seq![v@]);
                    }
                },
                None => {
                    proof {
                        assert(f + Seq::<JsonV>::empty() == f);
                    }
                },
            }
        },
        ContentBlock::ToolUse { id, name, namespace: _, input, signature } => {
            let own = untag_own(signature);
            let sig = match own {
                Some(s) => Some(s),
                None => pending.take(),
            };
            push_part(parts, call_part_json(id, name, input, &sig));
        },
        ContentBlock::ToolResult { tool_use_id, content, is_error } => {
            flush_pending_sig(parts, pending);
            push_result_parts(parts, names, tool_use_id, content, *is_error);
        },
        ContentBlock::Reasoning { text, signature, redacted: _ } => {
            let sig = untag_own(signature);
            if text.as_str().unicode_len() == 0 {
                if let Some(s) = sig {
                    if s.as_str().unicode_len() > 0 {
                        *pending = Some(s);
                    }
                }
            } else {
                flush_pending_sig(parts, pending);
                let part = jobj2("thought", Json::Bool(true), "text", jstr(text));
                push_part(parts, signed_json(part, &sig));
            }
        },
    }
}

/// The parts of one message's blocks (see [`message_parts`]).
fn message_parts_of(content: &Vec<ContentBlock>, names: &Vec<(String, String)>) -> (r: Vec<Json>)
    ensures
        items_view(r@) == message_parts(blocks_view(content@), names_view(names@)),
{
    proof {
        lemma_blocks_view(content@);
    }
    let ghost bv = blocks_view(content@);
    let ghost nv = names_view(names@);
    let mut parts: Vec<Json> = Vec::new();
    let mut pending: Option<String> = None;
    proof {
        lemma_items_view(parts@);
    }
    let mut i: usize = 0;
    while i < content.len()
        invariant
            i <= content@.len() == bv.len(),
            bv == blocks_view(content@),
            nv == names_view(names@),
            forall|k: int| 0 <= k < content@.len() ==> #[trigger] bv[k] == block_view(content@[k]),
            gem_run(bv.take(i as int), (Seq::empty(), None), nv) == (items_view(parts@), opt_view(pending)),
        decreases content@.len() - i,
    {
        proof {
            assert(bv.take(i + 1).drop_last() == bv.take(i as int));
            assert(bv.take(i + 1).last() == bv[i as int]);
        }
        gem_block(&mut parts, &mut pending, &content[i], names);
        i = i + 1;
    }
    proof {
        assert(bv.take(bv.len() as int) == bv);
    }
    flush_pending_sig(&mut parts, &mut pending);
    parts
}

/// The (id, name) of each tool use among the blocks, in order.
pub open spec fn tool_use_names(bs: Seq<BlockV>) -> Seq<(Seq<char>, Seq<char>)>
    decreases bs.len(),
{
    if bs.len() == 0 {
        Seq::empty()
    } else {
        tool_use_names(bs.drop_last()) + match bs.last() {
            BlockV::ToolUse { id, name, .. } => seq![(id, name)],
            _ => Seq::empty(),
        }
    }
}

/// The (id, name) of every tool use over all messages, in order.
pub open spec fn all_names(ms: Seq<(Role, Seq<BlockV>)>) -> Seq<(Seq<char>, Seq<char>)>
    decreases ms.len(),
{
    if ms.len() == 0 {
        Seq::empty()
    } else {
        all_names(ms.drop_last()) + tool_use_names(ms.last().1)
    }
}

/// The Gemini contents (role and parts) of core messages: system messages are
/// left out (they go to the system instruction); the assistant is `model`,
/// everyone else `user`; a message without parts is left out; a tool message
/// right after a `user` content joins it, so that all function responses of a
/// turn follow its calls in one content.
pub open spec fn gem_contents(ms: Seq<(Role, Seq<BlockV>)>, names: Seq<(Seq<char>, Seq<char>)>) -> Seq<(Seq<char>, Seq<JsonV>)>
    decreases ms.len(),
{
    if ms.len() == 0 {
        Seq::empty()
    } else {
        let out = gem_contents(ms.drop_last(), names);
        let role = ms.last().0;
        if role == Role::System {
            out
        } else {
            let parts = message_parts(ms.last().1, names);
            if parts.len() == 0 {
                out
            } else if role == Role::Tool && out.len() > 0 && out.last().0 == "user"@ {
                out.update(out.len() - 1, (out.last().0, out.last().1 + parts))
            } else {
                out.push((if role == Role::Assistant {
                    "model"@
                } else {
                    "user"@
                }, parts))
            }
        }
    }
}

/// A Gemini content object.
pub open spec fn content_value(c: (Seq<char>, Seq<JsonV>)) -> JsonV {
    JsonV::Object(seq![("role"@, JsonV::Str(c.0)), ("parts"@, JsonV::Array(c.1))])
}

/// Core messages → Gemini `contents` (see [`gem_contents`]). Gemini pairs a
/// function response with its call by function name, so tool results are
/// named after the tool use of the same id.
pub fn core_to_contents(messages: &[Message]) -> (r: Vec<Json>)
    ensures
        r@.map_values(|j: Json| j@) == gem_contents(
            messages@.map_values(|m: Message| message_view(m)),
            all_names(messages@.map_values(|m: Message| message_view(m))),
        ).map_values(|c: (Seq<char>, Seq<JsonV>)| content_value(c)),
{
    let ghost mv = messages@.map_values(|m: Message| message_view(m));
    // Every tool use's id and name, in order.
    let mut names: Vec<(String, String)> = Vec::new();
    let mut i: usize = 0;
    while i < messages.len()
        invariant
            i <= messages@.len() == mv.len(),
            mv == messages@.map_values(|m: Message| message_view(m)),
            names_view(names@) == all_names(mv.take(i as int)),
        decreases messages@.len() - i,
    {
        proof {
            assert(mv.take(i + 1).drop_last() == mv.take(i as int));
            assert(mv.take(i + 1).last() == message_view(messages@[i as int]));
            lemma_blocks_view(messages@[i as int].content@);
        }
        let content = &messages[i].content;
        let ghost bv = blocks_view(content@);
        let ghost start = names_view(names@);
        let mut j: usize = 0;
        while j < content.len()
            invariant
                j <= content@.len() == bv.len(),
                bv == blocks_view(content@),
                forall|k: int| 0 <= k < content@.len() ==> #[trigger] bv[k] == block_view(content@[k]),
                names_view(names@) == start + tool_use_names(bv.take(j as int)),
            decreases content@.len() - j,
        {
            proof {
                assert(bv.take(j + 1).drop_last() == bv.take(j as int));
                assert(bv.take(j + 1).last() == bv[j as int]);
            }
            let ghost before = names@;
            if let ContentBlock::ToolUse { id, name, .. } = &content[j] {
                names.push((id.clone(), name.clone()));
                proof {
                    assert(names_view(names@) =~= names_view(before).push((id@, name@)));
                }
            } else {
                proof {
                    assert(names_view(names@) + Seq::<(Seq<char>, Seq<char>)>::empty() == names_view(names@));
                }
            }
            j = j + 1;
        }
        proof {
            assert(bv.take(bv.len() as int) == bv);
        }
        i = i + 1;
    }
    proof {
        assert(mv.take(mv.len() as int) == mv);
    }
    let ghost nv = names_view(names@);
    // The contents, as role and parts.
    let mut out: Vec<(String, Vec<Json>)> = Vec::new();
    let mut i: usize = 0;
    while i < messages.len()
        invariant
            i <= messages@.len() == mv.len(),
            mv == messages@.map_values(|m: Message| message_view(m)),
            nv == names_view(names@),
            nv == all_names(mv),
            out@.map_values(|c: (String, Vec<Json>)| (c.0@, items_view(c.1@))) == gem_contents(mv.take(i as int), nv),
        decreases messages@.len() - i,
    {
        proof {
            assert(mv.take(i + 1).drop_last() == mv.take(i as int));
            assert(mv.take(i + 1).last() == message_view(messages@[i as int]));
        }
        let ghost ov = out@.map_values(|c: (String, Vec<Json>)| (c.0@, items_view(c.1@)));
        let m = &messages[i];
        if m.role != Role::System {
            let mut parts = message_parts_of(&m.content, &names);
            if parts.len() > 0 {
                proof {
                    lemma_items_view(parts@);
                }
                let n = out.len();
                let merge = m.role == Role::Tool && n > 0 && str_eq(out[n - 1].0.as_str(), "user");
                if merge {
                    let (r0, mut p0) = out.pop().unwrap();
                    let ghost a = items_view(p0@);
                    let ghost b = items_view(parts@);
                    let ghost p0s = p0@;
                    let ghost ps = parts@;
                    proof {
                        lemma_items_view(p0s);
                        lemma_items_view(ps);
                    }
                    p0.append(&mut parts);
                    proof {
                        assert(p0@ == p0s + ps);
                        lemma_items_view(p0@);
                        assert(items_view(p0@) =~= a + b);
                    }
                    out.push((r0, p0));
                    proof {
                        assert(out@.map_values(|c: (String, Vec<Json>)| (c.0@, items_view(c.1@))) =~= ov.update(ov.len() - 1, (ov.last().0, ov.last().1 + b)));
                    }
                } else {
                    let role = if m.role == Role::Assistant {
                        "model".to_string()
                    } else {
                        "user".to_string()
                    };
                    let ghost pv = items_view(parts@);
                    out.push((role, parts));
                    proof {
                        assert(out@.map_values(|c: (String, Vec<Json>)| (c.0@, items_view(c.1@))) =~= ov.push((role@, pv)));
                    }
                }
            } else {
                proof {
                    lemma_items_view(parts@);
                }
            }
        }
        i = i + 1;
    }
    proof {
        assert(mv.take(mv.len() as int) == mv);
    }
    // Into JSON objects.
    let ghost cv = out@.map_values(|c: (String, Vec<Json>)| (c.0@, items_view(c.1@)));
    let mut res: Vec<Json> = Vec::new();
    let mut k: usize = 0;
    let n = out.len();
    let mut rest = out;
    proof {
        assert(rest@.skip(0) == rest@);
    }
    let ghost all = rest@;
    while k < n
        invariant
            k <= n == all.len() == cv.len(),
            cv == all.map_values(|c: (String, Vec<Json>)| (c.0@, items_view(c.1@))),
            rest@ == all.skip(k as int),
            res@.map_values(|j: Json| j@) == cv.take(k as int).map_values(|c: (Seq<char>, Seq<JsonV>)| content_value(c)),
        decreases n - k,
    {
        let (role, parts) = rest.remove(0);
        proof {
            assert((role, parts) == all[k as int]);
            assert(rest@ == all.skip(k + 1));
            lemma_items_view(parts@);
        }
        let ghost before = res@;
        let v = jobj2("role", Json::Str(role), "parts", Json::Array(parts));
        res.push(v);
        proof {
            assert(cv.take(k + 1).map_values(|c: (Seq<char>, Seq<JsonV>)| content_value(c)) =~= cv.take(k as int).map_values(|c: (Seq<char>, Seq<JsonV>)| content_value(c)).push(content_value(cv[k as int])));
            assert(res@.map_values(|j: Json| j@) =~= before.map_values(|j: Json| j@).push(v@));
        }
        k = k + 1;
    }
    proof {
        assert(cv.take(cv.len() as int) == cv);
    }
    res
}

/// One response block into candidate parts: as in a request, except that a
/// tool result is only kept when it is a code execution result.
pub open spec fn resp_step(st: PartsState, b: BlockV) -> PartsState {
    match b {
        BlockV::ToolResult { tool_use_id, content, is_error } => (
            flush_sig(st.0, st.1) + if has_prefix(tool_use_id, EXEC_CODE@) {
                seq![exec_result_part(is_error, plain_text(content))]
            } else {
                Seq::empty()
            },
            None,
        ),
        _ => gem_step(st, b, Seq::empty()),
    }
}

pub open spec fn resp_run(bs: Seq<BlockV>, st: PartsState) -> PartsState
    decreases bs.len(),
{
    if bs.len() == 0 {
        st
    } else {
        resp_step(resp_run(bs.drop_last(), st), bs.last())
    }
}

/// The candidate parts of response blocks (the last pending credential
/// placed).
pub open spec fn response_parts(bs: Seq<BlockV>) -> Seq<JsonV> {
    let st = resp_run(bs, (Seq::empty(), None));
    flush_sig(st.0, st.1)
}

/// Core response blocks → the parts of a Gemini candidate (see
/// [`response_parts`]).
pub fn core_to_parts(content: &[ContentBlock]) -> (r: Vec<Json>)
    ensures
        items_view(r@) == response_parts(blocks_view(content@)),
{
    proof {
        lemma_blocks_view(content@);
    }
    let ghost bv = blocks_view(content@);
    let no_names: Vec<(String, String)> = Vec::new();
    proof {
        assert(names_view(no_names@) =~= Seq::<(Seq<char>, Seq<char>)>::empty());
    }
    let mut parts: Vec<Json> = Vec::new();
    let mut pending: Option<String> = None;
    proof {
        lemma_items_view(parts@);
    }
    let mut i: usize = 0;
    while i < content.len()
        invariant
            i <= content@.len() == bv.len(),
            bv == blocks_view(content@),
            names_view(no_names@) == Seq::<(Seq<char>, Seq<char>)>::empty(),
            forall|k: int| 0 <= k < content@.len() ==> #[trigger] bv[k] == block_view(content@[k]),
            resp_run(bv.take(i as int), (Seq::empty(), None)) == (items_view(parts@), opt_view(pending)),
        decreases content@.len() - i,
    {
        proof {
            assert(bv.take(i + 1).drop_last() == bv.take(i as int));
            assert(bv.take(i + 1).last() == bv[i as int]);
        }
        match &content[i] {
            ContentBlock::ToolResult { tool_use_id, content: inner, is_error } => {
                flush_pending_sig(&mut parts, &mut pending);
                let ghost f = items_view(parts@);
                if str_starts_with(tool_use_id.as_str(), EXEC_CODE) {
                    push_part(&mut parts, exec_result_part_json(*is_error, text_of(inner.as_slice())));
                    proof {
                        assert(items_view(parts@) =~= f + seq![exec_result_part(*is_error, plain_text(blocks_view(inner@)))]);
                    }
                } else {
                    proof {
                        assert(f + Seq::<JsonV>::empty() == f);
                    }
                }
            },
            other => {
                gem_block(&mut parts, &mut pending, other, &no_names);
            },
        }
        i = i + 1;
    }
    proof {
        assert(bv.take(bv.len() as int) == bv);
    }
    flush_pending_sig(&mut parts, &mut pending);
    parts
}

/// The texts of the text blocks of the system and of system messages.
pub open spec fn text_blocks(bs: Seq<BlockV>) -> Seq<Seq<char>>
    decreases bs.len(),
{
    if bs.len() == 0 {
        Seq::empty()
    } else {
        text_blocks(bs.drop_last()) + match bs.last() {
            BlockV::Text { text } => seq![text],
            _ => Seq::empty(),
        }
    }
}

/// The system texts of system messages, in order.
pub open spec fn system_message_texts(ms: Seq<(Role, Seq<BlockV>)>) -> Seq<Seq<char>>
    decreases ms.len(),
{
    if ms.len() == 0 {
        Seq::empty()
    } else {
        system_message_texts(ms.drop_last()) + if ms.last().0 == Role::System {
            text_blocks(ms.last().1)
        } else {
            Seq::empty()
        }
    }
}

/// Texts joined with a blank line between them.
pub open spec fn join_paragraphs(ts: Seq<Seq<char>>) -> Seq<char>
    decreases ts.len(),
{
    if ts.len() == 0 {
        Seq::empty()
    } else if ts.len() == 1 {
        ts[0]
    } else {
        join_paragraphs(ts.drop_last()) + "\n\n"@ + ts.last()
    }
}

/// The Gemini `systemInstruction` of a core system and messages: one text
/// part joining every system text with blank lines; none without any.
pub open spec fn system_instruction(system: Seq<BlockV>, ms: Seq<(Role, Seq<BlockV>)>) -> Option<JsonV> {
    let ts = text_blocks(system) + system_message_texts(ms);
    if ts.len() == 0 {
        None
    } else {
        Some(obj1("parts"@, JsonV::Array(seq![text_part(join_paragraphs(ts))])))
    }
}

pub(crate) fn push_texts(ts: &mut Vec<String>, bs: &Vec<ContentBlock>)
    ensures
        final(ts)@.map_values(|s: String| s@) == old(ts)@.map_values(|s: String| s@) + text_blocks(blocks_view(bs@)),
{
    proof {
        lemma_blocks_view(bs@);
    }
    let ghost bv = blocks_view(bs@);
    let ghost start = ts@.map_values(|s: String| s@);
    let mut i: usize = 0;
    while i < bs.len()
        invariant
            i <= bs@.len() == bv.len(),
            bv == blocks_view(bs@),
            forall|k: int| 0 <= k < bs@.len() ==> #[trigger] bv[k] == block_view(bs@[k]),
            ts@.map_values(|s: String| s@) == start + text_blocks(bv.take(i as int)),
        decreases bs@.len() - i,
    {
        proof {
            assert(bv.take(i + 1).drop_last() == bv.take(i as int));
            assert(bv.take(i + 1).last() == bv[i as int]);
        }
        let ghost before = ts@;
        if let ContentBlock::Text { text } = &bs[i] {
            ts.push(text.clone());
            proof {
                assert(ts@.map_values(|s: String| s@) =~= before.map_values(|s: String| s@).push(text@));
            }
        } else {
            proof {
                assert(ts@.map_values(|s: String| s@) + Seq::<Seq<char>>::empty() == ts@.map_values(|s: String| s@));
            }
        }
        i = i + 1;
    }
    proof {
        assert(bv.take(bv.len() as int) == bv);
    }
}

/// The texts of the top-level system blocks, then of the system messages.
pub(crate) fn system_texts(system: &Vec<ContentBlock>, messages: &[Message]) -> (r: Vec<String>)
    ensures
        r@.map_values(|s: String| s@) == text_blocks(blocks_view(system@)) + system_message_texts(
            messages@.map_values(|m: Message| message_view(m)),
        ),
{
    let ghost mv = messages@.map_values(|m: Message| message_view(m));
    let mut ts: Vec<String> = Vec::new();
    proof {
        assert(ts@.map_values(|s: String| s@) =~= Seq::<Seq<char>>::empty());
    }
    push_texts(&mut ts, system);
    let ghost sys = ts@.map_values(|s: String| s@);
    let mut i: usize = 0;
    while i < messages.len()
        invariant
            i <= messages@.len() == mv.len(),
            mv == messages@.map_values(|m: Message| message_view(m)),
            sys == text_blocks(blocks_view(system@)),
            ts@.map_values(|s: String| s@) == sys + system_message_texts(mv.take(i as int)),
        decreases messages@.len() - i,
    {
        proof {
            assert(mv.take(i + 1).drop_last() == mv.take(i as int));
            assert(mv.take(i + 1).last() == message_view(messages@[i as int]));
        }
        if messages[i].role == Role::System {
            push_texts(&mut ts, &messages[i].content);
            proof {
                assert(sys + system_message_texts(mv.take(i + 1)) =~= sys + system_message_texts(mv.take(i as int)) + text_blocks(blocks_view(messages@[i as int].content@)));
            }
        } else {
            proof {
                assert(sys + system_message_texts(mv.take(i + 1)) =~= sys + system_message_texts(mv.take(i as int)));
            }
        }
        i = i + 1;
    }
    proof {
        assert(mv.take(mv.len() as int) == mv);
    }
    ts
}

/// Core system (top-level and system messages) → Gemini `systemInstruction`
/// (see [`system_instruction`]).
pub fn core_to_system_instruction(system: &Vec<ContentBlock>, messages: &[Message]) -> (r: Option<Json>)
    ensures
        match r {
            Some(v) => system_instruction(blocks_view(system@), messages@.map_values(|m: Message| message_view(m))) == Some(v@),
            None => system_instruction(blocks_view(system@), messages@.map_values(|m: Message| message_view(m))) is None,
        },
{
    let ts = system_texts(system, messages);
    if ts.len() == 0 {
        return None;
    }
    let ghost tv = ts@.map_values(|s: String| s@);
    let mut joined = ts[0].clone();
    let mut k: usize = 1;
    proof {
        assert(tv.take(1) =~= seq![tv[0]]);
    }
    while k < ts.len()
        invariant
            1 <= k <= ts@.len() == tv.len(),
            tv == ts@.map_values(|s: String| s@),
            joined@ == join_paragraphs(tv.take(k as int)),
        decreases ts@.len() - k,
    {
        proof {
            assert(tv.take(k + 1).drop_last() == tv.take(k as int));
            assert(tv.take(k + 1).last() == tv[k as int]);
        }
        let a = concat_str(joined.as_str(), "\n\n");
        joined = concat_str(a.as_str(), ts[k].as_str());
        k = k + 1;
    }
    proof {
        assert(tv.take(tv.len() as int) == tv);
    }
    let part = text_part_json(&joined);
    let mut arr: Vec<Json> = Vec::new();
    arr.push(part);
    proof {
        lemma_items_view(arr@);
        assert(items_view(arr@) =~= seq![text_part(joined@)]);
    }
    Some(jobj1("parts", Json::Array(arr)))
}


/// The Gemini function declaration of a core tool: its name and parameters,
/// then its description when it has one.
pub open spec fn declaration(t: ToolV) -> JsonV {
    JsonV::Object(
        seq![("name"@, JsonV::Str(t.name)), ("parameters"@, t.input_schema)] + match t.description {
            Some(d) => seq![("description"@, JsonV::Str(d))],
            None => Seq::empty(),
        },
    )
}

/// The Gemini `tools` of core tools: one entry holding every declaration in
/// order; none without tools.
pub open spec fn gemini_tools(ts: Seq<ToolV>) -> Option<JsonV> {
    if ts.len() == 0 {
        None
    } else {
        Some(JsonV::Array(seq![obj1("functionDeclarations"@, JsonV::Array(ts.map_values(|t: ToolV| declaration(t))))]))
    }
}

fn declaration_json(t: &Tool) -> (r: Json)
    ensures
        r@ == declaration(tool_view(*t)),
{
    let mut fs: Vec<(String, Json)> = Vec::new();
    fs.push(("name".to_string(), jstr(&t.name)));
    fs.push(("parameters".to_string(), t.input_schema.deep_clone()));
    if let Some(d) = &t.description {
        fs.push(("description".to_string(), jstr(d)));
    }
    proof {
        lemma_fields_view(fs@);
        let tv = tool_view(*t);
        let exp = seq![("name"@, JsonV::Str(tv.name)), ("parameters"@, tv.input_schema)] + match tv.description {
            Some(d) => seq![("description"@, JsonV::Str(d))],
            None => Seq::empty(),
        };
        assert(fields_view(fs@) =~= exp);
    }
    Json::Object(fs)
}

/// Core tools → Gemini `tools` (see [`gemini_tools`]).
pub fn core_to_tools(tools: &[Tool]) -> (r: Option<Json>)
    ensures
        match r {
            Some(v) => gemini_tools(tools@.map_values(|t: Tool| tool_view(t))) == Some(v@),
            None => gemini_tools(tools@.map_values(|t: Tool| tool_view(t))) is None,
        },
{
    let ghost tv = tools@.map_values(|t: Tool| tool_view(t));
    if tools.len() == 0 {
        return None;
    }
    let mut decls: Vec<Json> = Vec::new();
    let mut i: usize = 0;
    while i < tools.len()
        invariant
            i <= tools@.len(),
            decls@.len() == i,
            forall|k: int| 0 <= k < i ==> (#[trigger] decls@[k])@ == declaration(tool_view(tools@[k])),
        decreases tools@.len() - i,
    {
        decls.push(declaration_json(&tools[i]));
        i = i + 1;
    }
    proof {
        lemma_items_view(decls@);
        assert(items_view(decls@) =~= tv.map_values(|t: ToolV| declaration(t)));
    }
    let entry = jobj1("functionDeclarations", Json::Array(decls));
    let mut arr: Vec<Json> = Vec::new();
    arr.push(entry);
    proof {
        lemma_items_view(arr@);
        assert(items_view(arr@) =~= seq![entry@]);
    }
    Some(Json::Array(arr))
}

/// The Gemini `functionCallingConfig` mode of a tool choice.
pub open spec fn calling_mode(t: ToolChoiceV) -> Seq<char> {
    match t {
        ToolChoiceV::Auto => "AUTO"@,
        ToolChoiceV::NoTools => "NONE"@,
        _ => "ANY"@,
    }
}

/// The Gemini `toolConfig` of a tool choice: its mode, and for a named tool
/// the one allowed function name.
pub open spec fn tool_config_value(t: ToolChoiceV) -> JsonV {
    obj1(
        "functionCallingConfig"@,
        match t {
            ToolChoiceV::Tool { name } => JsonV::Object(
                seq![("mode"@, JsonV::Str(calling_mode(t))), ("allowedFunctionNames"@, JsonV::Array(seq![JsonV::Str(name)]))],
            ),
            _ => obj1("mode"@, JsonV::Str(calling_mode(t))),
        },
    )
}

/// Core tool choice → Gemini `toolConfig` (see [`tool_config_value`]); none
/// without a choice.
pub fn core_to_tool_config(tc: Option<&ToolChoice>) -> (r: Option<Json>)
    ensures
        match tc {
            Some(t) => r is Some && r->0@ == tool_config_value(tool_choice_view(*t)),
            None => r is None,
        },
{
    let choice = match tc {
        Some(c) => c,
        None => {
            return None;
        },
    };
    let mode = match choice {
        ToolChoice::Auto => "AUTO",
        ToolChoice::NoTools => "NONE",
        _ => "ANY",
    };
    let config = match choice {
        ToolChoice::Tool { name } => {
            let mut names: Vec<Json> = Vec::new();
            names.push(jstr(name));
            proof {
                lemma_items_view(names@);
                assert(items_view(names@) =~= seq![JsonV::Str(name@)]);
            }
            jobj2("mode", Json::Str(mode.to_string()), "allowedFunctionNames", Json::Array(names))
        },
        _ => jobj1("mode", Json::Str(mode.to_string())),
    };
    Some(jobj1("functionCallingConfig", config))
}

/// The tool choice of a Gemini `toolConfig`: by its `functionCallingConfig`
/// mode; `ANY` with exactly one allowed function name names that tool.
pub open spec fn tool_config_choice(tc: JsonV) -> Option<ToolChoiceV> {
    match tc.field("functionCallingConfig"@) {
        Some(fcc) => match fcc.field_str("mode"@) {
            Some(m) => if m == "AUTO"@ {
                Some(ToolChoiceV::Auto)
            } else if m == "NONE"@ {
                Some(ToolChoiceV::NoTools)
            } else if m == "ANY"@ {
                match fcc.field("allowedFunctionNames"@) {
                    Some(a) => match a.array_of() {
                        Some(ns) => if ns.len() == 1 {
                            match ns[0].str_of() {
                                Some(n) => Some(ToolChoiceV::Tool { name: n }),
                                None => Some(ToolChoiceV::Required),
                            }
                        } else {
                            Some(ToolChoiceV::Required)
                        },
                        None => Some(ToolChoiceV::Required),
                    },
                    None => Some(ToolChoiceV::Required),
                }
            } else {
                None
            },
            None => None,
        },
        None => None,
    }
}

pub open spec fn opt_choice(o: Option<ToolChoice>) -> Option<ToolChoiceV> {
    match o {
        Some(t) => Some(tool_choice_view(t)),
        None => None,
    }
}

/// Gemini `toolConfig` → core tool choice (see [`tool_config_choice`]).
pub fn tool_config_to_core(tc: Option<&Json>) -> (r: Option<ToolChoice>)
    ensures
        match tc {
            Some(v) => opt_choice(r) == tool_config_choice(v@),
            None => r is None,
        },
{
    let v = match tc {
        Some(v) => v,
        None => {
            return None;
        },
    };
    let fcc = match v.get("functionCallingConfig") {
        Some(f) => f,
        None => {
            return None;
        },
    };
    let mode = match fcc.get_str("mode") {
        Some(m) => m,
        None => {
            return None;
        },
    };
    if str_eq(mode, "AUTO") {
        Some(ToolChoice::Auto)
    } else if str_eq(mode, "NONE") {
        Some(ToolChoice::NoTools)
    } else if str_eq(mode, "ANY") {
        if let Some(a) = fcc.get("allowedFunctionNames") {
            if let Some(ns) = a.as_array() {
                proof {
                    lemma_items_view(ns@);
                }
                if ns.len() == 1 {
                    if let Some(n) = ns[0].as_str() {
                        return Some(ToolChoice::Tool { name: n.to_string() });
                    }
                }
            }
        }
        Some(ToolChoice::Required)
    } else {
        None
    }
}

/// Reading back the `toolConfig` written for a tool choice gives the choice.
pub proof fn law_tool_config_roundtrip(t: ToolChoiceV)
    ensures
        tool_config_choice(tool_config_value(t)) == Some(t),
{
    reveal_strlit("functionCallingConfig");
    reveal_strlit("mode");
    reveal_strlit("allowedFunctionNames");
    reveal_strlit("AUTO");
    reveal_strlit("NONE");
    reveal_strlit("ANY");
    assert("AUTO"@[0] != "NONE"@[0]);
    assert("ANY"@.len() != "AUTO"@.len() && "ANY"@.len() != "NONE"@.len());
    assert("mode"@.len() != "allowedFunctionNames"@.len());
    let cfg = tool_config_value(t);
    let inner = cfg->Object_0[0].1;
    assert(cfg.field("functionCallingConfig"@) == Some(inner));
    let fs = inner->Object_0;
    assert(fs[0] == ("mode"@, JsonV::Str(calling_mode(t))));
    assert(inner.field_str("mode"@) == Some(calling_mode(t)));
    if let ToolChoiceV::Tool { name } = t {
        assert(fs.len() == 2);
        crate::json::lemma_find_field_at(fs, "allowedFunctionNames"@, 1);
        assert(inner.field("allowedFunctionNames"@) == Some(JsonV::Array(seq![JsonV::Str(name)])));
    } else {
        assert(fs.len() == 1);
        crate::json::lemma_find_field_absent(fs, "allowedFunctionNames"@);
    }
}

/// A system text block for each non-empty text.
pub open spec fn nonempty_text(t: Option<Seq<char>>) -> Seq<BlockV> {
    match t {
        Some(x) => if x.len() > 0 {
            seq![BlockV::Text { text: x }]
        } else {
            Seq::empty()
        },
        None => Seq::empty(),
    }
}

/// The text blocks of `systemInstruction` parts: each part's non-empty
/// `text`, in order.
pub open spec fn instruction_texts(ps: Seq<JsonV>) -> Seq<BlockV>
    decreases ps.len(),
{
    if ps.len() == 0 {
        Seq::empty()
    } else {
        instruction_texts(ps.drop_last()) + nonempty_text(ps.last().field_str("text"@))
    }
}

/// The core system blocks of a Gemini `systemInstruction`: a plain string
/// gives itself when non-empty; an object gives the non-empty texts of its
/// `parts`.
pub open spec fn instruction_blocks(si: Option<JsonV>) -> Seq<BlockV> {
    match si {
        Some(JsonV::Str(s)) => nonempty_text(Some(s)),
        Some(v) => match v.field("parts"@) {
            Some(p) => match p.array_of() {
                Some(ps) => instruction_texts(ps),
                None => Seq::empty(),
            },
            None => Seq::empty(),
        },
        None => Seq::empty(),
    }
}

fn push_nonempty_text(out: &mut Vec<ContentBlock>, t: Option<&str>)
    ensures
        blocks_view(final(out)@) == blocks_view(old(out)@) + nonempty_text(match t {
            Some(x) => Some(x@),
            None => None,
        }),
{
    let ghost before = out@;
    if let Some(x) = t {
        if x.unicode_len() > 0 {
            let b = ContentBlock::Text { text: x.to_string() };
            out.push(b);
            proof {
                lemma_blocks_view_push(before, b);
            }
            return;
        }
    }
    proof {
        assert(blocks_view(out@) + Seq::<BlockV>::empty() == blocks_view(out@));
    }
}

/// Gemini `systemInstruction` → core system blocks (see
/// [`instruction_blocks`]).
pub fn system_instruction_to_core(si: Option<&Json>) -> (r: Vec<ContentBlock>)
    ensures
        blocks_view(r@) == instruction_blocks(match si {
            Some(v) => Some(v@),
            None => None,
        }),
{
    let mut out: Vec<ContentBlock> = Vec::new();
    proof {
        assert(blocks_view(out@) == Seq::<BlockV>::empty());
    }
    match si {
        Some(Json::Str(s)) => {
            push_nonempty_text(&mut out, Some(s.as_str()));
        },
        Some(v) => {
            if let Some(p) = v.get("parts") {
                if let Some(ps) = p.as_array() {
                    proof {
                        lemma_items_view(ps@);
                    }
                    let ghost pv = items_view(ps@);
                    let mut i: usize = 0;
                    while i < ps.len()
                        invariant
                            i <= ps@.len() == pv.len(),
                            pv == items_view(ps@),
                            forall|k: int| 0 <= k < ps@.len() ==> #[trigger] pv[k] == json_view(ps@[k]),
                            blocks_view(out@) == instruction_texts(pv.take(i as int)),
                        decreases ps@.len() - i,
                    {
                        proof {
                            assert(pv.take(i + 1).drop_last() == pv.take(i as int));
                            assert(pv.take(i + 1).last() == pv[i as int]);
                        }
                        push_nonempty_text(&mut out, ps[i].get_str("text"));
                        i = i + 1;
                    }
                    proof {
                        assert(pv.take(pv.len() as int) == pv);
                    }
                }
            }
        },
        None => {},
    }
    out
}

/// The core tool of a Gemini function declaration: name, description and
/// `parameters` (an object schema when absent); none without a name.
pub open spec fn declaration_tool(d: JsonV) -> Option<ToolV> {
    match d.field_str("name"@) {
        Some(name) => Some(
            ToolV {
                name,
                description: d.field_str("description"@),
                input_schema: match d.field("parameters"@) {
                    Some(p) => p,
                    None => obj1("type"@, JsonV::Str("object"@)),
                },
            },
        ),
        None => None,
    }
}

/// The core tools of a list of declarations, in order.
pub open spec fn declaration_tools(ds: Seq<JsonV>) -> Seq<ToolV>
    decreases ds.len(),
{
    if ds.len() == 0 {
        Seq::empty()
    } else {
        declaration_tools(ds.drop_last()) + match declaration_tool(ds.last()) {
            Some(t) => seq![t],
            None => Seq::empty(),
        }
    }
}

/// The core tools of one Gemini `tools` entry: its `functionDeclarations`.
pub open spec fn entry_tools(t: JsonV) -> Seq<ToolV> {
    match t.field("functionDeclarations"@) {
        Some(d) => match d.array_of() {
            Some(ds) => declaration_tools(ds),
            None => Seq::empty(),
        },
        None => Seq::empty(),
    }
}

/// The core tools of Gemini `tools`: every entry's, in order.
pub open spec fn gemini_tools_core(ts: Seq<JsonV>) -> Seq<ToolV>
    decreases ts.len(),
{
    if ts.len() == 0 {
        Seq::empty()
    } else {
        gemini_tools_core(ts.drop_last()) + entry_tools(ts.last())
    }
}

fn declaration_tool_of(d: &Json) -> (r: Option<Tool>)
    ensures
        match r {
            Some(x) => declaration_tool(d@) == Some(tool_view(x)),
            None => declaration_tool(d@) is None,
        },
{
    let name = match d.get_str("name") {
        Some(n) => n.to_string(),
        None => {
            return None;
        },
    };
    let description = opt_string(d.get_str("description"));
    let input_schema = match d.get("parameters") {
        Some(p) => p.deep_clone(),
        None => jobj1("type", Json::Str("object".to_string())),
    };
    Some(Tool { name, description, input_schema })
}

fn push_entry_tools(out: &mut Vec<Tool>, t: &Json)
    ensures
        final(out)@.map_values(|x: Tool| tool_view(x)) == old(out)@.map_values(|x: Tool| tool_view(x)) + entry_tools(t@),
{
    let ghost start = out@.map_values(|x: Tool| tool_view(x));
    let ds = match t.get("functionDeclarations") {
        Some(d) => match d.as_array() {
            Some(ds) => ds,
            None => {
                proof {
                    assert(start + Seq::<ToolV>::empty() == start);
                }
                return;
            },
        },
        None => {
            proof {
                assert(start + Seq::<ToolV>::empty() == start);
            }
            return;
        },
    };
    proof {
        lemma_items_view(ds@);
    }
    let ghost dv = items_view(ds@);
    let mut i: usize = 0;
    proof {
        assert(start + declaration_tools(dv.take(0)) == start);
    }
    while i < ds.len()
        invariant
            i <= ds@.len() == dv.len(),
            dv == items_view(ds@),
            forall|k: int| 0 <= k < ds@.len() ==> #[trigger] dv[k] == json_view(ds@[k]),
            out@.map_values(|x: Tool| tool_view(x)) == start + declaration_tools(dv.take(i as int)),
        decreases ds@.len() - i,
    {
        proof {
            assert(dv.take(i + 1).drop_last() == dv.take(i as int));
            assert(dv.take(i + 1).last() == dv[i as int]);
        }
        let ghost before = out@;
        match declaration_tool_of(&ds[i]) {
            Some(x) => {
                let ghost xv = tool_view(x);
                out.push(x);
                proof {
                    assert(out@.map_values(|x: Tool| tool_view(x)) =~= before.map_values(|x: Tool| tool_view(x)).push(xv));
                }
            },
            None => {
                proof {
                    assert(declaration_tools(dv.take(i as int)) + Seq::<ToolV>::empty() == declaration_tools(dv.take(i as int)));
                }
            },
        }
        i = i + 1;
    }
    proof {
        assert(dv.take(dv.len() as int) == dv);
    }
}

/// Gemini `tools` → core tools (see [`gemini_tools_core`]).
pub fn tools_to_core(tools: &[Json]) -> (r: Vec<Tool>)
    ensures
        r@.map_values(|x: Tool| tool_view(x)) == gemini_tools_core(tools@.map_values(|j: Json| j@)),
{
    let ghost tv = tools@.map_values(|j: Json| j@);
    let mut out: Vec<Tool> = Vec::new();
    let mut i: usize = 0;
    proof {
        assert(out@.map_values(|x: Tool| tool_view(x)) =~= Seq::<ToolV>::empty());
    }
    while i < tools.len()
        invariant
            i <= tools@.len() == tv.len(),
            tv == tools@.map_values(|j: Json| j@),
            out@.map_values(|x: Tool| tool_view(x)) == gemini_tools_core(tv.take(i as int)),
        decreases tools@.len() - i,
    {
        proof {
            assert(tv.take(i + 1).drop_last() == tv.take(i as int));
            assert(tv.take(i + 1).last() == tools@[i as int]@);
        }
        push_entry_tools(&mut out, &tools[i]);
        i = i + 1;
    }
    proof {
        assert(tv.take(tv.len() as int) == tv);
    }
    out
}

/// The members of a Gemini `generationConfig` for a request, in order:
/// `maxOutputTokens`, `temperature`, `topP`, `stopSequences` (when there are
/// any), and a `thinkingConfig` when the request asks for a reasoning effort
/// whose budget, clamped below the token limit, is still usable.
pub open spec fn generation_members(req: CoreRequest) -> Seq<(Seq<char>, JsonV)> {
    (match req.max_tokens {
        Some(mt) => seq![("maxOutputTokens"@, JsonV::PosInt(mt as u64))],
        None => Seq::empty(),
    }) + (match req.temperature {
        Some(t) => seq![("temperature"@, json_view(Json::Num(t)))],
        None => Seq::empty(),
    }) + (match req.top_p {
        Some(p) => seq![("topP"@, json_view(Json::Num(p)))],
        None => Seq::empty(),
    }) + (if req.stop@.len() > 0 {
        seq![("stopSequences"@, JsonV::Array(req.stop@.map_values(|x: String| JsonV::Str(x@))))]
    } else {
        Seq::empty()
    }) + match effort_of(req) {
        Some(e) => match clamped_budget(
            e,
            match req.max_tokens {
                Some(m) => m,
                None => u32::MAX,
            },
        ) {
            Some(b) => seq![
                ("thinkingConfig"@, JsonV::Object(
                    seq![("thinkingBudget"@, JsonV::PosInt(b as u64)), ("includeThoughts"@, JsonV::Bool(true))],
                )),
            ],
            None => Seq::empty(),
        },
        None => Seq::empty(),
    }
}

/// The Gemini `generationConfig` of a request; none when it would be empty.
pub open spec fn generation_config(req: CoreRequest) -> Option<JsonV> {
    if generation_members(req).len() == 0 {
        None
    } else {
        Some(JsonV::Object(generation_members(req)))
    }
}

fn push_member(fs: &mut Vec<(String, Json)>, k: &str, v: Json)
    ensures
        fields_view(final(fs)@) == fields_view(old(fs)@).push((k@, v@)),
{
    let ghost before = fs@;
    fs.push((k.to_string(), v));
    proof {
        lemma_fields_view(before);
        lemma_fields_view(fs@);
        assert(fields_view(fs@) =~= fields_view(before).push((k@, v@)));
    }
}

pub(crate) fn num_json(n: &JsonNum) -> (r: Json)
    ensures
        r@ == json_view(Json::Num(*n)),
{
    match n {
        JsonNum::PosInt(u) => Json::Num(JsonNum::PosInt(*u)),
        JsonNum::NegInt(i) => Json::Num(JsonNum::NegInt(*i)),
        JsonNum::Float(x) => Json::Num(JsonNum::Float(x.clone())),
    }
}

/// Core sampling settings → Gemini `generationConfig` (see
/// [`generation_config`]).
pub fn core_to_generation_config(req: &CoreRequest) -> (r: Option<Json>)
    ensures
        match r {
            Some(v) => generation_config(*req) == Some(v@),
            None => generation_config(*req) is None,
        },
{
    let mut fs: Vec<(String, Json)> = Vec::new();
    let ghost e0: Seq<(Seq<char>, JsonV)> = Seq::empty();
    proof {
        assert(fields_view(fs@) == e0);
    }
    if let Some(mt) = req.max_tokens {
        push_member(&mut fs, "maxOutputTokens", Json::Num(JsonNum::PosInt(mt as u64)));
    }
    let ghost a = fields_view(fs@);
    if let Some(t) = &req.temperature {
        push_member(&mut fs, "temperature", num_json(t));
    }
    let ghost b = fields_view(fs@);
    if let Some(p) = &req.top_p {
        push_member(&mut fs, "topP", num_json(p));
    }
    let ghost c = fields_view(fs@);
    if req.stop.len() > 0 {
        let mut items: Vec<Json> = Vec::new();
        let mut i: usize = 0;
        while i < req.stop.len()
            invariant
                i <= req.stop@.len(),
                items@.len() == i,
                forall|k: int| 0 <= k < i ==> (#[trigger] items@[k])@ == JsonV::Str(req.stop@[k]@),
            decreases req.stop@.len() - i,
        {
            items.push(Json::Str(req.stop[i].clone()));
            i = i + 1;
        }
        proof {
            lemma_items_view(items@);
            assert(items_view(items@) =~= req.stop@.map_values(|x: String| JsonV::Str(x@)));
        }
        push_member(&mut fs, "stopSequences", Json::Array(items));
    }
    let ghost d = fields_view(fs@);
    if let Some(effort) = reasoning_effort(req) {
        let max_tokens = match req.max_tokens {
            Some(m) => m,
            None => u32::MAX,
        };
        if let Some(budget) = clamped_thinking_budget(effort.as_str(), max_tokens) {
            let tc = jobj2("thinkingBudget", Json::Num(JsonNum::PosInt(budget as u64)), "includeThoughts", Json::Bool(true));
            push_member(&mut fs, "thinkingConfig", tc);
        }
    }
    proof {
        let m1: Seq<(Seq<char>, JsonV)> = match req.max_tokens {
            Some(mt) => seq![("maxOutputTokens"@, JsonV::PosInt(mt as u64))],
            None => Seq::empty(),
        };
        assert(a =~= m1);
        let rq = *req;
        let m2: Seq<(Seq<char>, JsonV)> = match rq.temperature {
            Some(t) => seq![("temperature"@, json_view(Json::Num(t)))],
            None => Seq::empty(),
        };
        assert(b =~= m1 + m2);
        let m3: Seq<(Seq<char>, JsonV)> = match rq.top_p {
            Some(p) => seq![("topP"@, json_view(Json::Num(p)))],
            None => Seq::empty(),
        };
        assert(c =~= m1 + m2 + m3);
        let m4: Seq<(Seq<char>, JsonV)> = if req.stop@.len() > 0 {
            seq![("stopSequences"@, JsonV::Array(req.stop@.map_values(|x: String| JsonV::Str(x@))))]
        } else {
            Seq::empty()
        };
        assert(d =~= m1 + m2 + m3 + m4);
        assert(fields_view(fs@) =~= generation_members(*req));
    }
    if fs.len() == 0 {
        proof {
            lemma_fields_view(fs@);
        }
        None
    } else {
        proof {
            lemma_fields_view(fs@);
        }
        Some(Json::Object(fs))
    }
}

/// Reading back the Gemini `tools` written for core tools gives the same
/// tools, in order.
pub proof fn law_tools_roundtrip(ts: Seq<ToolV>)
    requires
        ts.len() > 0,
    ensures
        gemini_tools(ts) matches Some(JsonV::Array(entries)) && gemini_tools_core(entries) == ts,
{
    let ds = ts.map_values(|t: ToolV| declaration(t));
    lemma_declarations_roundtrip(ts);
    let entry = obj1("functionDeclarations"@, JsonV::Array(ds));
    assert(entry.field("functionDeclarations"@) == Some(JsonV::Array(ds)));
    let entries = seq![entry];
    assert(entries.drop_last() =~= Seq::<JsonV>::empty());
    assert(gemini_tools_core(entries) == gemini_tools_core(Seq::<JsonV>::empty()) + entry_tools(entry));
    assert(gemini_tools_core(entries) =~= ts);
}

proof fn lemma_declaration_roundtrip(t: ToolV)
    ensures
        declaration_tool(declaration(t)) == Some(t),
{
    reveal_strlit("name");
    reveal_strlit("parameters");
    reveal_strlit("description");
    assert("name"@.len() != "parameters"@.len() && "name"@.len() != "description"@.len());
    assert("parameters"@[0] != "description"@[0]);
    let fs = declaration(t)->Object_0;
    assert(fs[0] == ("name"@, JsonV::Str(t.name)));
    assert(fs[1] == ("parameters"@, t.input_schema));
    crate::json::lemma_find_field_at(fs, "parameters"@, 1);
    match t.description {
        Some(d) => {
            assert(fs[2] == ("description"@, JsonV::Str(d)));
            crate::json::lemma_find_field_at(fs, "description"@, 2);
        },
        None => {
            assert(fs.len() == 2);
            crate::json::lemma_find_field_absent(fs, "description"@);
        },
    }
}

proof fn lemma_declarations_roundtrip(ts: Seq<ToolV>)
    ensures
        declaration_tools(ts.map_values(|t: ToolV| declaration(t))) == ts,
    decreases ts.len(),
{
    let ds = ts.map_values(|t: ToolV| declaration(t));
    if ts.len() > 0 {
        lemma_declarations_roundtrip(ts.drop_last());
        assert(ds.drop_last() =~= ts.drop_last().map_values(|t: ToolV| declaration(t)));
        lemma_declaration_roundtrip(ts.last());
        assert(ds.last() == declaration(ts.last()));
        assert(declaration_tools(ds) =~= ts);
    } else {
        assert(ds.len() == 0);
    }
}

} // verus!
