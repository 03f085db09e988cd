//! OpenAI Chat Completions: the conversions between chat messages and the core
//! representation shared by the client and provider sides.
use vstd::prelude::*;
use crate::json::{fields_view, items_view, json_parsed, json_text, json_to_string, json_view, lemma_fields_view, lemma_items_view, parse_json, Json, JsonNum, JsonV};
use crate::protocol::ir::{message_view, block_view, blocks_view, Message, Role, opt_view, lemma_blocks_view, lemma_blocks_view_push, tool_choice_view, tool_view, BlockV, ContentBlock, StopReason, Tool, ToolChoice, ToolChoiceV, ToolV, Usage};
use crate::text::{chars_of, concat_str, find_from, occurs_at, slice_chars, str_eq, string_of, trim, trim_str};

verus! {

/// The chat completions path.
pub const CHAT_PATH: &'static str = "/v1/chat/completions";

/// A conventional chat token limit. Chat requests built from a core request
/// without a limit carry none: only Anthropic requires one.
pub const DEFAULT_MAX_TOKENS: u32 = 4096;

/// The stop reason of a `finish_reason`.
pub open spec fn finish_reason_of(s: Seq<char>) -> Option<StopReason> {
    if s == "stop"@ {
        Some(StopReason::EndTurn)
    } else if s == "length"@ {
        Some(StopReason::MaxTokens)
    } else if s == "tool_calls"@ || s == "function_call"@ {
        Some(StopReason::ToolUse)
    } else if s == "content_filter"@ {
        Some(StopReason::ContentFilter)
    } else {
        None
    }
}

/// `finish_reason` → stop reason.
pub fn map_finish_reason(s: &str) -> (r: Option<StopReason>)
    ensures
        r == finish_reason_of(s@),
{
    if str_eq(s, "stop") {
        Some(StopReason::EndTurn)
    } else if str_eq(s, "length") {
        Some(StopReason::MaxTokens)
    } else if str_eq(s, "tool_calls") || str_eq(s, "function_call") {
        Some(StopReason::ToolUse)
    } else if str_eq(s, "content_filter") {
        Some(StopReason::ContentFilter)
    } else {
        None
    }
}

/// The `finish_reason` of a stop reason.
pub open spec fn finish_reason_name(r: Option<StopReason>) -> Seq<char> {
    match r {
        Some(StopReason::MaxTokens) => "length"@,
        Some(StopReason::ToolUse) => "tool_calls"@,
        Some(StopReason::ContentFilter) => "content_filter"@,
        _ => "stop"@,
    }
}

/// Stop reason → `finish_reason`.
pub fn unmap_stop_reason(r: Option<StopReason>) -> (s: &'static str)
    ensures
        s@ == finish_reason_name(r),
{
    match r {
        Some(StopReason::MaxTokens) => "length",
        Some(StopReason::ToolUse) => "tool_calls",
        Some(StopReason::ContentFilter) => "content_filter",
        _ => "stop",
    }
}

/// The text blocks' texts, joined.
pub open spec fn plain_text(bs: Seq<BlockV>) -> Seq<char>
    decreases bs.len(),
{
    if bs.len() == 0 {
        Seq::empty()
    } else {
        plain_text(bs.drop_last()) + match bs.last() {
            BlockV::Text { text } => text,
            _ => Seq::empty(),
        }
    }
}

/// The plain text of content blocks: the texts of the text blocks, joined.
pub fn text_of(blocks: &[ContentBlock]) -> (r: String)
    ensures
        r@ == plain_text(blocks_view(blocks@)),
{
    proof {
        lemma_blocks_view(blocks@);
    }
    let ghost bv = blocks_view(blocks@);
    let mut out = String::new();
    let mut i: usize = 0;
    while i < blocks.len()
        invariant
            i <= blocks@.len() == bv.len(),
            bv == blocks_view(blocks@),
            forall|k: int| 0 <= k < blocks@.len() ==> #[trigger] bv[k] == block_view(blocks@[k]),
            out@ == plain_text(bv.take(i as int)),
        decreases blocks@.len() - i,
    {
        proof {
            assert(bv.take(i + 1).drop_last() == bv.take(i as int));
            assert(bv.take(i + 1).last() == bv[i as int]);
        }
        match &blocks[i] {
            ContentBlock::Text { text } => {
                out = concat_str(out.as_str(), text.as_str());
            },
            _ => {
                proof {
                    assert(out@ + Seq::<char>::empty() == out@);
                }
            },
        }
        i = i + 1;
    }
    proof {
        assert(bv.take(bv.len() as int) == bv);
    }
    out
}

/// The credential opening mark inside a reasoning text.
pub open spec fn cot_open() -> Seq<char> {
    "<mb-cot>"@
}

/// The credential closing mark.
pub open spec fn cot_close() -> Seq<char> {
    "</mb-cot>"@
}

/// The first position at or after `i` where `pat` occurs in `s`.
pub open spec fn first_at(s: Seq<char>, pat: Seq<char>, i: int) -> Option<int>
    decreases s.len() + 1 - i,
{
    if i < 0 || i > s.len() || i + pat.len() > s.len() {
        None
    } else if occurs_at(s, pat, i) {
        Some(i)
    } else {
        first_at(s, pat, i + 1)
    }
}

proof fn lemma_first_at(s: Seq<char>, pat: Seq<char>, from: int, r: Option<int>)
    requires
        0 <= from,
        match r {
            Some(i) => from <= i && occurs_at(s, pat, i) && forall|k: int|
                from <= k < i ==> !occurs_at(s, pat, k),
            None => forall|k: int| from <= k ==> !occurs_at(s, pat, k),
        },
    ensures
        first_at(s, pat, from) == r,
    decreases s.len() + 1 - from,
{
    if from > s.len() || from + pat.len() > s.len() {
        if let Some(i) = r {
            assert(occurs_at(s, pat, i));
        }
    } else if occurs_at(s, pat, from) {
        if let Some(i) = r {
            if i > from {
                assert(!occurs_at(s, pat, from));
            }
        }
    } else {
        if let Some(i) = r {
            assert(i != from);
        }
        lemma_first_at(s, pat, from + 1, r);
    }
}

/// Splits a reasoning text into the readable text and the credential: the
/// credential is the trimmed text between the first `<mb-cot>` and the first
/// `</mb-cot>` after it, dropped when empty; the readable text is what lies
/// around the marks, trimmed. Without both marks the whole text is readable.
pub open spec fn split_cot(s: Seq<char>) -> (Seq<char>, Option<Seq<char>>) {
    match first_at(s, cot_open(), 0) {
        None => (s, None),
        Some(start) => match first_at(s, cot_close(), start) {
            None => (s, None),
            Some(end) => {
                let enc = trim(s.subrange(start + cot_open().len(), end));
                let text = trim(s.take(start) + s.skip(end + cot_close().len()));
                (text, if enc.len() == 0 {
                    None
                } else {
                    Some(enc)
                })
            },
        },
    }
}

/// Splits `s` into the readable reasoning text and the credential carried in
/// `<mb-cot>…</mb-cot>` marks (see [`split_cot`]).
pub fn split_mb_cot(s: &str) -> (r: (String, Option<String>))
    ensures
        (r.0@, match r.1 {
            Some(e) => Some(e@),
            None => None,
        }) == split_cot(s@),
{
    proof {
        reveal_strlit("<mb-cot>");
        reveal_strlit("</mb-cot>");
    }
    let cs = chars_of(s);
    let open = chars_of("<mb-cot>");
    let close = chars_of("</mb-cot>");
    let start = match find_from(&cs, &open, 0) {
        None => {
            proof {
                lemma_first_at(s@, cot_open(), 0, None);
            }
            return (s.to_string(), None);
        },
        Some(i) => i,
    };
    proof {
        lemma_first_at(s@, cot_open(), 0, Some(start as int));
        assert(open@.len() == 8);
        assert(close@.len() == 9);
    }
    let end = match find_from(&cs, &close, start) {
        None => {
            proof {
                lemma_first_at(s@, cot_close(), start as int, None);
            }
            return (s.to_string(), None);
        },
        Some(j) => j,
    };
    proof {
        lemma_first_at(s@, cot_close(), start as int, Some(end as int));
        assert(end + 9 <= cs@.len());
        // The closing mark cannot begin inside the opening one.
        if end < start + 8 {
            let k = end - start;
            let o = cs@.subrange(start as int, start + 8);
            let c = cs@.subrange(end as int, end + 9);
            assert(o == open@ && c == close@);
            if k == 0 {
                assert(o[1] == cs@[start + 1]);
                assert(c[1] == cs@[end + 1]);
                assert(open@[1] == 'm' && close@[1] == '/');
            } else {
                assert(o[k as int] == cs@[end as int]);
                assert(c[0] == cs@[end as int]);
                assert(close@[0] == '<');
                assert(open@[1] != '<' && open@[2] != '<' && open@[3] != '<' && open@[4] != '<');
                assert(open@[5] != '<' && open@[6] != '<' && open@[7] != '<');
            }
            assert(false);
        }
        assert(start + 8 <= end);
    }
    let enc = trim_str(string_of(slice_chars(&cs, start + 8, end).as_slice()).as_str());
    let before = string_of(slice_chars(&cs, 0, start).as_slice());
    let n = cs.len();
    let after = string_of(slice_chars(&cs, end + 9, n).as_slice());
    let text = trim_str(concat_str(before.as_str(), after.as_str()).as_str());
    proof {
        assert(cs@.subrange(0, start as int) == s@.take(start as int));
        assert(cs@.subrange(end + 9, cs@.len() as int) == s@.skip(end + 9));
    }
    if chars_of(enc.as_str()).len() == 0 {
        (text, None)
    } else {
        (text, Some(enc))
    }
}

/// What `first_at` finds is an occurrence, and none lies before it.
proof fn lemma_first_at_sound(s: Seq<char>, pat: Seq<char>, from: int)
    requires
        0 <= from,
    ensures
        match first_at(s, pat, from) {
            Some(i) => from <= i && occurs_at(s, pat, i) && forall|k: int|
                from <= k < i ==> !occurs_at(s, pat, k),
            None => forall|k: int| from <= k ==> !occurs_at(s, pat, k),
        },
    decreases s.len() + 1 - from,
{
    if from > s.len() || from + pat.len() > s.len() {
    } else if occurs_at(s, pat, from) {
    } else {
        lemma_first_at_sound(s, pat, from + 1);
    }
}

/// Marking a credential and splitting it off again gives back the readable
/// text and the credential (both trimmed; an empty credential is none),
/// provided the text holds no opening mark and the credential no closing mark.
pub proof fn law_cot_mark_roundtrip(t: Seq<char>, e: Seq<char>)
    requires
        first_at(t + cot_open(), cot_open(), 0) == Some(t.len() as int),
        first_at(e + cot_close(), cot_close(), 0) == Some(e.len() as int),
    ensures
        split_cot(t + cot_open() + e + cot_close()) == (trim(t), if trim(e).len() == 0 {
            None
        } else {
            Some(trim(e))
        }),
{
    reveal_strlit("<mb-cot>");
    reveal_strlit("</mb-cot>");
    let o = cot_open();
    let c = cot_close();
    assert(o.len() == 8 && c.len() == 9);
    let r = t + o + e + c;
    let tl = t.len() as int;
    let el = e.len() as int;
    lemma_first_at_sound(t + o, o, 0);
    lemma_first_at_sound(e + c, c, 0);
    // The opening mark: first found right after the text.
    assert(r.subrange(tl, tl + 8) =~= o);
    assert forall|k: int| 0 <= k < tl implies !occurs_at(r, o, k) by {
        assert(!occurs_at(t + o, o, k));
        assert(r.subrange(k, k + 8) =~= (t + o).subrange(k, k + 8));
    }
    lemma_first_at(r, o, 0, Some(tl));
    // The closing mark: first found right after the credential.
    assert(r.subrange(tl + 8 + el, tl + 17 + el) =~= c);
    assert forall|k: int| tl <= k < tl + 8 + el implies !occurs_at(r, c, k) by {
        if k < tl + 8 {
            if occurs_at(r, c, k) {
                assert(r.subrange(k, k + 9)[0] == r[k]);
                assert(r.subrange(k, k + 9)[1] == r[k + 1]);
                assert(c[0] == '<' && c[1] == '/');
                if k == tl {
                    assert(r[k + 1] == o[1]);
                    assert(o[1] == 'm');
                } else {
                    assert(r[k] == o[k - tl]);
                    assert(o[1] != '<' && o[2] != '<' && o[3] != '<' && o[4] != '<');
                    assert(o[5] != '<' && o[6] != '<' && o[7] != '<');
                }
                assert(false);
            }
        } else {
            assert(!occurs_at(e + c, c, k - tl - 8));
            assert(r.subrange(k, k + 9) =~= (e + c).subrange(k - tl - 8, k - tl + 1));
        }
    }
    lemma_first_at(r, c, tl, Some(tl + 8 + el));
    assert(r.subrange(tl + 8, tl + 8 + el) =~= e);
    assert(r.take(tl) + r.skip(tl + 8 + el + 9) =~= t);
}

/// A text in which `pat` occurs nowhere.
pub open spec fn lacks(s: Seq<char>, pat: Seq<char>) -> bool {
    forall|k: int| !occurs_at(s, pat, k)
}

/// Neither mark can begin inside itself after its first character: no
/// character but the first is `<`. So a text lacking a mark, followed by that
/// mark, holds it first where it was appended.
proof fn lemma_mark_first_after(t: Seq<char>, m: Seq<char>)
    requires
        m.len() >= 1,
        m[0] == '<',
        forall|j: int| 1 <= j < m.len() ==> m[j] != '<',
        lacks(t, m),
    ensures
        first_at(t + m, m, 0) == Some(t.len() as int),
{
    let r = t + m;
    let tl = t.len() as int;
    let n = m.len() as int;
    assert(r.subrange(tl, tl + n) =~= m);
    assert forall|k: int| 0 <= k < tl implies !occurs_at(r, m, k) by {
        if occurs_at(r, m, k) {
            if k + n <= tl {
                assert(r.subrange(k, k + n) =~= t.subrange(k, k + n));
                assert(occurs_at(t, m, k));
            } else {
                let j = tl - k;
                assert(r.subrange(k, k + n)[j] == r[tl]);
                assert(r[tl] == m[0]);
                assert(m[j] == '<');
            }
            assert(false);
        }
    }
    lemma_first_at(r, m, 0, Some(tl));
}

/// Splitting a reasoning text that carries a credential in `<mb-cot>` marks
/// gives back the readable text and the credential (both trimmed; an empty
/// credential is none), whenever the text holds no `<mb-cot>` and the
/// credential no `</mb-cot>`: the split undoes the marking.
pub proof fn law_mb_cot_split_undoes_marker(t: Seq<char>, e: Seq<char>)
    requires
        lacks(t, cot_open()),
        lacks(e, cot_close()),
    ensures
        split_cot(t + cot_open() + e + cot_close()) == (trim(t), if trim(e).len() == 0 {
            None
        } else {
            Some(trim(e))
        }),
{
    reveal_strlit("<mb-cot>");
    reveal_strlit("</mb-cot>");
    let o = cot_open();
    let c = cot_close();
    assert(o.len() == 8 && c.len() == 9);
    assert(o[0] == '<' && c[0] == '<');
    assert(o[1] != '<' && o[2] != '<' && o[3] != '<' && o[4] != '<' && o[5] != '<' && o[6] != '<' && o[7] != '<');
    assert(c[1] != '<' && c[2] != '<' && c[3] != '<' && c[4] != '<' && c[5] != '<' && c[6] != '<' && c[7] != '<' && c[8] != '<');
    lemma_mark_first_after(t, o);
    lemma_mark_first_after(e, c);
    law_cot_mark_roundtrip(t, e);
}

/// `v[key]` when it is a string, else empty.
pub open spec fn str_or_empty(v: JsonV, key: Seq<char>) -> Seq<char> {
    match v.field_str(key) {
        Some(s) => s,
        None => Seq::empty(),
    }
}

/// `v[key]` as a string, empty when absent or not a string.
pub fn str_field(v: &Json, key: &str) -> (r: String)
    ensures
        r@ == str_or_empty(v@, key@),
{
    match v.get_str(key) {
        Some(s) => s.to_string(),
        None => String::new(),
    }
}

/// The block of one part of multi-modal chat content: `text` parts give
/// text, `image_url` parts an image by URL; other parts give nothing.
pub open spec fn chat_part_block(p: JsonV) -> Option<BlockV> {
    let ty = p.field_str("type"@);
    if ty == Some("text"@) {
        Some(BlockV::Text { text: str_or_empty(p, "text"@) })
    } else if ty == Some("image_url"@) {
        Some(
            BlockV::Image {
                data: match p.field("image_url"@) {
                    Some(i) => str_or_empty(i, "url"@),
                    None => Seq::empty(),
                },
                media_type: "url"@,
            },
        )
    } else {
        None
    }
}

/// The blocks of the parts, in order.
pub open spec fn chat_parts_blocks(ps: Seq<JsonV>) -> Seq<BlockV>
    decreases ps.len(),
{
    if ps.len() == 0 {
        Seq::empty()
    } else {
        chat_parts_blocks(ps.drop_last()) + match chat_part_block(ps.last()) {
            Some(b) => seq![b],
            None => Seq::empty(),
        }
    }
}

/// The blocks of a chat `content`: a non-empty string is one text block, an
/// array gives its parts' blocks, anything else nothing.
pub open spec fn chat_content_blocks(v: Option<JsonV>) -> Seq<BlockV> {
    match v {
        Some(JsonV::Str(t)) => if t.len() == 0 {
            Seq::empty()
        } else {
            seq![BlockV::Text { text: t }]
        },
        Some(JsonV::Array(a)) => chat_parts_blocks(a),
        _ => Seq::empty(),
    }
}

fn chat_part(p: &Json) -> (r: Option<ContentBlock>)
    ensures
        match r {
            Some(b) => chat_part_block(p@) == Some(b@),
            None => chat_part_block(p@) is None,
        },
{
    match p.get_str("type") {
        Some(ty) => {
            if str_eq(ty, "text") {
                Some(ContentBlock::Text { text: str_field(p, "text") })
            } else if str_eq(ty, "image_url") {
                let data = match p.get("image_url") {
                    Some(i) => str_field(i, "url"),
                    None => String::new(),
                };
                Some(ContentBlock::Image { data, media_type: "url".to_string() })
            } else {
                None
            }
        },
        None => None,
    }
}

/// Parses a chat message `content` (see [`chat_content_blocks`]).
pub fn parse_chat_content(v: Option<&Json>) -> (r: Vec<ContentBlock>)
    ensures
        blocks_view(r@) == chat_content_blocks(
            match v {
                Some(j) => Some(j@),
                None => None,
            },
        ),
{
    let mut out: Vec<ContentBlock> = Vec::new();
    match v {
        Some(Json::Str(t)) => {
            if chars_of(t.as_str()).len() > 0 {
                out.push(ContentBlock::Text { text: t.clone() });
                proof {
                    lemma_blocks_view(out@);
                    assert(blocks_view(out@) =~= seq![BlockV::Text { text: t@ }]);
                }
            } else {
                proof {
                    lemma_blocks_view(out@);
                }
            }
        },
        Some(Json::Array(arr)) => {
            let ghost av = items_view(arr@);
            proof {
                lemma_items_view(arr@);
                lemma_blocks_view(out@);
            }
            let mut i: usize = 0;
            while i < arr.len()
                invariant
                    i <= arr@.len() == av.len(),
                    av == items_view(arr@),
                    forall|k: int| 0 <= k < arr@.len() ==> #[trigger] av[k] == json_view(arr@[k]),
                    blocks_view(out@) == chat_parts_blocks(av.take(i as int)),
                decreases arr@.len() - i,
            {
                proof {
                    assert(av.take(i + 1).drop_last() == av.take(i as int));
                    assert(av.take(i + 1).last() == av[i as int]);
                }
                match chat_part(&arr[i]) {
                    Some(b) => {
                        let ghost before = out@;
                        out.push(b);
                        proof {
                            lemma_blocks_view_push(before, b);
                        }
                    },
                    None => {
                        proof {
                            assert(blocks_view(out@) + Seq::<BlockV>::empty() == blocks_view(out@));
                        }
                    },
                }
                i = i + 1;
            }
            proof {
                assert(av.take(av.len() as int) == av);
            }
        },
        _ => {
            proof {
                lemma_blocks_view(out@);
            }
        },
    }
    out
}

/// `v[key]` as a count: a non-negative integer, cut to 32 bits, else zero.
pub open spec fn count_of(v: JsonV, key: Seq<char>) -> u32 {
    match v.field_u64(key) {
        Some(u) => u as u32,
        None => 0,
    }
}

/// `v[outer][inner]` as a count.
pub open spec fn nested_count(v: JsonV, outer: Seq<char>, inner: Seq<char>) -> u32 {
    match v.field(outer) {
        Some(d) => count_of(d, inner),
        None => 0,
    }
}

pub(crate) fn read_count(v: &Json, key: &str) -> (r: u32)
    ensures
        r == count_of(v@, key@),
{
    match v.get_u64(key) {
        Some(u) => u as u32,
        None => 0,
    }
}

pub(crate) fn read_nested_count(v: &Json, outer: &str, inner: &str) -> (r: u32)
    ensures
        r == nested_count(v@, outer@, inner@),
{
    match v.get(outer) {
        Some(d) => read_count(d, inner),
        None => 0,
    }
}

/// Chat usage → core usage: prompt and completion tokens, cached prompt
/// tokens, and reasoning tokens (each zero when absent).
pub open spec fn chat_usage(v: JsonV) -> Usage {
    Usage {
        input_tokens: count_of(v, "prompt_tokens"@),
        output_tokens: count_of(v, "completion_tokens"@),
        cache_read_tokens: nested_count(v, "prompt_tokens_details"@, "cached_tokens"@),
        cache_write_tokens: 0,
        reasoning_tokens: nested_count(v, "completion_tokens_details"@, "reasoning_tokens"@),
    }
}

/// Chat usage → core usage (see [`chat_usage`]).
pub fn usage_from_chat(v: &Json) -> (r: Usage)
    ensures
        r == chat_usage(v@),
{
    Usage {
        input_tokens: read_count(v, "prompt_tokens"),
        output_tokens: read_count(v, "completion_tokens"),
        cache_read_tokens: read_nested_count(v, "prompt_tokens_details", "cached_tokens"),
        cache_write_tokens: 0,
        reasoning_tokens: read_nested_count(v, "completion_tokens_details", "reasoning_tokens"),
    }
}

fn member(key: &str, v: Json) -> (r: (String, Json))
    ensures
        r.0@ == key@,
        r.1@ == v@,
{
    (key.to_string(), v)
}

fn object2(a: (String, Json), b: (String, Json)) -> (r: Json)
    ensures
        r@ == JsonV::Object(seq![(a.0@, a.1@), (b.0@, b.1@)]),
{
    let mut fs: Vec<(String, Json)> = Vec::new();
    fs.push(a);
    fs.push(b);
    proof {
        lemma_fields_view(fs@);
        assert(fields_view(fs@) =~= seq![(a.0@, a.1@), (b.0@, b.1@)]);
    }
    Json::Object(fs)
}

fn object1(a: (String, Json)) -> (r: Json)
    ensures
        r@ == JsonV::Object(seq![(a.0@, a.1@)]),
{
    let mut fs: Vec<(String, Json)> = Vec::new();
    fs.push(a);
    proof {
        lemma_fields_view(fs@);
        assert(fields_view(fs@) =~= seq![(a.0@, a.1@)]);
    }
    Json::Object(fs)
}

/// The chat usage object of a core usage.
pub open spec fn chat_usage_value(u: Usage) -> JsonV {
    JsonV::Object(
        seq![
            ("prompt_tokens"@, JsonV::PosInt(u.input_tokens as u64)),
            ("completion_tokens"@, JsonV::PosInt(u.output_tokens as u64)),
            ("total_tokens"@, JsonV::PosInt((u.input_tokens + u.output_tokens) as u64)),
            ("completion_tokens_details"@, JsonV::Object(seq![("reasoning_tokens"@, JsonV::PosInt(u.reasoning_tokens as u64))])),
        ],
    )
}

/// The chat usage object: prompt, completion and total tokens, and the
/// reasoning tokens among the completion tokens.
pub fn usage_object(u: &Usage) -> (r: Json)
    requires
        u.input_tokens + u.output_tokens <= u32::MAX,
    ensures
        r@ == chat_usage_value(*u),
{
    let details = object1(member("reasoning_tokens", Json::Num(JsonNum::PosInt(u.reasoning_tokens as u64))));
    let total: u32 = u.input_tokens + u.output_tokens;
    let mut fs: Vec<(String, Json)> = Vec::new();
    fs.push(member("prompt_tokens", Json::Num(JsonNum::PosInt(u.input_tokens as u64))));
    fs.push(member("completion_tokens", Json::Num(JsonNum::PosInt(u.output_tokens as u64))));
    fs.push(member("total_tokens", Json::Num(JsonNum::PosInt(total as u64))));
    fs.push(member("completion_tokens_details", details));
    proof {
        lemma_fields_view(fs@);
        assert(fields_view(fs@) =~= chat_usage_value(*u)->Object_0);
    }
    Json::Object(fs)
}

/// The tool choice a chat `tool_choice` names: the strings `auto`, `none`,
/// `required`, or an object of type `none` or of type `function` naming the
/// function; anything else names none.
pub open spec fn chat_tool_choice(v: JsonV) -> Option<ToolChoiceV> {
    match v {
        JsonV::Str(s) => if s == "auto"@ {
            Some(ToolChoiceV::Auto)
        } else if s == "none"@ {
            Some(ToolChoiceV::NoTools)
        } else if s == "required"@ {
            Some(ToolChoiceV::Required)
        } else {
            None
        },
        _ => {
            let ty = v.field_str("type"@);
            if ty == Some("none"@) {
                Some(ToolChoiceV::NoTools)
            } else if ty == Some("function"@) {
                match v.field("function"@) {
                    Some(f) => match f.field_str("name"@) {
                        Some(n) => Some(ToolChoiceV::Tool { name: n }),
                        None => None,
                    },
                    None => None,
                }
            } else {
                None
            }
        },
    }
}

pub open spec fn opt_choice_view(o: Option<ToolChoice>) -> Option<ToolChoiceV> {
    match o {
        Some(t) => Some(tool_choice_view(t)),
        None => None,
    }
}

/// Parses a chat `tool_choice` (see [`chat_tool_choice`]).
pub fn parse_tool_choice(v: &Json) -> (r: Option<ToolChoice>)
    ensures
        opt_choice_view(r) == chat_tool_choice(v@),
{
    if let Json::Str(s) = v {
        if str_eq(s.as_str(), "auto") {
            return Some(ToolChoice::Auto);
        } else if str_eq(s.as_str(), "none") {
            return Some(ToolChoice::NoTools);
        } else if str_eq(s.as_str(), "required") {
            return Some(ToolChoice::Required);
        } else {
            return None;
        }
    }
    match v.get_str("type") {
        Some(ty) => {
            if str_eq(ty, "none") {
                Some(ToolChoice::NoTools)
            } else if str_eq(ty, "function") {
                match v.get("function") {
                    Some(f) => match f.get_str("name") {
                        Some(n) => Some(ToolChoice::Tool { name: n.to_string() }),
                        None => None,
                    },
                    None => None,
                }
            } else {
                None
            }
        },
        None => None,
    }
}

/// The chat `tool_choice` of a tool choice.
pub open spec fn chat_tool_choice_value(t: ToolChoiceV) -> JsonV {
    match t {
        ToolChoiceV::Auto => JsonV::Str("auto"@),
        ToolChoiceV::NoTools => JsonV::Str("none"@),
        ToolChoiceV::Required => JsonV::Str("required"@),
        ToolChoiceV::Tool { name } => JsonV::Object(
            seq![("type"@, JsonV::Str("function"@)), ("function"@, JsonV::Object(seq![("name"@, JsonV::Str(name))]))],
        ),
    }
}

/// Tool choice → chat `tool_choice`.
pub fn unparse_tool_choice(tc: &ToolChoice) -> (r: Json)
    ensures
        r@ == chat_tool_choice_value(tool_choice_view(*tc)),
{
    match tc {
        ToolChoice::Auto => Json::Str("auto".to_string()),
        ToolChoice::NoTools => Json::Str("none".to_string()),
        ToolChoice::Required => Json::Str("required".to_string()),
        ToolChoice::Tool { name } => {
            let f = object1(member("name", Json::Str(name.clone())));
            object2(member("type", Json::Str("function".to_string())), member("function", f))
        },
    }
}

/// Parsing the `tool_choice` written for a choice gives the choice back.
pub proof fn law_tool_choice_roundtrip(t: ToolChoiceV)
    ensures
        chat_tool_choice(chat_tool_choice_value(t)) == Some(t),
{
    reveal_strlit("auto");
    reveal_strlit("none");
    reveal_strlit("required");
    reveal_strlit("type");
    reveal_strlit("function");
    reveal_strlit("name");
    assert("auto"@[0] != "none"@[0]);
    assert("auto"@.len() != "required"@.len() && "none"@.len() != "required"@.len());
    assert("type"@.len() != "function"@.len());
    assert("none"@.len() != "function"@.len());
    if let ToolChoiceV::Tool { name } = t {
        let v = chat_tool_choice_value(t);
        let fs = v->Object_0;
        assert(fs[0].0 == "type"@);
        assert(crate::json::find_field(fs, "type"@) == Some(JsonV::Str("function"@)));
        assert(fs.drop_first()[0].0 == "function"@);
        assert(crate::json::find_field(fs, "function"@) == crate::json::find_field(fs.drop_first(), "function"@));
        let inner = seq![("name"@, JsonV::Str(name))];
        assert(crate::json::find_field(inner, "name"@) == Some(JsonV::Str(name)));
    }
}

/// The empty JSON object.
pub open spec fn empty_obj() -> JsonV {
    JsonV::Object(Seq::empty())
}

/// The tool use of one chat `tool_calls` entry: its id, the function's name,
/// and the function's `arguments` text parsed as JSON (an empty object when
/// absent or not valid JSON).
pub open spec fn tool_call_block(tc: JsonV) -> BlockV {
    let f = match tc.field("function"@) {
        Some(f) => f,
        None => JsonV::Null,
    };
    let args = match f.field_str("arguments"@) {
        Some(a) => match json_parsed(a) {
            Some(v) => v,
            None => empty_obj(),
        },
        None => empty_obj(),
    };
    BlockV::ToolUse {
        id: str_or_empty(tc, "id"@),
        name: str_or_empty(f, "name"@),
        namespace: None,
        input: args,
        signature: None,
    }
}

/// The tool uses of `tool_calls` entries, in order.
pub open spec fn tool_call_blocks(tcs: Seq<JsonV>) -> Seq<BlockV> {
    tcs.map_values(|tc: JsonV| tool_call_block(tc))
}

/// The `tool_calls` entries of a message (none when absent or not an array).
pub open spec fn tool_calls_of(m: JsonV) -> Seq<JsonV> {
    match m.field("tool_calls"@) {
        Some(JsonV::Array(a)) => a,
        _ => Seq::empty(),
    }
}

fn tool_call(tc: &Json) -> (r: ContentBlock)
    ensures
        r@ == tool_call_block(tc@),
{
    let null = Json::Null;
    let f = match tc.get("function") {
        Some(f) => f,
        None => &null,
    };
    let args = match f.get_str("arguments") {
        Some(a) => match parse_json(a) {
            Some(v) => v,
            None => Json::Object(Vec::new()),
        },
        None => Json::Object(Vec::new()),
    };
    proof {
        lemma_fields_view(Seq::<(String, Json)>::empty());
    }
    ContentBlock::ToolUse {
        id: str_field(tc, "id"),
        name: str_field(f, "name"),
        namespace: None,
        input: args,
        signature: None,
    }
}

/// Appends the tool uses of a message's `tool_calls`.
fn push_tool_calls(out: &mut Vec<ContentBlock>, m: &Json)
    ensures
        blocks_view(final(out)@) == blocks_view(old(out)@) + tool_call_blocks(tool_calls_of(m@)),
{
    let ghost start = blocks_view(out@);
    if let Some(Json::Array(tcs)) = m.get("tool_calls") {
        let ghost tv = items_view(tcs@);
        proof {
            lemma_items_view(tcs@);
        }
        let mut i: usize = 0;
        while i < tcs.len()
            invariant
                i <= tcs@.len() == tv.len(),
                tv == items_view(tcs@),
                forall|k: int| 0 <= k < tcs@.len() ==> #[trigger] tv[k] == json_view(tcs@[k]),
                blocks_view(out@) == start + tool_call_blocks(tv.take(i as int)),
            decreases tcs@.len() - i,
        {
            let b = tool_call(&tcs[i]);
            let ghost before = out@;
            out.push(b);
            proof {
                lemma_blocks_view_push(before, b);
                assert(tool_call_blocks(tv.take(i + 1)) =~= tool_call_blocks(tv.take(i as int)).push(tool_call_block(tv[i as int])));
                assert(start + tool_call_blocks(tv.take(i + 1)) =~= (start + tool_call_blocks(tv.take(i as int))).push(tool_call_block(tv[i as int])));
            }
            i = i + 1;
        }
        proof {
            assert(tv.take(tv.len() as int) == tv);
        }
    } else {
        proof {
            assert(tool_call_blocks(tool_calls_of(m@)) =~= Seq::<BlockV>::empty());
            assert(start + Seq::<BlockV>::empty() == start);
        }
    }
}

/// The raw reasoning text of a chat message: `reasoning_content` when
/// present, else `reasoning`, when it is a string.
pub open spec fn raw_reasoning(m: JsonV) -> Option<Seq<char>> {
    match m.field("reasoning_content"@) {
        Some(v) => v.str_of(),
        None => match m.field("reasoning"@) {
            Some(v) => v.str_of(),
            None => None,
        },
    }
}

/// The reasoning block a message's reasoning text gives: the readable text
/// and the credential split off it, when either is there.
pub open spec fn reasoning_prefix(m: JsonV) -> Seq<BlockV> {
    match raw_reasoning(m) {
        Some(raw) => {
            let (text, signature) = split_cot(raw);
            if text.len() > 0 || signature is Some {
                seq![BlockV::Reasoning { text, signature, redacted: false }]
            } else {
                Seq::empty()
            }
        },
        None => Seq::empty(),
    }
}

fn reasoning_blocks(m: &Json) -> (r: Vec<ContentBlock>)
    ensures
        blocks_view(r@) == reasoning_prefix(m@),
{
    let raw = match m.get("reasoning_content") {
        Some(v) => v.as_str(),
        None => match m.get("reasoning") {
            Some(v) => v.as_str(),
            None => None,
        },
    };
    let mut out: Vec<ContentBlock> = Vec::new();
    proof {
        lemma_blocks_view(out@);
    }
    if let Some(raw) = raw {
        let (text, signature) = split_mb_cot(raw);
        let has_text = chars_of(text.as_str()).len() > 0;
        if has_text || signature.is_some() {
            out.push(ContentBlock::Reasoning { text, signature, redacted: false });
            proof {
                lemma_blocks_view(out@);
                assert(blocks_view(out@) =~= reasoning_prefix(m@));
            }
        }
    }
    out
}

/// The message of a chat choice (`null` when absent).
pub open spec fn choice_message(choice: JsonV) -> JsonV {
    match choice.field("message"@) {
        Some(m) => m,
        None => JsonV::Null,
    }
}

/// The blocks of a chat choice's message: its reasoning first, then its
/// content, then its tool calls.
pub open spec fn choice_blocks(choice: JsonV) -> Seq<BlockV> {
    let m = choice_message(choice);
    reasoning_prefix(m) + chat_content_blocks(m.field("content"@)) + tool_call_blocks(tool_calls_of(m))
}

/// The stop reason of a chat choice's `finish_reason`.
pub open spec fn choice_finish(choice: JsonV) -> Option<StopReason> {
    match choice.field_str("finish_reason"@) {
        Some(s) => finish_reason_of(s),
        None => None,
    }
}

/// Appends `more` after `out`.
fn append_blocks(out: &mut Vec<ContentBlock>, more: Vec<ContentBlock>)
    ensures
        blocks_view(final(out)@) == blocks_view(old(out)@) + blocks_view(more@),
{
    let ghost a = out@;
    let ghost b = more@;
    let mut more = more;
    out.append(&mut more);
    proof {
        crate::protocol::ir::lemma_blocks_view_concat(a, b);
    }
}

/// A chat response choice → core blocks and stop reason (see
/// [`choice_blocks`] and [`choice_finish`]).
pub fn chat_choice_to_core(choice: &Json) -> (r: (Vec<ContentBlock>, Option<StopReason>))
    ensures
        blocks_view(r.0@) == choice_blocks(choice@),
        r.1 == choice_finish(choice@),
{
    let null = Json::Null;
    let msg = match choice.get("message") {
        Some(m) => m,
        None => &null,
    };
    let mut content = reasoning_blocks(msg);
    append_blocks(&mut content, parse_chat_content(msg.get("content")));
    push_tool_calls(&mut content, msg);
    let finish = match choice.get_str("finish_reason") {
        Some(s) => map_finish_reason(s),
        None => None,
    };
    (content, finish)
}

/// The readable reasoning texts of the blocks, joined.
pub open spec fn reasoning_texts(bs: Seq<BlockV>) -> Seq<char>
    decreases bs.len(),
{
    if bs.len() == 0 {
        Seq::empty()
    } else {
        reasoning_texts(bs.drop_last()) + match bs.last() {
            BlockV::Reasoning { text, .. } => text,
            _ => Seq::empty(),
        }
    }
}

/// The last non-empty reasoning credential among the blocks.
pub open spec fn last_credential(bs: Seq<BlockV>) -> Option<Seq<char>>
    decreases bs.len(),
{
    if bs.len() == 0 {
        None
    } else {
        match bs.last() {
            BlockV::Reasoning { signature: Some(s), .. } => if s.len() > 0 {
                Some(s)
            } else {
                last_credential(bs.drop_last())
            },
            _ => last_credential(bs.drop_last()),
        }
    }
}

/// The `tool_calls` entry of a tool use.
pub open spec fn tool_call_value(id: Seq<char>, name: Seq<char>, input: JsonV) -> JsonV {
    JsonV::Object(
        seq![
            ("id"@, JsonV::Str(id)),
            ("type"@, JsonV::Str("function"@)),
            ("function"@, JsonV::Object(seq![("name"@, JsonV::Str(name)), ("arguments"@, JsonV::Str(json_text(input)))])),
        ],
    )
}

/// The `tool_calls` entries of the tool uses among the blocks.
pub open spec fn tool_call_values(bs: Seq<BlockV>) -> Seq<JsonV>
    decreases bs.len(),
{
    if bs.len() == 0 {
        Seq::empty()
    } else {
        tool_call_values(bs.drop_last()) + match bs.last() {
            BlockV::ToolUse { id, name, input, .. } => seq![tool_call_value(id, name, input)],
            _ => Seq::empty(),
        }
    }
}

/// The reasoning field of a chat response message: the readable texts, then
/// the credential in `<mb-cot>` marks when there is one.
pub open spec fn chat_reasoning(bs: Seq<BlockV>) -> Seq<char> {
    reasoning_texts(bs) + match last_credential(bs) {
        Some(e) => cot_open() + e + cot_close(),
        None => Seq::empty(),
    }
}

/// The chat response message of core blocks: the role, the plain text, the
/// reasoning (written to both `reasoning_content` and `reasoning`) when
/// there is any, and the tool calls when there are any.
pub open spec fn chat_response_message(bs: Seq<BlockV>) -> JsonV {
    let r = chat_reasoning(bs);
    let tcs = tool_call_values(bs);
    JsonV::Object(
        seq![("role"@, JsonV::Str("assistant"@)), ("content"@, JsonV::Str(plain_text(bs)))]
            + (if r.len() > 0 {
            seq![("reasoning_content"@, JsonV::Str(r)), ("reasoning"@, JsonV::Str(r))]
        } else {
            Seq::empty()
        }) + (if tcs.len() > 0 {
            seq![("tool_calls"@, JsonV::Array(tcs))]
        } else {
            Seq::empty()
        }),
    )
}

fn tool_call_json(id: &String, name: &String, input: &Json) -> (r: Json)
    ensures
        r@ == tool_call_value(id@, name@, input@),
{
    let f = object2(member("name", Json::Str(name.clone())), member("arguments", Json::Str(json_to_string(input))));
    let mut fs: Vec<(String, Json)> = Vec::new();
    fs.push(member("id", Json::Str(id.clone())));
    fs.push(member("type", Json::Str("function".to_string())));
    fs.push(member("function", f));
    proof {
        lemma_fields_view(fs@);
        assert(fields_view(fs@) =~= tool_call_value(id@, name@, input@)->Object_0);
    }
    Json::Object(fs)
}

/// Core blocks → the assistant message of a chat response (see
/// [`chat_response_message`]). Chat has no field for reasoning credentials;
/// the reasoning text is the one place on the message a client sends back,
/// so the credential rides there between marks.
pub fn core_to_chat_response_message(content: &[ContentBlock]) -> (r: Json)
    ensures
        r@ == chat_response_message(blocks_view(content@)),
{
    proof {
        lemma_blocks_view(content@);
    }
    let ghost bv = blocks_view(content@);
    let mut tool_calls: Vec<Json> = Vec::new();
    let mut reasoning = String::new();
    let mut credential: Option<&String> = None;
    let mut i: usize = 0;
    while i < content.len()
        invariant
            i <= content@.len() == bv.len(),
            bv == blocks_view(content@),
            forall|k: int| 0 <= k < content@.len() ==> #[trigger] bv[k] == block_view(content@[k]),
            items_view(tool_calls@) == tool_call_values(bv.take(i as int)),
            reasoning@ == reasoning_texts(bv.take(i as int)),
            match credential {
                Some(c) => last_credential(bv.take(i as int)) == Some(c@),
                None => last_credential(bv.take(i as int)) is None,
            },
        decreases content@.len() - i,
    {
        proof {
            assert(bv.take(i + 1).drop_last() == bv.take(i as int));
            assert(bv.take(i + 1).last() == bv[i as int]);
            lemma_items_view(tool_calls@);
        }
        match &content[i] {
            ContentBlock::ToolUse { id, name, input, .. } => {
                let ghost before = tool_calls@;
                tool_calls.push(tool_call_json(id, name, input));
                proof {
                    lemma_items_view(tool_calls@);
                    assert(items_view(tool_calls@) =~= items_view(before) + seq![tool_call_value(id@, name@, input@)]);
                    assert(reasoning@ + Seq::<char>::empty() == reasoning@);
                }
            },
            ContentBlock::Reasoning { text, signature, .. } => {
                reasoning = concat_str(reasoning.as_str(), text.as_str());
                if let Some(sg) = signature {
                    if chars_of(sg.as_str()).len() > 0 {
                        credential = Some(sg);
                    }
                }
                proof {
                    assert(items_view(tool_calls@) + Seq::<JsonV>::empty() == items_view(tool_calls@));
                }
            },
            _ => {
                proof {
                    assert(items_view(tool_calls@) + Seq::<JsonV>::empty() == items_view(tool_calls@));
                    assert(reasoning@ + Seq::<char>::empty() == reasoning@);
                }
            },
        }
        i = i + 1;
    }
    proof {
        assert(bv.take(bv.len() as int) == bv);
    }
    if let Some(enc) = credential {
        let a = concat_str(reasoning.as_str(), "<mb-cot>");
        let b = concat_str(a.as_str(), enc.as_str());
        reasoning = concat_str(b.as_str(), "</mb-cot>");
    }
    proof {
        assert(reasoning@ == chat_reasoning(bv));
    }
    let text = text_of(content);
    let mut fs: Vec<(String, Json)> = Vec::new();
    fs.push(member("role", Json::Str("assistant".to_string())));
    fs.push(member("content", Json::Str(text)));
    let ghost base = seq![("role"@, JsonV::Str("assistant"@)), ("content"@, JsonV::Str(plain_text(bv)))];
    proof {
        lemma_fields_view(fs@);
        assert(fields_view(fs@) =~= base);
    }
    let has_reasoning = chars_of(reasoning.as_str()).len() > 0;
    if has_reasoning {
        fs.push(member("reasoning_content", Json::Str(reasoning.clone())));
        fs.push(member("reasoning", Json::Str(reasoning)));
    }
    let ghost mid = base + (if chat_reasoning(bv).len() > 0 {
        seq![("reasoning_content"@, JsonV::Str(chat_reasoning(bv))), ("reasoning"@, JsonV::Str(chat_reasoning(bv)))]
    } else {
        Seq::empty()
    });
    proof {
        lemma_fields_view(fs@);
        assert(fields_view(fs@) =~= mid);
    }
    if tool_calls.len() > 0 {
        proof {
            lemma_items_view(tool_calls@);
        }
        fs.push(member("tool_calls", Json::Array(tool_calls)));
    }
    proof {
        lemma_fields_view(fs@);
        lemma_items_view(tool_calls@);
        assert(fields_view(fs@) =~= chat_response_message(bv)->Object_0);
    }
    Json::Object(fs)
}

proof fn lemma_last_credential_nonempty(bs: Seq<BlockV>)
    ensures
        last_credential(bs) matches Some(e) ==> e.len() > 0,
    decreases bs.len(),
{
    if bs.len() > 0 {
        lemma_last_credential_nonempty(bs.drop_last());
    }
}

/// A response's reasoning and credential come back, as one reasoning block,
/// when the client sends the assistant message back: the readable text
/// (trimmed, holding no opening mark) and the credential (trimmed, non-empty,
/// holding no closing mark) are both restored.
pub proof fn law_reasoning_credential_roundtrip(bs: Seq<BlockV>, e: Seq<char>)
    requires
        last_credential(bs) == Some(e),
        trim(reasoning_texts(bs)) == reasoning_texts(bs),
        trim(e) == e,
        first_at(reasoning_texts(bs) + cot_open(), cot_open(), 0) == Some(reasoning_texts(bs).len() as int),
        first_at(e + cot_close(), cot_close(), 0) == Some(e.len() as int),
    ensures
        reasoning_prefix(chat_response_message(bs)) == seq![
            BlockV::Reasoning { text: reasoning_texts(bs), signature: Some(e), redacted: false },
        ],
{
    reveal_strlit("role");
    reveal_strlit("content");
    reveal_strlit("reasoning_content");
    reveal_strlit("<mb-cot>");
    reveal_strlit("</mb-cot>");
    assert("role"@.len() == 4 && "content"@.len() == 7 && "reasoning_content"@.len() == 17);
    let t = reasoning_texts(bs);
    let r = chat_reasoning(bs);
    assert(r == t + cot_open() + e + cot_close());
    assert(r.len() > 0);
    law_cot_mark_roundtrip(t, e);
    let m = chat_response_message(bs);
    let tcs = tool_call_values(bs);
    let a = seq![("role"@, JsonV::Str("assistant"@)), ("content"@, JsonV::Str(plain_text(bs)))];
    let b = seq![("reasoning_content"@, JsonV::Str(r)), ("reasoning"@, JsonV::Str(r))];
    let c: Seq<(Seq<char>, JsonV)> = if tcs.len() > 0 {
        seq![("tool_calls"@, JsonV::Array(tcs))]
    } else {
        Seq::empty()
    };
    assert(m == JsonV::Object(a + b + c));
    let k = "reasoning_content"@;
    assert(a[0].0 != k && a[1].0 != k);
    crate::json::lemma_find_field_absent(a, k);
    crate::json::lemma_find_field_concat(a, b, k);
    crate::json::lemma_find_field_concat(a + b, c, k);
    assert(crate::json::find_field(b, k) == Some(JsonV::Str(r)));
    assert(raw_reasoning(m) == Some(r));
    lemma_last_credential_nonempty(bs);
    assert(split_cot(r) == (t, Some(e)));
}

/// The role of a chat message: `system`, `assistant`, `tool` or `function`
/// (both tool), and anything else user.
pub open spec fn chat_role(m: JsonV) -> Role {
    match m.field_str("role"@) {
        Some(r) => if r == "system"@ {
            Role::System
        } else if r == "assistant"@ {
            Role::Assistant
        } else if r == "tool"@ || r == "function"@ {
            Role::Tool
        } else {
            Role::User
        },
        None => Role::User,
    }
}

/// The blocks of a chat request message: its content and tool calls; a tool
/// message becomes one tool result holding the plain text, for the message's
/// `tool_call_id`; an assistant message gets its reasoning first.
pub open spec fn chat_message_blocks(m: JsonV) -> Seq<BlockV> {
    let role = chat_role(m);
    let base = chat_content_blocks(m.field("content"@)) + tool_call_blocks(tool_calls_of(m));
    let c = if role == Role::Tool {
        seq![
            BlockV::ToolResult {
                tool_use_id: str_or_empty(m, "tool_call_id"@),
                content: seq![BlockV::Text { text: plain_text(base) }],
                is_error: false,
            },
        ]
    } else {
        base
    };
    if role == Role::Assistant {
        reasoning_prefix(m) + c
    } else {
        c
    }
}

fn chat_role_of(m: &Json) -> (r: Role)
    ensures
        r == chat_role(m@),
{
    match m.get_str("role") {
        Some(r) => if str_eq(r, "system") {
            Role::System
        } else if str_eq(r, "assistant") {
            Role::Assistant
        } else if str_eq(r, "tool") || str_eq(r, "function") {
            Role::Tool
        } else {
            Role::User
        },
        None => Role::User,
    }
}

fn chat_message(m: &Json) -> (r: Message)
    ensures
        r.role == chat_role(m@),
        blocks_view(r.content@) == chat_message_blocks(m@),
{
    let role = chat_role_of(m);
    let mut content = parse_chat_content(m.get("content"));
    push_tool_calls(&mut content, m);
    if role == Role::Tool {
        let tid = str_field(m, "tool_call_id");
        let txt = text_of(content.as_slice());
        let mut inner: Vec<ContentBlock> = Vec::new();
        inner.push(ContentBlock::Text { text: txt });
        proof {
            lemma_blocks_view(inner@);
            assert(blocks_view(inner@) =~= seq![BlockV::Text { text: txt@ }]);
        }
        let mut c: Vec<ContentBlock> = Vec::new();
        c.push(ContentBlock::ToolResult { tool_use_id: tid, content: inner, is_error: false });
        proof {
            lemma_blocks_view(c@);
            assert(blocks_view(c@) =~= chat_message_blocks(m@));
        }
        content = c;
    }
    if role == Role::Assistant {
        let mut r = reasoning_blocks(m);
        append_blocks(&mut r, content);
        content = r;
    }
    Message { role, content }
}

/// Chat request messages → core messages, one for one (see
/// [`chat_role`] and [`chat_message_blocks`]).
pub fn chat_to_core_messages(msgs: &[Json]) -> (r: Vec<Message>)
    ensures
        r@.len() == msgs@.len(),
        forall|k: int|
            0 <= k < msgs@.len() ==> (#[trigger] r@[k]).role == chat_role(msgs@[k]@) && blocks_view(
                r@[k].content@,
            ) == chat_message_blocks(msgs@[k]@),
{
    let mut out: Vec<Message> = Vec::new();
    let mut i: usize = 0;
    while i < msgs.len()
        invariant
            i <= msgs@.len(),
            out@.len() == i,
            forall|k: int|
                0 <= k < i ==> (#[trigger] out@[k]).role == chat_role(msgs@[k]@) && blocks_view(
                    out@[k].content@,
                ) == chat_message_blocks(msgs@[k]@),
        decreases msgs@.len() - i,
    {
        out.push(chat_message(&msgs[i]));
        i = i + 1;
    }
    out
}


/// The blocks of the system messages, joined in order.
pub open spec fn system_blocks(ms: Seq<(Role, Seq<BlockV>)>) -> Seq<BlockV>
    decreases ms.len(),
{
    if ms.len() == 0 {
        Seq::empty()
    } else {
        system_blocks(ms.drop_last()) + if ms.last().0 == Role::System {
            ms.last().1
        } else {
            Seq::empty()
        }
    }
}

/// The messages other than system messages, in order.
pub open spec fn non_system(ms: Seq<(Role, Seq<BlockV>)>) -> Seq<(Role, Seq<BlockV>)>
    decreases ms.len(),
{
    if ms.len() == 0 {
        Seq::empty()
    } else {
        non_system(ms.drop_last()) + if ms.last().0 == Role::System {
            Seq::empty()
        } else {
            seq![ms.last()]
        }
    }
}

/// Takes the system messages' content out as a top-level system, keeping the
/// other messages in order.
pub fn extract_system(messages: Vec<Message>) -> (r: (Vec<ContentBlock>, Vec<Message>))
    ensures
        blocks_view(r.0@) == system_blocks(messages@.map_values(|m: Message| message_view(m))),
        r.1@.map_values(|m: Message| message_view(m)) == non_system(
            messages@.map_values(|m: Message| message_view(m)),
        ),
{
    let ghost mv = messages@.map_values(|m: Message| message_view(m));
    let mut system: Vec<ContentBlock> = Vec::new();
    let mut rest: Vec<Message> = Vec::new();
    let mut ms = messages;
    let ghost all = ms@;
    proof {
        lemma_blocks_view(system@);
        assert(all.skip(0) == all);
    }
    let mut i: usize = 0;
    let n = ms.len();
    while i < n
        invariant
            n == all.len(),
            ms@ == all.skip(i as int),
            i <= n,
            mv == all.map_values(|m: Message| message_view(m)),
            blocks_view(system@) == system_blocks(mv.take(i as int)),
            rest@.map_values(|m: Message| message_view(m)) == non_system(mv.take(i as int)),
        decreases n - i,
    {
        let m = ms.remove(0);
        proof {
            assert(m == all[i as int]);
            assert(mv.take(i + 1).drop_last() == mv.take(i as int));
            assert(mv.take(i + 1).last() == message_view(all[i as int]));
            assert(ms@ == all.skip(i + 1));
        }
        if m.role == Role::System {
            let ghost rv = rest@.map_values(|m: Message| message_view(m));
            append_blocks(&mut system, m.content);
            proof {
                assert(rv + Seq::<(Role, Seq<BlockV>)>::empty() == rv);
            }
        } else {
            let ghost before = rest@;
            let ghost mvv = message_view(m);
            rest.push(m);
            proof {
                assert(rest@.map_values(|m: Message| message_view(m)) =~= before.map_values(|m: Message| message_view(m)).push(mvv));
                assert(blocks_view(system@) + Seq::<BlockV>::empty() == blocks_view(system@));
            }
        }
        i = i + 1;
    }
    proof {
        assert(mv.take(n as int) == mv);
    }
    (system, rest)
}

/// A chat request tool's core tool: the `function`'s name, description and
/// `parameters` (an object schema when absent); entries without a function
/// name give none.
pub open spec fn chat_tool(t: JsonV) -> Option<ToolV> {
    match t.field("function"@) {
        Some(f) => match f.field_str("name"@) {
            Some(name) => Some(
                ToolV {
                    name,
                    description: f.field_str("description"@),
                    input_schema: match f.field("parameters"@) {
                        Some(p) => p,
                        None => JsonV::Object(seq![("type"@, JsonV::Str("object"@))]),
                    },
                },
            ),
            None => None,
        },
        None => None,
    }
}

/// The core tools of chat request tools, in order.
pub open spec fn chat_tools(ts: Seq<JsonV>) -> Seq<ToolV>
    decreases ts.len(),
{
    if ts.len() == 0 {
        Seq::empty()
    } else {
        chat_tools(ts.drop_last()) + match chat_tool(ts.last()) {
            Some(t) => seq![t],
            None => Seq::empty(),
        }
    }
}

fn chat_tool_of(t: &Json) -> (r: Option<Tool>)
    ensures
        match r {
            Some(x) => chat_tool(t@) == Some(tool_view(x)),
            None => chat_tool(t@) is None,
        },
{
    let f = match t.get("function") {
        Some(f) => f,
        None => {
            return None;
        },
    };
    let name = match f.get_str("name") {
        Some(n) => n.to_string(),
        None => {
            return None;
        },
    };
    let description = match f.get_str("description") {
        Some(d) => Some(d.to_string()),
        None => None,
    };
    let input_schema = match f.get("parameters") {
        Some(p) => p.deep_clone(),
        None => object1(member("type", Json::Str("object".to_string()))),
    };
    Some(Tool { name, description, input_schema })
}

/// Chat request tools → core tools (see [`chat_tool`]).
pub fn chat_tools_to_core(tools: &[Json]) -> (r: Vec<Tool>)
    ensures
        r@.map_values(|t: Tool| tool_view(t)) == chat_tools(tools@.map_values(|j: Json| j@)),
{
    let ghost tv = tools@.map_values(|j: Json| j@);
    let mut out: Vec<Tool> = Vec::new();
    let mut i: usize = 0;
    while i < tools.len()
        invariant
            i <= tools@.len() == tv.len(),
            tv == tools@.map_values(|j: Json| j@),
            out@.map_values(|t: Tool| tool_view(t)) == chat_tools(tv.take(i as int)),
        decreases tools@.len() - i,
    {
        proof {
            assert(tv.take(i + 1).drop_last() == tv.take(i as int));
            assert(tv.take(i + 1).last() == tools@[i as int]@);
        }
        let ghost before = out@;
        match chat_tool_of(&tools[i]) {
            Some(t) => {
                let ghost tw = tool_view(t);
                out.push(t);
                proof {
                    assert(out@.map_values(|t: Tool| tool_view(t)) =~= before.map_values(|t: Tool| tool_view(t)).push(tw));
                }
            },
            None => {
                proof {
                    assert(chat_tools(tv.take(i as int)) + Seq::<ToolV>::empty() == chat_tools(tv.take(i as int)));
                }
            },
        }
        i = i + 1;
    }
    proof {
        assert(tv.take(tv.len() as int) == tv);
    }
    out
}

/// The chat request tool of a core tool.
pub open spec fn chat_tool_value(t: ToolV) -> JsonV {
    JsonV::Object(
        seq![
            ("type"@, JsonV::Str("function"@)),
            ("function"@, JsonV::Object(
                seq![("name"@, JsonV::Str(t.name)), ("parameters"@, t.input_schema)] + match t.description {
                    Some(d) => seq![("description"@, JsonV::Str(d))],
                    None => Seq::empty(),
                },
            )),
        ],
    )
}

/// Core tools → chat request tools, one for one.
pub fn core_to_chat_tools(tools: &[Tool]) -> (r: Vec<Json>)
    ensures
        r@.map_values(|j: Json| j@) == tools@.map_values(|t: Tool| chat_tool_value(tool_view(t))),
{
    let mut out: Vec<Json> = Vec::new();
    let mut i: usize = 0;
    while i < tools.len()
        invariant
            i <= tools@.len(),
            out@.len() == i,
            forall|k: int| 0 <= k < i ==> (#[trigger] out@[k])@ == chat_tool_value(tool_view(tools@[k])),
        decreases tools@.len() - i,
    {
        let t = &tools[i];
        let mut fs: Vec<(String, Json)> = Vec::new();
        fs.push(member("name", Json::Str(t.name.clone())));
        fs.push(member("parameters", t.input_schema.deep_clone()));
        if let Some(d) = &t.description {
            fs.push(member("description", Json::Str(d.clone())));
        }
        let ghost inner = seq![("name"@, JsonV::Str(t.name@)), ("parameters"@, t.input_schema@)] + match opt_view(t.description) {
            Some(d) => seq![("description"@, JsonV::Str(d))],
            None => Seq::empty(),
        };
        proof {
            lemma_fields_view(fs@);
            assert(fields_view(fs@) =~= inner);
        }
        let f = Json::Object(fs);
        let v = object2(member("type", Json::Str("function".to_string())), member("function", f));
        proof {
            let tv = tool_view(*t);
            let exp_inner = seq![("name"@, JsonV::Str(tv.name)), ("parameters"@, tv.input_schema)] + match tv.description {
                Some(d) => seq![("description"@, JsonV::Str(d))],
                None => Seq::empty(),
            };
            assert(exp_inner =~= inner);
            assert(f@ == JsonV::Object(inner));
            let outer = seq![("type"@, JsonV::Str("function"@)), ("function"@, JsonV::Object(exp_inner))];
            assert(v@ == JsonV::Object(outer));
            let cv = chat_tool_value(tv);
            assert(cv is Object);
            assert(cv->Object_0.len() == 2);
            assert(cv->Object_0[0] == outer[0]);
            assert(cv->Object_0[1].1 == JsonV::Object(exp_inner));
            assert(cv->Object_0 =~= outer);
        }
        out.push(v);
        i = i + 1;
    }
    proof {
        assert(out@.map_values(|j: Json| j@) =~= tools@.map_values(|t: Tool| chat_tool_value(tool_view(t))));
    }
    out
}

/// The chat name of a role.
pub open spec fn role_name(r: Role) -> Seq<char> {
    match r {
        Role::System => "system"@,
        Role::Assistant => "assistant"@,
        Role::Tool => "tool"@,
        Role::User => "user"@,
    }
}

fn role_str(r: Role) -> (s: &'static str)
    ensures
        s@ == role_name(r),
{
    match r {
        Role::System => "system",
        Role::Assistant => "assistant",
        Role::Tool => "tool",
        Role::User => "user",
    }
}

/// The URL an image is sent by: itself when held by URL, else a base64
/// data URL.
pub open spec fn image_url(data: Seq<char>, media_type: Seq<char>) -> Seq<char> {
    if media_type == "url"@ {
        data
    } else {
        "data:"@ + media_type + ";base64,"@ + data
    }
}

/// The multi-modal content part of a block: text and images; other blocks
/// have none.
pub open spec fn content_part(b: BlockV) -> Option<JsonV> {
    match b {
        BlockV::Text { text } => Some(JsonV::Object(seq![("type"@, JsonV::Str("text"@)), ("text"@, JsonV::Str(text))])),
        BlockV::Image { data, media_type } => Some(
            JsonV::Object(
                seq![
                    ("type"@, JsonV::Str("image_url"@)),
                    ("image_url"@, JsonV::Object(seq![("url"@, JsonV::Str(image_url(data, media_type)))])),
                ],
            ),
        ),
        _ => None,
    }
}

/// The content parts of blocks, in order.
pub open spec fn parts_values(ps: Seq<BlockV>) -> Seq<JsonV>
    decreases ps.len(),
{
    if ps.len() == 0 {
        Seq::empty()
    } else {
        parts_values(ps.drop_last()) + match content_part(ps.last()) {
            Some(v) => seq![v],
            None => Seq::empty(),
        }
    }
}

/// Whether a block goes into a chat message's content (not a tool call, a
/// tool result, or reasoning).
pub open spec fn is_content_block(b: BlockV) -> bool {
    !(b is ToolUse || b is ToolResult || b is Reasoning)
}

/// The content blocks, in order.
pub open spec fn content_blocks(bs: Seq<BlockV>) -> Seq<BlockV>
    decreases bs.len(),
{
    if bs.len() == 0 {
        Seq::empty()
    } else {
        content_blocks(bs.drop_last()) + if is_content_block(bs.last()) {
            seq![bs.last()]
        } else {
            Seq::empty()
        }
    }
}

/// The `content` of a chat message: a lone text block as a string, anything
/// else as an array of parts.
pub open spec fn content_value(ps: Seq<BlockV>) -> JsonV {
    if ps.len() == 1 && ps[0] is Text {
        JsonV::Str(ps[0]->Text_text)
    } else {
        JsonV::Array(parts_values(ps))
    }
}

/// The tool results among the blocks: call id and plain text.
pub open spec fn tool_results(bs: Seq<BlockV>) -> Seq<(Seq<char>, Seq<char>)>
    decreases bs.len(),
{
    if bs.len() == 0 {
        Seq::empty()
    } else {
        tool_results(bs.drop_last()) + match bs.last() {
            BlockV::ToolResult { tool_use_id, content, .. } => seq![(tool_use_id, plain_text(content))],
            _ => Seq::empty(),
        }
    }
}

/// The chat message of one tool result.
pub open spec fn tool_result_value(r: (Seq<char>, Seq<char>)) -> JsonV {
    JsonV::Object(
        seq![("role"@, JsonV::Str("tool"@)), ("tool_call_id"@, JsonV::Str(r.0)), ("content"@, JsonV::Str(r.1))],
    )
}

/// The chat messages of one core message: one tool message per tool result
/// when it holds any; else one message with the role, the content, and the
/// tool calls when there are any.
pub open spec fn chat_messages_of(role: Role, bs: Seq<BlockV>) -> Seq<JsonV> {
    let trs = tool_results(bs);
    if trs.len() > 0 {
        trs.map_values(|r: (Seq<char>, Seq<char>)| tool_result_value(r))
    } else {
        let tcs = tool_call_values(bs);
        seq![
            JsonV::Object(
                seq![("role"@, JsonV::Str(role_name(role))), ("content"@, content_value(content_blocks(bs)))]
                    + if tcs.len() > 0 {
                    seq![("tool_calls"@, JsonV::Array(tcs))]
                } else {
                    Seq::empty()
                },
            ),
        ]
    }
}

/// The chat messages of core messages, in order.
pub open spec fn chat_messages_all(ms: Seq<(Role, Seq<BlockV>)>) -> Seq<JsonV>
    decreases ms.len(),
{
    if ms.len() == 0 {
        Seq::empty()
    } else {
        chat_messages_all(ms.drop_last()) + chat_messages_of(ms.last().0, ms.last().1)
    }
}

/// The chat request messages of a core system and messages: a system message
/// with the system's plain text when there is any, then each message's.
pub open spec fn core_chat_messages(system: Seq<BlockV>, ms: Seq<(Role, Seq<BlockV>)>) -> Seq<JsonV> {
    (if plain_text(system).len() > 0 {
        seq![JsonV::Object(seq![("role"@, JsonV::Str("system"@)), ("content"@, JsonV::Str(plain_text(system)))])]
    } else {
        Seq::empty()
    }) + chat_messages_all(ms)
}

fn content_part_of(b: &ContentBlock) -> (r: Option<Json>)
    ensures
        match r {
            Some(v) => content_part(b@) == Some(v@),
            None => content_part(b@) is None,
        },
{
    match b {
        ContentBlock::Text { text } => Some(
            object2(member("type", Json::Str("text".to_string())), member("text", Json::Str(text.clone()))),
        ),
        ContentBlock::Image { data, media_type } => {
            let url = if str_eq(media_type.as_str(), "url") {
                data.clone()
            } else {
                let a = concat_str("data:", media_type.as_str());
                let b2 = concat_str(a.as_str(), ";base64,");
                concat_str(b2.as_str(), data.as_str())
            };
            let inner = object1(member("url", Json::Str(url)));
            Some(object2(member("type", Json::Str("image_url".to_string())), member("image_url", inner)))
        },
        _ => None,
    }
}

/// The chat messages of one core message (see [`chat_messages_of`]).
fn push_chat_messages(out: &mut Vec<Json>, msg: &Message)
    ensures
        final(out)@.map_values(|j: Json| j@) == old(out)@.map_values(|j: Json| j@) + chat_messages_of(
            msg.role,
            blocks_view(msg.content@),
        ),
{
    proof {
        lemma_blocks_view(msg.content@);
    }
    let ghost bv = blocks_view(msg.content@);
    let mut tool_calls: Vec<Json> = Vec::new();
    let mut results: Vec<(String, String)> = Vec::new();
    let mut parts: Vec<ContentBlock> = Vec::new();
    let mut i: usize = 0;
    while i < msg.content.len()
        invariant
            i <= msg.content@.len() == bv.len(),
            bv == blocks_view(msg.content@),
            forall|k: int| 0 <= k < msg.content@.len() ==> #[trigger] bv[k] == block_view(msg.content@[k]),
            items_view(tool_calls@) == tool_call_values(bv.take(i as int)),
            results@.map_values(|r: (String, String)| (r.0@, r.1@)) == tool_results(bv.take(i as int)),
            blocks_view(parts@) == content_blocks(bv.take(i as int)),
        decreases msg.content@.len() - i,
    {
        proof {
            assert(bv.take(i + 1).drop_last() == bv.take(i as int));
            assert(bv.take(i + 1).last() == bv[i as int]);
            lemma_items_view(tool_calls@);
        }
        let ghost tc0 = items_view(tool_calls@);
        let ghost rs0 = results@.map_values(|r: (String, String)| (r.0@, r.1@));
        let ghost ps0 = blocks_view(parts@);
        match &msg.content[i] {
            ContentBlock::ToolUse { id, name, input, .. } => {
                let ghost before = tool_calls@;
                tool_calls.push(tool_call_json(id, name, input));
                proof {
                    lemma_items_view(tool_calls@);
                    assert(items_view(tool_calls@) =~= tc0 + seq![tool_call_value(id@, name@, input@)]);
                    assert(rs0 + Seq::<(Seq<char>, Seq<char>)>::empty() == rs0);
                    assert(ps0 + Seq::<BlockV>::empty() == ps0);
                }
            },
            ContentBlock::ToolResult { tool_use_id, content, .. } => {
                let ghost before = results@;
                let txt = text_of(content.as_slice());
                results.push((tool_use_id.clone(), txt));
                proof {
                    assert(results@.map_values(|r: (String, String)| (r.0@, r.1@)) =~= rs0 + seq![(tool_use_id@, plain_text(blocks_view(content@)))]);
                    assert(tc0 + Seq::<JsonV>::empty() == tc0);
                    assert(ps0 + Seq::<BlockV>::empty() == ps0);
                }
            },
            ContentBlock::Reasoning { .. } => {
                proof {
                    assert(tc0 + Seq::<JsonV>::empty() == tc0);
                    assert(rs0 + Seq::<(Seq<char>, Seq<char>)>::empty() == rs0);
                    assert(ps0 + Seq::<BlockV>::empty() == ps0);
                }
            },
            other => {
                let ghost before = parts@;
                let c = other.deep_clone();
                parts.push(c);
                proof {
                    lemma_blocks_view_push(before, c);
                    assert(tc0 + Seq::<JsonV>::empty() == tc0);
                    assert(rs0 + Seq::<(Seq<char>, Seq<char>)>::empty() == rs0);
                }
            },
        }
        i = i + 1;
    }
    proof {
        assert(bv.take(bv.len() as int) == bv);
        lemma_items_view(tool_calls@);
        lemma_blocks_view(parts@);
    }
    let ghost start = out@.map_values(|j: Json| j@);
    if results.len() > 0 {
        let ghost rv = results@.map_values(|r: (String, String)| (r.0@, r.1@));
        let mut k: usize = 0;
        while k < results.len()
            invariant
                k <= results@.len() == rv.len(),
                rv == results@.map_values(|r: (String, String)| (r.0@, r.1@)),
                out@.map_values(|j: Json| j@) == start + rv.take(k as int).map_values(|r: (Seq<char>, Seq<char>)| tool_result_value(r)),
            decreases results@.len() - k,
        {
            let mut fs: Vec<(String, Json)> = Vec::new();
            fs.push(member("role", Json::Str("tool".to_string())));
            fs.push(member("tool_call_id", Json::Str(results[k].0.clone())));
            fs.push(member("content", Json::Str(results[k].1.clone())));
            proof {
                lemma_fields_view(fs@);
                assert(fields_view(fs@) =~= tool_result_value(rv[k as int])->Object_0);
            }
            let ghost before = out@;
            out.push(Json::Object(fs));
            proof {
                assert(rv.take(k + 1).map_values(|r: (Seq<char>, Seq<char>)| tool_result_value(r)) =~= rv.take(k as int).map_values(|r: (Seq<char>, Seq<char>)| tool_result_value(r)).push(tool_result_value(rv[k as int])));
                assert(out@.map_values(|j: Json| j@) =~= before.map_values(|j: Json| j@).push(tool_result_value(rv[k as int])));
            }
            k = k + 1;
        }
        proof {
            assert(rv.take(rv.len() as int) == rv);
        }
        return;
    }
    let ghost pv = content_blocks(bv);
    let content_value_json = if parts.len() == 1 && (match &parts[0] {
        ContentBlock::Text { .. } => true,
        _ => false,
    }) {
        match &parts[0] {
            ContentBlock::Text { text } => Json::Str(text.clone()),
            _ => Json::Null,
        }
    } else {
        let mut arr: Vec<Json> = Vec::new();
        let mut j: usize = 0;
        while j < parts.len()
            invariant
                j <= parts@.len() == pv.len(),
                blocks_view(parts@) == pv,
                forall|q: int| 0 <= q < parts@.len() ==> #[trigger] pv[q] == block_view(parts@[q]),
                items_view(arr@) == parts_values(pv.take(j as int)),
            decreases parts@.len() - j,
        {
            proof {
                assert(pv.take(j + 1).drop_last() == pv.take(j as int));
                assert(pv.take(j + 1).last() == pv[j as int]);
                lemma_items_view(arr@);
            }
            let ghost a0 = items_view(arr@);
            match content_part_of(&parts[j]) {
                Some(v) => {
                    arr.push(v);
                    proof {
                        lemma_items_view(arr@);
                        assert(items_view(arr@) =~= a0 + seq![v@]);
                    }
                },
                None => {
                    proof {
                        assert(a0 + Seq::<JsonV>::empty() == a0);
                    }
                },
            }
            j = j + 1;
        }
        proof {
            assert(pv.take(pv.len() as int) == pv);
        }
        Json::Array(arr)
    };
    proof {
        assert(content_value_json@ == content_value(pv));
    }
    let mut fs: Vec<(String, Json)> = Vec::new();
    fs.push(member("role", Json::Str(role_str(msg.role).to_string())));
    fs.push(member("content", content_value_json));
    let has_calls = tool_calls.len() > 0;
    if has_calls {
        fs.push(member("tool_calls", Json::Array(tool_calls)));
    }
    proof {
        lemma_fields_view(fs@);
        assert(fields_view(fs@) =~= chat_messages_of(msg.role, bv)[0]->Object_0);
    }
    let ghost before = out@;
    out.push(Json::Object(fs));
    proof {
        assert(out@.map_values(|j: Json| j@) =~= before.map_values(|j: Json| j@) + chat_messages_of(msg.role, bv));
    }
}

/// Core system and messages → chat request messages (see
/// [`core_chat_messages`]).
pub fn core_to_chat_messages(system: &[ContentBlock], messages: &[Message]) -> (r: Vec<Json>)
    ensures
        r@.map_values(|j: Json| j@) == core_chat_messages(
            blocks_view(system@),
            messages@.map_values(|m: Message| message_view(m)),
        ),
{
    let ghost mv = messages@.map_values(|m: Message| message_view(m));
    let mut out: Vec<Json> = Vec::new();
    let sys_text = text_of(system);
    if chars_of(sys_text.as_str()).len() > 0 {
        out.push(object2(member("role", Json::Str("system".to_string())), member("content", Json::Str(sys_text))));
    }
    let ghost start = out@.map_values(|j: Json| j@);
    proof {
        assert(start =~= (if plain_text(blocks_view(system@)).len() > 0 {
            seq![JsonV::Object(seq![("role"@, JsonV::Str("system"@)), ("content"@, JsonV::Str(plain_text(blocks_view(system@))))])]
        } else {
            Seq::empty()
        }));
    }
    let mut i: usize = 0;
    while i < messages.len()
        invariant
            i <= messages@.len() == mv.len(),
            mv == messages@.map_values(|m: Message| message_view(m)),
            out@.map_values(|j: Json| j@) == start + chat_messages_all(mv.take(i as int)),
        decreases messages@.len() - i,
    {
        proof {
            assert(mv.take(i + 1).drop_last() == mv.take(i as int));
            assert(mv.take(i + 1).last() == message_view(messages@[i as int]));
        }
        push_chat_messages(&mut out, &messages[i]);
        proof {
            assert(start + chat_messages_all(mv.take(i + 1)) =~= start + chat_messages_all(mv.take(i as int)) + chat_messages_of(messages@[i as int].role, blocks_view(messages@[i as int].content@)));
        }
        i = i + 1;
    }
    proof {
        assert(mv.take(mv.len() as int) == mv);
    }
    out
}

} // verus!
