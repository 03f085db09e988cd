//! Anthropic Messages streaming: upstream SSE chunks → core stream events,
//! and core events → Anthropic SSE chunks for a client.
//!
//! The core event model follows Anthropic's, so decoding maps event for
//! event. Encoding opens reasoning blocks lazily: a thinking block is opened
//! by its first reasoning text, a signature arriving first opens it as a
//! complete `redacted_thinking` block, and a reasoning block that never
//! receives either produces no event at all.
use vstd::prelude::*;
use crate::json::{fields_view, json_text, lemma_fields_view, with_field, Json, JsonNum, JsonV};
use crate::protocol::adapters::AnthropicAdapter;
use crate::protocol::anthropic::{anthropic_usage_out, map_stop_reason, stop_reason_name, stop_reason_of, unmap_stop_reason, usage_out_value};
use crate::protocol::chat::{count_of, read_count, str_field, str_or_empty};
use crate::protocol::chat_stream::{chunk_json, chunk_value, jfield, jobject, null_or, one1};
use crate::protocol::context::ReqCtx;
use crate::protocol::ir::{
    block_view, events_view, event_view, lemma_events_push, BlockV, ContentBlock, CoreStreamEvent, DeltaV, EventV,
    Protocol, StreamDelta, Usage,
};
use crate::protocol::raw::{body_view, chunk_view, chunks_view, lemma_chunks_push, BodyV, ChunkStage, ChunkV, RawChunk};
use crate::protocol::stream_state::{opened, remove_first, EncodeV, StreamEncodeState};
use crate::text::str_eq;

verus! {

/// A chunk's `index` (zero when absent).
pub open spec fn event_index(data: JsonV) -> usize {
    match data.field_u64("index"@) {
        Some(n) => n as usize,
        None => 0,
    }
}

/// The usage reported at `message_start`.
pub open spec fn start_usage(u: JsonV) -> Usage {
    Usage {
        input_tokens: count_of(u, "input_tokens"@),
        output_tokens: count_of(u, "output_tokens"@),
        cache_read_tokens: count_of(u, "cache_read_input_tokens"@),
        cache_write_tokens: count_of(u, "cache_creation_input_tokens"@),
        reasoning_tokens: 0,
    }
}

/// The block a `content_block_start` opens.
pub open spec fn start_block(cb: JsonV) -> BlockV {
    let t = cb.field_str("type"@);
    if t == Some("tool_use"@) {
        BlockV::ToolUse {
            id: str_or_empty(cb, "id"@),
            name: str_or_empty(cb, "name"@),
            namespace: None,
            input: null_or(cb.field("input"@)),
            signature: None,
        }
    } else if t == Some("thinking"@) {
        BlockV::Reasoning { text: str_or_empty(cb, "thinking"@), signature: None, redacted: false }
    } else if t == Some("redacted_thinking"@) {
        BlockV::Reasoning { text: Seq::empty(), signature: cb.field_str("data"@), redacted: true }
    } else {
        BlockV::Text { text: str_or_empty(cb, "text"@) }
    }
}

/// The delta event of a `content_block_delta`, if it is of a known kind.
pub open spec fn delta_events(i: usize, d: JsonV) -> Seq<EventV> {
    let t = d.field_str("type"@);
    if t == Some("text_delta"@) {
        seq![EventV::BlockDelta { index: i, delta: DeltaV::Text { text: str_or_empty(d, "text"@) } }]
    } else if t == Some("input_json_delta"@) {
        seq![EventV::BlockDelta { index: i, delta: DeltaV::ToolInput { partial_json: str_or_empty(d, "partial_json"@) } }]
    } else if t == Some("thinking_delta"@) {
        seq![EventV::BlockDelta { index: i, delta: DeltaV::Reasoning { text: str_or_empty(d, "thinking"@) } }]
    } else if t == Some("signature_delta"@) && str_or_empty(d, "signature"@).len() > 0 {
        seq![EventV::BlockDelta { index: i, delta: DeltaV::ReasoningSignature { signature: str_or_empty(d, "signature"@) } }]
    } else {
        Seq::empty()
    }
}

/// The core events of one Anthropic stream event: one for one, except that
/// `message_start` also reports its usage, a redacted thinking block passes
/// its data on as a signature delta, and `ping` and unknown events give
/// nothing.
pub open spec fn anthropic_events(data: JsonV) -> Seq<EventV> {
    let ty = str_or_empty(data, "type"@);
    let i = event_index(data);
    if ty == "message_start"@ {
        let msg = null_or(data.field("message"@));
        seq![EventV::MessageStart { id: str_or_empty(msg, "id"@), model: str_or_empty(msg, "model"@) }] + match msg.field(
            "usage"@,
        ) {
            Some(u) => seq![EventV::MessageDelta { stop_reason: None, usage: Some(start_usage(u)) }],
            None => Seq::empty(),
        }
    } else if ty == "content_block_start"@ {
        let b = start_block(null_or(data.field("content_block"@)));
        seq![EventV::BlockStart { index: i, block: b }] + match b {
            BlockV::Reasoning { text: _, signature: Some(sig), redacted: true } => seq![
                EventV::BlockDelta { index: i, delta: DeltaV::ReasoningSignature { signature: sig } },
            ],
            _ => Seq::empty(),
        }
    } else if ty == "content_block_delta"@ {
        delta_events(i, null_or(data.field("delta"@)))
    } else if ty == "content_block_stop"@ {
        seq![EventV::BlockStop { index: i, block: None }]
    } else if ty == "message_delta"@ {
        seq![
            EventV::MessageDelta {
                stop_reason: match null_or(data.field("delta"@)).field_str("stop_reason"@) {
                    Some(s) => stop_reason_of(s),
                    None => None,
                },
                usage: match data.field("usage"@) {
                    Some(u) => Some(
                        Usage {
                            input_tokens: 0,
                            output_tokens: count_of(u, "output_tokens"@),
                            cache_read_tokens: 0,
                            cache_write_tokens: 0,
                            reasoning_tokens: 0,
                        },
                    ),
                    None => None,
                },
            },
        ]
    } else if ty == "message_stop"@ {
        seq![EventV::MessageStop]
    } else if ty == "error"@ {
        seq![
            EventV::Error {
                message: match data.field("error"@) {
                    Some(e) => match e.field_str("message"@) {
                        Some(m) => m,
                        None => "upstream stream error"@,
                    },
                    None => "upstream stream error"@,
                },
            },
        ]
    } else {
        Seq::empty()
    }
}

/// Decoding one Anthropic chunk; a chunk that is not JSON gives nothing.
pub open spec fn anthropic_decode(data: BodyV, raw: Seq<char>) -> Seq<EventV> {
    match chunk_value(data, raw) {
        Some(v) => anthropic_events(v),
        None => Seq::empty(),
    }
}

fn index_of(data: &Json) -> (r: usize)
    ensures
        r == event_index(data@),
{
    match data.get_u64("index") {
        Some(n) => n as usize,
        None => 0,
    }
}

fn push_event(out: &mut Vec<CoreStreamEvent>, e: CoreStreamEvent)
    ensures
        events_view(final(out)@) == events_view(old(out)@).push(event_view(e)),
{
    let ghost before = out@;
    out.push(e);
    proof {
        lemma_events_push(before, e);
    }
}

fn block_of_start(cb: Option<&Json>) -> (r: ContentBlock)
    ensures
        block_view(r) == start_block(null_or(match cb {
            Some(c) => Some(c@),
            None => None,
        })),
{
    let null = Json::Null;
    let c: &Json = match cb {
        Some(c) => c,
        None => &null,
    };
    match c.get_str("type") {
        Some(t) => {
            if str_eq(t, "tool_use") {
                let input = match c.get("input") {
                    Some(i) => i.deep_clone(),
                    None => Json::Null,
                };
                return ContentBlock::ToolUse {
                    id: str_field(c, "id"),
                    name: str_field(c, "name"),
                    namespace: None,
                    input,
                    signature: None,
                };
            } else if str_eq(t, "thinking") {
                return ContentBlock::Reasoning { text: str_field(c, "thinking"), signature: None, redacted: false };
            } else if str_eq(t, "redacted_thinking") {
                let sig = match c.get_str("data") {
                    Some(d) => Some(d.to_string()),
                    None => None,
                };
                return ContentBlock::Reasoning { text: String::new(), signature: sig, redacted: true };
            }
        },
        None => {},
    }
    ContentBlock::Text { text: str_field(c, "text") }
}

impl AnthropicAdapter {
    /// Decodes one upstream Anthropic SSE chunk into core events (see
    /// [`anthropic_decode`]).
    pub fn decode(&self, _ctx: &ReqCtx, chunk: &RawChunk) -> (r: Vec<CoreStreamEvent>)
        ensures
            events_view(r@) == anthropic_decode(body_view(chunk.data), chunk.raw@),
    {
        let mut out: Vec<CoreStreamEvent> = Vec::new();
        proof {
            assert(events_view(out@) =~= Seq::<EventV>::empty());
        }
        let data = match chunk_json(chunk) {
            Some(d) => d,
            None => {
                return out;
            },
        };
        let ty = str_field(&data, "type");
        let i = index_of(&data);
        if str_eq(ty.as_str(), "message_start") {
            let null = Json::Null;
            let msg: &Json = match data.get("message") {
                Some(m) => m,
                None => &null,
            };
            push_event(&mut out, CoreStreamEvent::MessageStart { id: str_field(msg, "id"), model: str_field(msg, "model") });
            if let Some(u) = msg.get("usage") {
                let usage = Usage {
                    input_tokens: read_count(u, "input_tokens"),
                    output_tokens: read_count(u, "output_tokens"),
                    cache_read_tokens: read_count(u, "cache_read_input_tokens"),
                    cache_write_tokens: read_count(u, "cache_creation_input_tokens"),
                    reasoning_tokens: 0,
                };
                push_event(&mut out, CoreStreamEvent::MessageDelta { stop_reason: None, usage: Some(usage) });
            }
        } else if str_eq(ty.as_str(), "content_block_start") {
            let block = block_of_start(data.get("content_block"));
            let sig = match &block {
                ContentBlock::Reasoning { signature: Some(s), redacted: true, .. } => Some(s.clone()),
                _ => None,
            };
            push_event(&mut out, CoreStreamEvent::BlockStart { index: i, block });
            if let Some(s) = sig {
                push_event(&mut out, CoreStreamEvent::BlockDelta { index: i, delta: StreamDelta::ReasoningSignature { signature: s } });
            }
        } else if str_eq(ty.as_str(), "content_block_delta") {
            let null = Json::Null;
            let d: &Json = match data.get("delta") {
                Some(d) => d,
                None => &null,
            };
            match d.get_str("type") {
                Some(t) => {
                    if str_eq(t, "text_delta") {
                        push_event(&mut out, CoreStreamEvent::BlockDelta { index: i, delta: StreamDelta::Text { text: str_field(d, "text") } });
                    } else if str_eq(t, "input_json_delta") {
                        push_event(
                            &mut out,
                            CoreStreamEvent::BlockDelta { index: i, delta: StreamDelta::ToolInput { partial_json: str_field(d, "partial_json") } },
                        );
                    } else if str_eq(t, "thinking_delta") {
                        push_event(
                            &mut out,
                            CoreStreamEvent::BlockDelta { index: i, delta: StreamDelta::Reasoning { text: str_field(d, "thinking") } },
                        );
                    } else if str_eq(t, "signature_delta") {
                        let sig = str_field(d, "signature");
                        if sig.unicode_len() > 0 {
                            push_event(
                                &mut out,
                                CoreStreamEvent::BlockDelta { index: i, delta: StreamDelta::ReasoningSignature { signature: sig } },
                            );
                        }
                    }
                },
                None => {},
            }
        } else if str_eq(ty.as_str(), "content_block_stop") {
            push_event(&mut out, CoreStreamEvent::BlockStop { index: i, block: None });
        } else if str_eq(ty.as_str(), "message_delta") {
            let sr = match data.get("delta") {
                Some(d) => match d.get_str("stop_reason") {
                    Some(s) => map_stop_reason(s),
                    None => None,
                },
                None => None,
            };
            let usage = match data.get("usage") {
                Some(u) => Some(
                    Usage {
                        input_tokens: 0,
                        output_tokens: read_count(u, "output_tokens"),
                        cache_read_tokens: 0,
                        cache_write_tokens: 0,
                        reasoning_tokens: 0,
                    },
                ),
                None => None,
            };
            push_event(&mut out, CoreStreamEvent::MessageDelta { stop_reason: sr, usage });
        } else if str_eq(ty.as_str(), "message_stop") {
            push_event(&mut out, CoreStreamEvent::MessageStop);
        } else if str_eq(ty.as_str(), "error") {
            let message = match data.get("error") {
                Some(e) => match e.get_str("message") {
                    Some(m) => m.to_string(),
                    None => "upstream stream error".to_string(),
                },
                None => "upstream stream error".to_string(),
            };
            push_event(&mut out, CoreStreamEvent::Error { message });
        }
        proof {
            assert(events_view(out@) =~= anthropic_decode(body_view(chunk.data), chunk.raw@));
        }
        out
    }
}


// ---- encoding for a client ----

/// An Anthropic SSE chunk for a client: the event name and its data.
pub open spec fn sse_chunk(event: Seq<char>, v: JsonV) -> ChunkV {
    ChunkV {
        stage: ChunkStage::ClientChunk,
        protocol: Protocol::Anthropic,
        provider: None,
        event: Some(event),
        data: BodyV::Json(v),
        raw: json_text(v),
    }
}

pub open spec fn typed(t: Seq<char>, rest: Seq<(Seq<char>, JsonV)>) -> JsonV {
    JsonV::Object(seq![("type"@, JsonV::Str(t))] + rest)
}

/// `content_block_start` for block `i`.
pub open spec fn start_chunk(i: usize, cb: JsonV) -> ChunkV {
    sse_chunk(
        "content_block_start"@,
        typed("content_block_start"@, seq![("index"@, JsonV::PosInt(i as u64)), ("content_block"@, cb)]),
    )
}

/// `content_block_delta` for block `i`.
pub open spec fn delta_chunk(i: usize, d: JsonV) -> ChunkV {
    sse_chunk("content_block_delta"@, typed("content_block_delta"@, seq![("index"@, JsonV::PosInt(i as u64)), ("delta"@, d)]))
}

pub open spec fn with_open(st: EncodeV, open: Seq<usize>) -> EncodeV {
    EncodeV { open, ..st }
}

/// The `message_start` data.
pub open spec fn message_start_value(id: Seq<char>, model: Seq<char>) -> JsonV {
    typed(
        "message_start"@,
        seq![
            ("message"@, JsonV::Object(
                seq![
                    ("id"@, JsonV::Str(id)),
                    ("type"@, JsonV::Str("message"@)),
                    ("role"@, JsonV::Str("assistant"@)),
                    ("model"@, JsonV::Str(model)),
                    ("content"@, JsonV::Array(Seq::empty())),
                    ("stop_reason"@, JsonV::Null),
                    ("stop_sequence"@, JsonV::Null),
                    ("usage"@, JsonV::Object(seq![("input_tokens"@, JsonV::PosInt(0)), ("output_tokens"@, JsonV::PosInt(0))])),
                ],
            )),
        ],
    )
}

/// Encoding one core event for an Anthropic client (see the module
/// documentation for how reasoning blocks open).
pub open spec fn anthropic_encode(st: EncodeV, e: EventV) -> (EncodeV, Seq<ChunkV>) {
    match e {
        EventV::MessageStart { id, model } => (st, seq![sse_chunk("message_start"@, message_start_value(id, model))]),
        EventV::BlockStart { index, block } => match block {
            BlockV::Reasoning { .. } => (st, Seq::empty()),
            BlockV::ToolUse { id, name, .. } => (
                with_open(st, opened(st.open, index)),
                seq![start_chunk(
                    index,
                    typed("tool_use"@, seq![("id"@, JsonV::Str(id)), ("name"@, JsonV::Str(name)), ("input"@, JsonV::Object(Seq::empty()))]),
                )],
            ),
            _ => (
                with_open(st, opened(st.open, index)),
                seq![start_chunk(index, typed("text"@, seq![("text"@, JsonV::Str(Seq::empty()))]))],
            ),
        },
        EventV::BlockDelta { index, delta } => {
            let new = !st.open.contains(index);
            let s1 = with_open(st, opened(st.open, index));
            match delta {
                DeltaV::Text { text } => (
                    s1,
                    (if new {
                        seq![start_chunk(index, typed("text"@, seq![("text"@, JsonV::Str(Seq::empty()))]))]
                    } else {
                        Seq::empty()
                    }) + seq![delta_chunk(index, typed("text_delta"@, seq![("text"@, JsonV::Str(text))]))],
                ),
                DeltaV::ToolInput { partial_json } => (
                    st,
                    seq![delta_chunk(index, typed("input_json_delta"@, seq![("partial_json"@, JsonV::Str(partial_json))]))],
                ),
                DeltaV::Reasoning { text } => (
                    s1,
                    (if new {
                        seq![start_chunk(index, typed("thinking"@, seq![("thinking"@, JsonV::Str(Seq::empty()))]))]
                    } else {
                        Seq::empty()
                    }) + seq![delta_chunk(index, typed("thinking_delta"@, seq![("thinking"@, JsonV::Str(text))]))],
                ),
                DeltaV::ReasoningSignature { signature } => if new {
                    (s1, seq![start_chunk(index, typed("redacted_thinking"@, seq![("data"@, JsonV::Str(signature))]))])
                } else {
                    (st, seq![delta_chunk(index, typed("signature_delta"@, seq![("signature"@, JsonV::Str(signature))]))])
                },
            }
        },
        EventV::BlockStop { index, block: _ } => if st.open.contains(index) {
            (
                with_open(st, remove_first(st.open, index)),
                seq![sse_chunk("content_block_stop"@, typed("content_block_stop"@, seq![("index"@, JsonV::PosInt(index as u64))]))],
            )
        } else {
            (st, Seq::empty())
        },
        EventV::MessageDelta { stop_reason, usage } => {
            let sr = match stop_reason {
                Some(r) => stop_reason_name(r),
                None => "end_turn"@,
            };
            let data = typed(
                "message_delta"@,
                seq![("delta"@, JsonV::Object(seq![("stop_reason"@, JsonV::Str(sr)), ("stop_sequence"@, JsonV::Null)]))],
            );
            (
                st,
                seq![sse_chunk(
                    "message_delta"@,
                    match usage {
                        Some(u) => with_field(data, "usage"@, usage_out_value(u)),
                        None => data,
                    },
                )],
            )
        },
        EventV::MessageStop => (st, seq![sse_chunk("message_stop"@, typed("message_stop"@, Seq::empty()))]),
        EventV::Error { message } => (
            st,
            seq![sse_chunk(
                "error"@,
                typed("error"@, seq![("error"@, typed("api_error"@, seq![("message"@, JsonV::Str(message))]))]),
            )],
        ),
    }
}

/// How streamed block content decodes: a `content_block_delta` event of
/// block `n` whose delta is a `thinking_delta` gives exactly one reasoning
/// delta of block `n` carrying the delta's `thinking` text; a `text_delta`
/// gives one text delta carrying its `text`.
pub proof fn law_anthropic_content_deltas_decode(data: BodyV, raw: Seq<char>, v: JsonV, n: u64, d: JsonV, text: Seq<char>)
    requires
        chunk_value(data, raw) == Some(v),
        v.field("type"@) == Some(JsonV::Str("content_block_delta"@)),
        v.field("index"@) == Some(JsonV::PosInt(n)),
        n <= usize::MAX,
        v.field("delta"@) == Some(d),
    ensures
        d.field("type"@) == Some(JsonV::Str("thinking_delta"@)) && d.field("thinking"@) == Some(JsonV::Str(text))
            ==> anthropic_decode(data, raw) == seq![
            EventV::BlockDelta { index: n as usize, delta: DeltaV::Reasoning { text } },
        ],
        d.field("type"@) == Some(JsonV::Str("text_delta"@)) && d.field("text"@) == Some(JsonV::Str(text))
            ==> anthropic_decode(data, raw) == seq![
            EventV::BlockDelta { index: n as usize, delta: DeltaV::Text { text } },
        ],
{
    reveal_strlit("content_block_delta");
    reveal_strlit("message_start");
    reveal_strlit("content_block_start");
    reveal_strlit("thinking_delta");
    reveal_strlit("text_delta");
    reveal_strlit("input_json_delta");
    assert("content_block_delta"@.len() == 19 && "message_start"@.len() == 13);
    assert("content_block_start"@[14] != "content_block_delta"@[14]);
    assert("thinking_delta"@.len() == 14 && "text_delta"@.len() == 10 && "input_json_delta"@.len() == 16);
    assert(str_or_empty(v, "type"@) == "content_block_delta"@);
    assert(event_index(v) == n as usize);
}

/// Whether a chunk opens a content block.
pub open spec fn is_block_start(c: ChunkV) -> bool {
    c.event == Some("content_block_start"@)
}

/// Whether a chunk closes a content block.
pub open spec fn is_block_stop(c: ChunkV) -> bool {
    c.event == Some("content_block_stop"@)
}

proof fn lemma_opened_nodup(open: Seq<usize>, i: usize)
    requires
        open.no_duplicates(),
    ensures
        opened(open, i).no_duplicates(),
        opened(open, i).contains(i),
        forall|j: usize| j != i ==> (opened(open, i).contains(j) <==> open.contains(j)),
{
    if !open.contains(i) {
        let r = open.push(i);
        assert(r[open.len() as int] == i);
        assert forall|j: usize| j != i implies (r.contains(j) <==> open.contains(j)) by {
            if open.contains(j) {
                let k = choose|k: int| 0 <= k < open.len() && open[k] == j;
                assert(r[k] == j);
            }
            if r.contains(j) {
                let k = choose|k: int| 0 <= k < r.len() && r[k] == j;
                assert(k < open.len());
                assert(open[k] == j);
            }
        }
        assert forall|a: int, b: int| 0 <= a < r.len() && 0 <= b < r.len() && a != b implies r[a] != r[b] by {
            if a < open.len() && b < open.len() {
            } else if a < open.len() {
                assert(open.contains(r[a]));
            } else {
                assert(open.contains(r[b]));
            }
        }
    }
}

proof fn lemma_remove_first_nodup(s: Seq<usize>, x: usize)
    requires
        s.no_duplicates(),
    ensures
        remove_first(s, x).no_duplicates(),
        !remove_first(s, x).contains(x),
        forall|j: usize| j != x ==> (remove_first(s, x).contains(j) <==> s.contains(j)),
    decreases s.len(),
{
    if s.len() > 0 {
        let t = s.drop_first();
        assert(t.no_duplicates()) by {
            assert forall|a: int, b: int| 0 <= a < t.len() && 0 <= b < t.len() && a != b implies t[a] != t[b] by {
                assert(t[a] == s[a + 1] && t[b] == s[b + 1]);
            }
        }
        lemma_remove_first_nodup(t, x);
        assert(!t.contains(s[0])) by {
            if t.contains(s[0]) {
                let k = choose|k: int| 0 <= k < t.len() && t[k] == s[0];
                assert(s[k + 1] == s[0]);
            }
        }
        assert forall|j: usize| j != s[0] implies (t.contains(j) <==> s.contains(j)) by {
            if s.contains(j) {
                let k = choose|k: int| 0 <= k < s.len() && s[k] == j;
                assert(k != 0);
                assert(t[k - 1] == j);
            }
            if t.contains(j) {
                let k = choose|k: int| 0 <= k < t.len() && t[k] == j;
                assert(s[k + 1] == j);
            }
        }
        if s[0] != x {
            let rt = remove_first(t, x);
            let r = seq![s[0]] + rt;
            assert(remove_first(s, x) == r);
            assert(!rt.contains(s[0]));
            assert(r.contains(s[0])) by {
                assert(r[0] == s[0]);
            }
            assert forall|j: usize| j != x implies (r.contains(j) <==> s.contains(j)) by {
                if j == s[0] {
                    assert(r[0] == j);
                    assert(s[0] == j);
                } else {
                    if rt.contains(j) {
                        let k = choose|k: int| 0 <= k < rt.len() && rt[k] == j;
                        assert(r[k + 1] == j);
                    }
                    if r.contains(j) {
                        let k = choose|k: int| 0 <= k < r.len() && r[k] == j;
                        assert(k != 0);
                        assert(rt[k - 1] == j);
                    }
                }
            }
            assert(!r.contains(x)) by {
                if r.contains(x) {
                    let k = choose|k: int| 0 <= k < r.len() && r[k] == x;
                    assert(k != 0);
                    assert(rt[k - 1] == x);
                }
            }
            assert forall|a: int, b: int| 0 <= a < r.len() && 0 <= b < r.len() && a != b implies r[a] != r[b] by {
                if a == 0 && b > 0 {
                    assert(r[b] == rt[b - 1]);
                    assert(rt.contains(r[b]));
                } else if b == 0 && a > 0 {
                    assert(r[a] == rt[a - 1]);
                    assert(rt.contains(r[a]));
                } else if a > 0 && b > 0 {
                    assert(r[a] == rt[a - 1] && r[b] == rt[b - 1]);
                }
            }
        } else {
            assert(remove_first(s, x) == t);
            assert(!t.contains(x));
        }
    }
}

/// How the Anthropic encoder pairs block starts and stops over a stream, with
/// the set of open blocks (kept free of repeats) as its state. A stop event
/// closes a block once: it emits one `content_block_stop` exactly when the
/// block was open, and leaves it closed. A start event of a visible block
/// emits one `content_block_start` and leaves the block open; a reasoning
/// block's start emits nothing and changes nothing (its start comes lazily
/// with its first delta). A delta emits a lazy start only for a block that
/// was not open, never a stop, and leaves the block open (a tool-input delta
/// changes nothing). Other events open and close nothing. No event touches
/// the open state of any other block.
pub proof fn law_anthropic_block_pairing(st: EncodeV, e: EventV)
    requires
        st.open.no_duplicates(),
    ensures
        ({
            let (s1, out) = anthropic_encode(st, e);
            &&& s1.open.no_duplicates()
            &&& match e {
                EventV::BlockStart { index, block } => if block is Reasoning {
                    s1 == st && out.len() == 0
                } else {
                    &&& out.len() == 1
                    &&& is_block_start(out[0])
                    &&& s1.open.contains(index)
                    &&& forall|j: usize| j != index ==> (s1.open.contains(j) <==> st.open.contains(j))
                },
                EventV::BlockDelta { index, delta } => {
                    &&& forall|k: int| 0 <= k < out.len() ==> !is_block_stop(#[trigger] out[k])
                    &&& forall|k: int| 0 <= k < out.len() && is_block_start(#[trigger] out[k]) ==> k == 0
                        && !st.open.contains(index)
                    &&& (out.len() > 0 && is_block_start(out[0])) <==> (!st.open.contains(index)
                        && !(delta is ToolInput))
                    &&& (delta is ToolInput ==> s1.open == st.open)
                    &&& (!(delta is ToolInput) ==> s1.open.contains(index))
                    &&& forall|j: usize| j != index ==> (s1.open.contains(j) <==> st.open.contains(j))
                },
                EventV::BlockStop { index, block: _ } => {
                    &&& out.len() == (if st.open.contains(index) {
                        1int
                    } else {
                        0int
                    })
                    &&& forall|k: int| 0 <= k < out.len() ==> is_block_stop(#[trigger] out[k])
                    &&& !s1.open.contains(index)
                    &&& forall|j: usize| j != index ==> (s1.open.contains(j) <==> st.open.contains(j))
                },
                _ => {
                    &&& s1.open == st.open
                    &&& forall|k: int| 0 <= k < out.len() ==> !is_block_start(#[trigger] out[k])
                        && !is_block_stop(out[k])
                },
            }
        }),
{
    reveal_strlit("content_block_start");
    reveal_strlit("content_block_delta");
    reveal_strlit("content_block_stop");
    reveal_strlit("message_start");
    reveal_strlit("message_delta");
    reveal_strlit("message_stop");
    reveal_strlit("error");
    assert("content_block_start"@.len() == 19 && "content_block_delta"@.len() == 19);
    assert("content_block_stop"@.len() == 18 && "message_start"@.len() == 13);
    assert("message_delta"@.len() == 13 && "message_stop"@.len() == 12 && "error"@.len() == 5);
    assert("content_block_start"@[14] != "content_block_delta"@[14]);
    assert("content_block_start"@ != "content_block_delta"@);
    match e {
        EventV::BlockStart { index, block } => {
            lemma_opened_nodup(st.open, index);
        },
        EventV::BlockDelta { index, delta } => {
            lemma_opened_nodup(st.open, index);
        },
        EventV::BlockStop { index, block: _ } => {
            if st.open.contains(index) {
                lemma_remove_first_nodup(st.open, index);
            }
        },
        _ => {},
    }
}

/// The state after the Anthropic encoder has taken the events `es` in turn,
/// starting from `st`.
pub open spec fn anthropic_run(st: EncodeV, es: Seq<EventV>) -> EncodeV
    decreases es.len(),
{
    if es.len() == 0 {
        st
    } else {
        anthropic_run(anthropic_encode(st, es[0]).0, es.drop_first())
    }
}

/// Every state the Anthropic encoder builds keeps its open blocks free of
/// repeats, from a fresh state (nothing open) on or from any state that had
/// none, whatever events come: so the pairing law holds at every step of a
/// stream.
pub proof fn law_anthropic_open_blocks_never_repeat(st: EncodeV, es: Seq<EventV>)
    requires
        st.open.no_duplicates(),
    ensures
        anthropic_run(st, es).open.no_duplicates(),
    decreases es.len(),
{
    if es.len() > 0 {
        law_anthropic_block_pairing(st, es[0]);
        law_anthropic_open_blocks_never_repeat(anthropic_encode(st, es[0]).0, es.drop_first());
    }
}

/// What encoding an event needs: the cache counts of a reported usage sum
/// within a `u32`.
pub open spec fn anthropic_encode_fits(e: EventV) -> bool {
    match e {
        EventV::MessageDelta { stop_reason: _, usage: Some(u) } => u.cache_read_tokens + u.cache_write_tokens <= u32::MAX,
        _ => true,
    }
}

fn typed_json(t: &str, rest: Vec<(String, Json)>) -> (r: Json)
    ensures
        r@ == typed(t@, fields_view(rest@)),
{
    let mut fs: Vec<(String, Json)> = Vec::new();
    fs.push(jfield("type", Json::Str(t.to_string())));
    let ghost head = fs@;
    let mut rest = rest;
    let ghost tail = rest@;
    fs.append(&mut rest);
    proof {
        lemma_fields_view(fs@);
        lemma_fields_view(tail);
        assert(fs@ == head + tail);
        assert(fields_view(fs@) =~= seq![("type"@, JsonV::Str(t@))] + fields_view(tail));
    }
    jobject(fs)
}

fn fields1(k: &str, v: Json) -> (r: Vec<(String, Json)>)
    ensures
        fields_view(r@) == seq![(k@, v@)],
{
    let mut fs: Vec<(String, Json)> = Vec::new();
    fs.push(jfield(k, v));
    proof {
        lemma_fields_view(fs@);
        assert(fields_view(fs@) =~= seq![(k@, v@)]);
    }
    fs
}

fn fields2(k1: &str, v1: Json, k2: &str, v2: Json) -> (r: Vec<(String, Json)>)
    ensures
        fields_view(r@) == seq![(k1@, v1@), (k2@, v2@)],
{
    let mut fs: Vec<(String, Json)> = Vec::new();
    fs.push(jfield(k1, v1));
    fs.push(jfield(k2, v2));
    proof {
        lemma_fields_view(fs@);
        assert(fields_view(fs@) =~= seq![(k1@, v1@), (k2@, v2@)]);
    }
    fs
}

fn client_sse(event: &str, v: Json) -> (r: RawChunk)
    ensures
        chunk_view(r) == sse_chunk(event@, v@),
{
    RawChunk::json(ChunkStage::ClientChunk, Protocol::Anthropic, Some(event.to_string()), v)
}

fn start_of(i: usize, cb: Json) -> (r: RawChunk)
    ensures
        chunk_view(r) == start_chunk(i, cb@),
{
    client_sse("content_block_start", typed_json("content_block_start", fields2("index", Json::Num(JsonNum::PosInt(i as u64)), "content_block", cb)))
}

fn delta_of(i: usize, d: Json) -> (r: RawChunk)
    ensures
        chunk_view(r) == delta_chunk(i, d@),
{
    client_sse("content_block_delta", typed_json("content_block_delta", fields2("index", Json::Num(JsonNum::PosInt(i as u64)), "delta", d)))
}

fn text_typed(t: &str, k: &str, v: &String) -> (r: Json)
    ensures
        r@ == typed(t@, seq![(k@, JsonV::Str(v@))]),
{
    typed_json(t, fields1(k, Json::Str(v.clone())))
}

fn push_chunk(out: &mut Vec<RawChunk>, c: RawChunk)
    ensures
        chunks_view(final(out)@) == chunks_view(old(out)@).push(chunk_view(c)),
{
    let ghost before = out@;
    out.push(c);
    proof {
        lemma_chunks_push(before, c);
    }
}

fn message_start_json(id: &String, model: &String) -> (r: Json)
    ensures
        r@ == message_start_value(id@, model@),
{
    let usage = jobject(fields2("input_tokens", Json::Num(JsonNum::PosInt(0)), "output_tokens", Json::Num(JsonNum::PosInt(0))));
    let mut m: Vec<(String, Json)> = Vec::new();
    m.push(jfield("id", Json::Str(id.clone())));
    m.push(jfield("type", Json::Str("message".to_string())));
    m.push(jfield("role", Json::Str("assistant".to_string())));
    m.push(jfield("model", Json::Str(model.clone())));
    m.push(jfield("content", Json::Array(Vec::new())));
    m.push(jfield("stop_reason", Json::Null));
    m.push(jfield("stop_sequence", Json::Null));
    m.push(jfield("usage", usage));
    proof {
        lemma_fields_view(m@);
        assert(crate::json::items_view(Seq::<Json>::empty()) =~= Seq::<JsonV>::empty());
        assert(fields_view(m@) =~= message_start_value(id@, model@)->Object_0[1].1->Object_0);
    }
    typed_json("message_start", fields1("message", jobject(m)))
}

impl AnthropicAdapter {
    /// Encodes one core event for an Anthropic client (see
    /// [`anthropic_encode`]).
    pub fn encode(&self, _ctx: &ReqCtx, ev: &CoreStreamEvent, st: &mut StreamEncodeState) -> (r: Vec<RawChunk>)
        requires
            anthropic_encode_fits(event_view(*ev)),
        ensures
            final(st).ev() == anthropic_encode(old(st).ev(), event_view(*ev)).0,
            chunks_view(r@) == anthropic_encode(old(st).ev(), event_view(*ev)).1,
            old(st).open_blocks@.no_duplicates() ==> final(st).open_blocks@.no_duplicates(),
    {
        proof {
            if old(st).open_blocks@.no_duplicates() {
                law_anthropic_block_pairing(old(st).ev(), event_view(*ev));
            }
        }
        let mut out: Vec<RawChunk> = Vec::new();
        let ghost out0 = chunks_view(out@);
        proof {
            assert(out0 =~= Seq::<ChunkV>::empty());
        }
        match ev {
            CoreStreamEvent::MessageStart { id, model } => {
                push_chunk(&mut out, client_sse("message_start", message_start_json(id, model)));
            },
            CoreStreamEvent::BlockStart { index, block } => {
                match block {
                    ContentBlock::Reasoning { .. } => {},
                    ContentBlock::ToolUse { id, name, .. } => {
                        let mut fs: Vec<(String, Json)> = Vec::new();
                        fs.push(jfield("id", Json::Str(id.clone())));
                        fs.push(jfield("name", Json::Str(name.clone())));
                        fs.push(jfield("input", Json::Object(Vec::new())));
                        proof {
                            lemma_fields_view(fs@);
                            assert(fields_view(Seq::<(String, Json)>::empty()) =~= Seq::<(Seq<char>, JsonV)>::empty());
                            assert(fields_view(fs@) =~= seq![("id"@, JsonV::Str(id@)), ("name"@, JsonV::Str(name@)), ("input"@, JsonV::Object(Seq::empty()))]);
                        }
                        crate::protocol::stream_state::index_set_insert(&mut st.open_blocks, *index);
                        push_chunk(&mut out, start_of(*index, typed_json("tool_use", fs)));
                    },
                    _ => {
                        crate::protocol::stream_state::index_set_insert(&mut st.open_blocks, *index);
                        push_chunk(&mut out, start_of(*index, text_typed("text", "text", &String::new())));
                    },
                }
            },
            CoreStreamEvent::BlockDelta { index, delta } => match delta {
                StreamDelta::Text { text } => {
                    if crate::protocol::stream_state::index_set_insert(&mut st.open_blocks, *index) {
                        push_chunk(&mut out, start_of(*index, text_typed("text", "text", &String::new())));
                    }
                    push_chunk(&mut out, delta_of(*index, text_typed("text_delta", "text", text)));
                },
                StreamDelta::ToolInput { partial_json } => {
                    push_chunk(&mut out, delta_of(*index, text_typed("input_json_delta", "partial_json", partial_json)));
                },
                StreamDelta::Reasoning { text } => {
                    if crate::protocol::stream_state::index_set_insert(&mut st.open_blocks, *index) {
                        push_chunk(&mut out, start_of(*index, text_typed("thinking", "thinking", &String::new())));
                    }
                    push_chunk(&mut out, delta_of(*index, text_typed("thinking_delta", "thinking", text)));
                },
                StreamDelta::ReasoningSignature { signature } => {
                    if crate::protocol::stream_state::index_set_insert(&mut st.open_blocks, *index) {
                        push_chunk(&mut out, start_of(*index, text_typed("redacted_thinking", "data", signature)));
                    } else {
                        push_chunk(&mut out, delta_of(*index, text_typed("signature_delta", "signature", signature)));
                    }
                },
            },
            CoreStreamEvent::BlockStop { index, .. } => {
                if crate::protocol::stream_state::index_set_remove(&mut st.open_blocks, *index) {
                    let d = typed_json("content_block_stop", fields1("index", Json::Num(JsonNum::PosInt(*index as u64))));
                    push_chunk(&mut out, client_sse("content_block_stop", d));
                }
            },
            CoreStreamEvent::MessageDelta { stop_reason, usage } => {
                let sr = match stop_reason {
                    Some(r) => unmap_stop_reason(*r),
                    None => "end_turn",
                };
                let inner = jobject(fields2("stop_reason", Json::Str(sr.to_string()), "stop_sequence", Json::Null));
                let data = typed_json("message_delta", fields1("delta", inner));
                let data = match usage {
                    Some(u) => crate::json::with_member(data, "usage".to_string(), anthropic_usage_out(u)),
                    None => data,
                };
                push_chunk(&mut out, client_sse("message_delta", data));
            },
            CoreStreamEvent::MessageStop => {
                let v: Vec<(String, Json)> = Vec::new();
                proof {
                    assert(fields_view(v@) =~= Seq::<(Seq<char>, JsonV)>::empty());
                }
                push_chunk(&mut out, client_sse("message_stop", typed_json("message_stop", v)));
            },
            CoreStreamEvent::Error { message } => {
                let inner = text_typed("api_error", "message", message);
                push_chunk(&mut out, client_sse("error", typed_json("error", fields1("error", inner))));
            },
        }
        proof {
            assert(chunks_view(out@) =~= anthropic_encode(old(st).ev(), event_view(*ev)).1);
        }
        out
    }
}
} // verus!
