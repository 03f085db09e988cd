//! OpenAI Responses streaming: upstream Responses SSE events → core stream
//! events, and core events → Responses SSE events for a client.
use vstd::prelude::*;
use vstd::relations::sorted_by;
use crate::json::{
    fields_view, find_field, items_view, json_parsed, json_text, json_to_string, json_view, lemma_fields_view, lemma_items_view,
    parse_json, with_field, with_member, Json, JsonNum, JsonV,
};
use crate::protocol::adapters::OpenAiResponsesAdapter;
use crate::protocol::chat::{str_field, str_or_empty};
use crate::protocol::chat_stream::{chunk_json, chunk_value, jfield, jobject, null_or, one1, usage_after, zero_usage};
use crate::protocol::gemini_stream::{index_leq, lemma_index_leq_total, sorted_indexes};
use crate::protocol::context::ReqCtx;
use crate::protocol::ir::{
    block_view, events_view, event_view, lemma_events_push, BlockV, ContentBlock, CoreStreamEvent, DeltaV, EventV,
    Protocol, StopReason, StreamDelta, Usage,
};
use crate::protocol::raw::{body_view, chunk_view, chunks_view, lemma_chunks_push, BodyV, ChunkStage, ChunkV, RawChunk};
use crate::protocol::responses::event;
use crate::protocol::responses::{
    push_field, function_call_item, function_call_item_value, message_item, message_item_value, response_skeleton, responses_usage,
    skeleton, usage_from_value, usage_object, usage_value,
};
use crate::protocol::signature::{emit_signature, emit_spec, tag_signature, tag_spec, SIG_OPENAI};
use crate::protocol::stream_state::{map_get, merged_usage, EncodeV, StreamDecodeState, StreamEncodeState};
use crate::text::{concat_str, dec, str_eq, u64_to_dec};

verus! {

/// An event's `output_index` (zero when absent).
pub open spec fn output_index(data: JsonV) -> usize {
    match data.field_u64("output_index"@) {
        Some(n) => n as usize,
        None => 0,
    }
}

/// The `text` members of a list, concatenated.
pub open spec fn texts(xs: Seq<JsonV>) -> Seq<char>
    decreases xs.len(),
{
    if xs.len() == 0 {
        Seq::empty()
    } else {
        texts(xs.drop_last()) + match xs.last().field_str("text"@) {
            Some(t) => t,
            None => Seq::empty(),
        }
    }
}

/// The texts of `item[key]` when it is a list.
pub open spec fn texts_at(item: JsonV, key: Seq<char>) -> Seq<char> {
    match item.field(key) {
        Some(a) => match a.array_of() {
            Some(xs) => texts(xs),
            None => Seq::empty(),
        },
        None => Seq::empty(),
    }
}

/// The block an `output_item.added` opens.
pub open spec fn added_block(item: JsonV) -> BlockV {
    let t = item.field_str("type"@);
    if t == Some("function_call"@) {
        BlockV::ToolUse {
            id: str_or_empty(item, "call_id"@),
            name: str_or_empty(item, "name"@),
            namespace: None,
            input: JsonV::Object(Seq::empty()),
            signature: None,
        }
    } else if t == Some("reasoning"@) {
        BlockV::Reasoning { text: Seq::empty(), signature: None, redacted: false }
    } else {
        BlockV::Text { text: Seq::empty() }
    }
}

/// The whole block an `output_item.done` carries: a reasoning item with its
/// summary and content texts and its encrypted content (tagged as OpenAI's),
/// none when it has neither; a function call with its parsed arguments (an
/// empty object when absent or not valid JSON); a message with its texts.
pub open spec fn done_block(item: JsonV) -> Option<BlockV> {
    let t = item.field_str("type"@);
    if t == Some("reasoning"@) {
        let text = texts_at(item, "summary"@) + texts_at(item, "content"@);
        let sig = tag_spec("oai:"@, item.field_str("encrypted_content"@));
        if text.len() > 0 || sig is Some {
            Some(BlockV::Reasoning { text, signature: sig, redacted: false })
        } else {
            None
        }
    } else if t == Some("function_call"@) {
        Some(
            BlockV::ToolUse {
                id: match item.field("call_id"@) {
                    Some(v) => match v.str_of() {
                        Some(s) => s,
                        None => Seq::empty(),
                    },
                    None => str_or_empty(item, "id"@),
                },
                name: str_or_empty(item, "name"@),
                namespace: None,
                input: match item.field_str("arguments"@) {
                    Some(a) => match json_parsed(a) {
                        Some(v) => v,
                        None => JsonV::Object(Seq::empty()),
                    },
                    None => JsonV::Object(Seq::empty()),
                },
                signature: None,
            },
        )
    } else if t == Some("message"@) {
        Some(BlockV::Text { text: texts_at(item, "content"@) })
    } else {
        None
    }
}

/// The stop reason of a finished response: an incomplete one stops for its
/// `incomplete_details.reason` (output limit or content filter), anything
/// else as an end of turn.
pub open spec fn finished_reason(incomplete: bool, resp: JsonV) -> StopReason {
    if incomplete {
        match null_or(resp.field("incomplete_details"@)).field_str("reason"@) {
            Some(r) => if r == "max_output_tokens"@ {
                StopReason::MaxTokens
            } else if r == "content_filter"@ {
                StopReason::ContentFilter
            } else {
                StopReason::EndTurn
            },
            None => StopReason::EndTurn,
        }
    } else {
        StopReason::EndTurn
    }
}

/// The core events of one Responses stream event.
pub open spec fn responses_events(data: JsonV) -> Seq<EventV> {
    let ty = str_or_empty(data, "type"@);
    let i = output_index(data);
    if ty == "response.created"@ {
        let resp = null_or(data.field("response"@));
        seq![EventV::MessageStart { id: str_or_empty(resp, "id"@), model: str_or_empty(resp, "model"@) }]
    } else if ty == "response.output_item.added"@ {
        seq![EventV::BlockStart { index: i, block: added_block(null_or(data.field("item"@))) }]
    } else if ty == "response.reasoning_summary_text.delta"@ || ty == "response.reasoning_text.delta"@ {
        if str_or_empty(data, "delta"@).len() > 0 {
            seq![EventV::BlockDelta { index: i, delta: DeltaV::Reasoning { text: str_or_empty(data, "delta"@) } }]
        } else {
            Seq::empty()
        }
    } else if ty == "response.output_text.delta"@ {
        seq![EventV::BlockDelta { index: i, delta: DeltaV::Text { text: str_or_empty(data, "delta"@) } }]
    } else if ty == "response.function_call_arguments.delta"@ {
        seq![EventV::BlockDelta { index: i, delta: DeltaV::ToolInput { partial_json: str_or_empty(data, "delta"@) } }]
    } else if ty == "response.output_item.done"@ {
        let b = done_block(null_or(data.field("item"@)));
        (match b {
            Some(BlockV::Reasoning { text: _, signature: Some(sig), redacted: _ }) => seq![
                EventV::BlockDelta { index: i, delta: DeltaV::ReasoningSignature { signature: sig } },
            ],
            _ => Seq::empty(),
        }) + seq![EventV::BlockStop { index: i, block: b }]
    } else if ty == "response.completed"@ || ty == "response.incomplete"@ {
        let resp = null_or(data.field("response"@));
        seq![
            EventV::MessageDelta {
                stop_reason: Some(finished_reason(ty == "response.incomplete"@, resp)),
                usage: match resp.field("usage"@) {
                    Some(u) => Some(responses_usage(u)),
                    None => None,
                },
            },
            EventV::MessageStop,
        ]
    } else if ty == "response.failed"@ {
        seq![
            EventV::Error {
                message: match null_or(null_or(data.field("response"@)).field("error"@)).field_str("message"@) {
                    Some(m) => m,
                    None => "response failed"@,
                },
            },
        ]
    } else {
        Seq::empty()
    }
}

/// Decoding one Responses chunk; a chunk that is not JSON gives nothing.
pub open spec fn responses_decode(data: BodyV, raw: Seq<char>) -> Seq<EventV> {
    match chunk_value(data, raw) {
        Some(v) => responses_events(v),
        None => Seq::empty(),
    }
}

fn push_event(out: &mut Vec<CoreStreamEvent>, e: CoreStreamEvent)
    ensures
        events_view(final(out)@) == events_view(old(out)@).push(event_view(e)),
{
    let ghost before = out@;
    out.push(e);
    proof {
        lemma_events_push(before, e);
    }
}

fn output_index_of(data: &Json) -> (r: usize)
    ensures
        r == output_index(data@),
{
    match data.get_u64("output_index") {
        Some(n) => n as usize,
        None => 0,
    }
}

fn texts_of(item: &Json, key: &str) -> (r: String)
    ensures
        r@ == texts_at(item@, key@),
{
    let mut out = String::new();
    if let Some(a) = item.get(key) {
        if let Some(xs) = a.as_array() {
            proof {
                lemma_items_view(xs@);
            }
            let ghost xv = items_view(xs@);
            let mut k: usize = 0;
            while k < xs.len()
                invariant
                    k <= xs@.len() == xv.len(),
                    xv == items_view(xs@),
                    forall|j: int| 0 <= j < xs@.len() ==> #[trigger] xv[j] == json_view(xs@[j]),
                    out@ == texts(xv.take(k as int)),
                decreases xs@.len() - k,
            {
                proof {
                    assert(xv.take(k + 1).drop_last() == xv.take(k as int));
                    assert(xv.take(k + 1).last() == xv[k as int]);
                }
                match xs[k].get_str("text") {
                    Some(t) => {
                        out = concat_str(out.as_str(), t);
                    },
                    None => {
                        proof {
                            assert(out@ + Seq::<char>::empty() == out@);
                        }
                    },
                }
                k = k + 1;
            }
            proof {
                assert(xv.take(xv.len() as int) == xv);
            }
        }
    }
    out
}

fn added_block_of(item: Option<&Json>) -> (r: ContentBlock)
    ensures
        block_view(r) == added_block(null_or(match item {
            Some(i) => Some(i@),
            None => None,
        })),
{
    let null = Json::Null;
    let it: &Json = match item {
        Some(i) => i,
        None => &null,
    };
    match it.get_str("type") {
        Some(t) => {
            if str_eq(t, "function_call") {
                return ContentBlock::ToolUse {
                    id: str_field(it, "call_id"),
                    name: str_field(it, "name"),
                    namespace: None,
                    input: Json::Object(Vec::new()),
                    signature: None,
                };
            } else if str_eq(t, "reasoning") {
                return ContentBlock::Reasoning { text: String::new(), signature: None, redacted: false };
            }
        },
        None => {},
    }
    proof {
        assert(crate::json::fields_view(Seq::<(String, Json)>::empty()) =~= Seq::<(Seq<char>, JsonV)>::empty());
    }
    ContentBlock::Text { text: String::new() }
}

fn done_block_of(item: &Json) -> (r: Option<ContentBlock>)
    ensures
        match r {
            Some(b) => done_block(item@) == Some(block_view(b)),
            None => done_block(item@) is None,
        },
{
    proof {
        assert(crate::json::fields_view(Seq::<(String, Json)>::empty()) =~= Seq::<(Seq<char>, JsonV)>::empty());
    }
    match item.get_str("type") {
        Some(t) => {
            if str_eq(t, "reasoning") {
                let a = texts_of(item, "summary");
                let b = texts_of(item, "content");
                let text = concat_str(a.as_str(), b.as_str());
                let enc = match item.get_str("encrypted_content") {
                    Some(e) => Some(e.to_string()),
                    None => None,
                };
                let signature = tag_signature(SIG_OPENAI, enc);
                proof {
                    reveal_strlit("oai:");
                    assert(SIG_OPENAI@ == "oai:"@);
                }
                if text.unicode_len() > 0 || signature.is_some() {
                    Some(ContentBlock::Reasoning { text, signature, redacted: false })
                } else {
                    None
                }
            } else if str_eq(t, "function_call") {
                let input = match item.get_str("arguments") {
                    Some(a) => match parse_json(a) {
                        Some(v) => v,
                        None => Json::Object(Vec::new()),
                    },
                    None => Json::Object(Vec::new()),
                };
                let id = match item.get("call_id") {
                    Some(v) => match v.as_str() {
                        Some(s) => s.to_string(),
                        None => String::new(),
                    },
                    None => str_field(item, "id"),
                };
                Some(ContentBlock::ToolUse { id, name: str_field(item, "name"), namespace: None, input, signature: None })
            } else if str_eq(t, "message") {
                Some(ContentBlock::Text { text: texts_of(item, "content") })
            } else {
                None
            }
        },
        None => None,
    }
}

impl OpenAiResponsesAdapter {
    /// Decodes one upstream Responses SSE chunk into core events (see
    /// [`responses_decode`]); the decoding state is not used.
    pub fn decode(&self, _ctx: &ReqCtx, _st: &mut StreamDecodeState, chunk: &RawChunk) -> (r: Vec<CoreStreamEvent>)
        ensures
            events_view(r@) == responses_decode(body_view(chunk.data), chunk.raw@),
            final(_st).dv() == old(_st).dv(),
    {
        let mut out: Vec<CoreStreamEvent> = Vec::new();
        proof {
            assert(events_view(out@) =~= Seq::<EventV>::empty());
        }
        let data = match chunk_json(chunk) {
            Some(d) => d,
            None => {
                return out;
            },
        };
        let ty = str_field(&data, "type");
        let i = output_index_of(&data);
        let t = ty.as_str();
        if str_eq(t, "response.created") {
            let null = Json::Null;
            let resp: &Json = match data.get("response") {
                Some(r) => r,
                None => &null,
            };
            push_event(&mut out, CoreStreamEvent::MessageStart { id: str_field(resp, "id"), model: str_field(resp, "model") });
        } else if str_eq(t, "response.output_item.added") {
            push_event(&mut out, CoreStreamEvent::BlockStart { index: i, block: added_block_of(data.get("item")) });
        } else if str_eq(t, "response.reasoning_summary_text.delta") || str_eq(t, "response.reasoning_text.delta") {
            let text = str_field(&data, "delta");
            if text.unicode_len() > 0 {
                push_event(&mut out, CoreStreamEvent::BlockDelta { index: i, delta: StreamDelta::Reasoning { text } });
            }
        } else if str_eq(t, "response.output_text.delta") {
            push_event(&mut out, CoreStreamEvent::BlockDelta { index: i, delta: StreamDelta::Text { text: str_field(&data, "delta") } });
        } else if str_eq(t, "response.function_call_arguments.delta") {
            push_event(
                &mut out,
                CoreStreamEvent::BlockDelta { index: i, delta: StreamDelta::ToolInput { partial_json: str_field(&data, "delta") } },
            );
        } else if str_eq(t, "response.output_item.done") {
            let null = Json::Null;
            let item: &Json = match data.get("item") {
                Some(it) => it,
                None => &null,
            };
            let block = done_block_of(item);
            if let Some(ContentBlock::Reasoning { signature: Some(sig), .. }) = &block {
                push_event(&mut out, CoreStreamEvent::BlockDelta { index: i, delta: StreamDelta::ReasoningSignature { signature: sig.clone() } });
            }
            push_event(&mut out, CoreStreamEvent::BlockStop { index: i, block });
        } else if str_eq(t, "response.completed") || str_eq(t, "response.incomplete") {
            let null = Json::Null;
            let resp: &Json = match data.get("response") {
                Some(r) => r,
                None => &null,
            };
            let usage = match resp.get("usage") {
                Some(u) => Some(usage_from_value(u)),
                None => None,
            };
            let reason = if str_eq(t, "response.incomplete") {
                let r = match resp.get("incomplete_details") {
                    Some(d) => d.get_str("reason"),
                    None => None,
                };
                match r {
                    Some(x) => if str_eq(x, "max_output_tokens") {
                        StopReason::MaxTokens
                    } else if str_eq(x, "content_filter") {
                        StopReason::ContentFilter
                    } else {
                        StopReason::EndTurn
                    },
                    None => StopReason::EndTurn,
                }
            } else {
                StopReason::EndTurn
            };
            push_event(&mut out, CoreStreamEvent::MessageDelta { stop_reason: Some(reason), usage });
            push_event(&mut out, CoreStreamEvent::MessageStop);
        } else if str_eq(t, "response.failed") {
            let m = match data.get("response") {
                Some(r) => match r.get("error") {
                    Some(e) => e.get_str("message"),
                    None => None,
                },
                None => None,
            };
            let message = match m {
                Some(x) => x.to_string(),
                None => "response failed".to_string(),
            };
            push_event(&mut out, CoreStreamEvent::Error { message });
        }
        proof {
            assert(events_view(out@) =~= responses_decode(body_view(chunk.data), chunk.raw@));
        }
        out
    }
}


// ---- encoding for a client ----

/// The item id of block `i`: `msg_` and the index.
pub open spec fn item_id(i: usize) -> Seq<char> {
    "msg_"@ + dec(i as nat)
}

/// A Responses SSE chunk for a client.
pub open spec fn sse_chunk(event: Seq<char>, v: JsonV) -> ChunkV {
    ChunkV {
        stage: ChunkStage::ClientChunk,
        protocol: Protocol::OpenAiResponse,
        provider: None,
        event: Some(event),
        data: BodyV::Json(v),
        raw: json_text(v),
    }
}

/// An event's data: its type, then the given members.
pub open spec fn typed(t: Seq<char>, rest: Seq<(Seq<char>, JsonV)>) -> JsonV {
    JsonV::Object(seq![("type"@, JsonV::Str(t))] + rest)
}

/// A chunk whose event name is also its data's type.
pub open spec fn ev_chunk(t: Seq<char>, rest: Seq<(Seq<char>, JsonV)>) -> ChunkV {
    sse_chunk(t, typed(t, rest))
}

pub open spec fn idx_value(i: usize) -> JsonV {
    JsonV::PosInt(i as u64)
}

/// An `output_text` part.
pub open spec fn text_part_value(text: Seq<char>) -> JsonV {
    typed("output_text"@, seq![("text"@, JsonV::Str(text)), ("annotations"@, JsonV::Array(Seq::empty()))])
}

/// A reasoning item with one summary text, and its encrypted content as
/// handed to an OpenAI client when that is not empty.
pub open spec fn reasoning_item_value(i: usize, text: Seq<char>, signature: Option<Seq<char>>) -> JsonV {
    let item = typed(
        "reasoning"@,
        seq![
            ("id"@, JsonV::Str(item_id(i))),
            ("summary"@, JsonV::Array(seq![typed("summary_text"@, seq![("text"@, JsonV::Str(text))])])),
        ],
    );
    match signature {
        Some(s) => if emit_spec("oai:"@, s).len() > 0 {
            with_field(item, "encrypted_content"@, JsonV::Str(emit_spec("oai:"@, s)))
        } else {
            item
        },
        None => item,
    }
}

/// The argument text a tool use block stands for when no argument text was
/// streamed: nothing for an empty object, else the input's JSON text.
pub open spec fn default_args(input: JsonV) -> Seq<char> {
    match input {
        JsonV::Object(fs) => if fs.len() == 0 {
            Seq::empty()
        } else {
            json_text(input)
        },
        _ => json_text(input),
    }
}

/// The payload streamed for block `i` (empty when none).
pub open spec fn acc_of(st: EncodeV, i: usize) -> Seq<char> {
    match map_get(st.deltas, i) {
        Some(a) => a,
        None => Seq::empty(),
    }
}

/// The final output item of block `i`, from its starting block and what was
/// streamed into it; none for a block of another kind.
pub open spec fn assembled_item(st: EncodeV, i: usize, b: BlockV) -> Option<JsonV> {
    let acc = acc_of(st, i);
    match b {
        BlockV::Reasoning { text, signature, redacted: _ } => Some(
            reasoning_item_value(i, if acc.len() == 0 { text } else { acc }, signature),
        ),
        BlockV::ToolUse { id, name, namespace: _, input, signature: _ } => Some(
            function_call_item_value(id, name, if acc.len() == 0 { default_args(input) } else { acc }, "completed"@),
        ),
        BlockV::Text { text } => Some(message_item_value(item_id(i), if acc.len() == 0 { text } else { acc }, "completed"@)),
        _ => None,
    }
}

/// Every key of a set in increasing order.
pub open spec fn sorted_keys(dom: Set<usize>) -> Seq<usize> {
    choose|s: Seq<usize>| sorted_by(s, index_leq()) && s.no_duplicates() && s.to_set() == dom
}

/// The items of the given blocks, in order.
pub open spec fn items_of(st: EncodeV, idxs: Seq<usize>) -> Seq<JsonV>
    decreases idxs.len(),
{
    if idxs.len() == 0 {
        Seq::empty()
    } else {
        items_of(st, idxs.drop_last()) + match assembled_item(st, idxs.last(), st.blocks[idxs.last()]) {
            Some(v) => seq![v],
            None => Seq::empty(),
        }
    }
}

/// The final `response.output`: the items of the started blocks in index
/// order.
pub open spec fn assembled_output(st: EncodeV) -> Seq<JsonV> {
    items_of(st, sorted_keys(st.blocks.dom()))
}

/// The block a signature delta leaves: a started reasoning block takes the
/// signature; anything else is unchanged.
pub open spec fn signed(st: EncodeV, i: usize, sig: Seq<char>) -> EncodeV {
    match map_get(st.blocks, i) {
        Some(BlockV::Reasoning { text, signature: _, redacted }) => EncodeV {
            blocks: st.blocks.insert(i, BlockV::Reasoning { text, signature: Some(sig), redacted }),
            ..st
        },
        _ => st,
    }
}

/// `text` appended to the payload of block `i`.
pub open spec fn pushed(st: EncodeV, i: usize, text: Seq<char>) -> EncodeV {
    EncodeV { deltas: st.deltas.insert(i, acc_of(st, i) + text), ..st }
}

/// The closing chunks of block `i`, by the kind of block it resolves to.
pub open spec fn stop_chunks(st: EncodeV, i: usize, resolved: Option<BlockV>) -> Seq<ChunkV> {
    match resolved {
        Some(BlockV::Reasoning { text, signature, redacted: _ }) => seq![
            ev_chunk("response.output_item.done"@, seq![("output_index"@, idx_value(i)), ("item"@, reasoning_item_value(i, text, signature))]),
        ],
        Some(BlockV::ToolUse { id, name, namespace: _, input, signature: _ }) => {
            let args = if acc_of(st, i).len() > 0 {
                acc_of(st, i)
            } else {
                default_args(input)
            };
            seq![
                ev_chunk(
                    "response.function_call_arguments.done"@,
                    seq![
                        ("item_id"@, JsonV::Str(item_id(i))),
                        ("output_index"@, idx_value(i)),
                        ("name"@, JsonV::Str(name)),
                        ("arguments"@, JsonV::Str(args)),
                    ],
                ),
                ev_chunk(
                    "response.output_item.done"@,
                    seq![("output_index"@, idx_value(i)), ("item"@, function_call_item_value(id, name, args, "completed"@))],
                ),
            ]
        },
        _ => {
            let text = acc_of(st, i);
            seq![
                ev_chunk(
                    "response.output_text.done"@,
                    seq![
                        ("item_id"@, JsonV::Str(item_id(i))),
                        ("output_index"@, idx_value(i)),
                        ("content_index"@, JsonV::PosInt(0)),
                        ("text"@, JsonV::Str(text)),
                    ],
                ),
                ev_chunk(
                    "response.content_part.done"@,
                    seq![
                        ("item_id"@, JsonV::Str(item_id(i))),
                        ("output_index"@, idx_value(i)),
                        ("content_index"@, JsonV::PosInt(0)),
                        ("part"@, text_part_value(text)),
                    ],
                ),
                ev_chunk(
                    "response.output_item.done"@,
                    seq![("output_index"@, idx_value(i)), ("item"@, message_item_value(item_id(i), text, "completed"@))],
                ),
            ]
        },
    }
}

/// The terminal event of a stop: truncation (output limit or content filter)
/// ends the response as incomplete with the reason; anything else completes
/// it.
pub open spec fn terminal(r: StopReason) -> (Seq<char>, Seq<char>, Option<Seq<char>>) {
    match r {
        StopReason::MaxTokens => ("response.incomplete"@, "incomplete"@, Some("max_output_tokens"@)),
        StopReason::ContentFilter => ("response.incomplete"@, "incomplete"@, Some("content_filter"@)),
        _ => ("response.completed"@, "completed"@, None),
    }
}

/// The final response object: the skeleton with the merged usage (`null`
/// before any was seen), the assembled output, and the incomplete details.
pub open spec fn final_response(st: EncodeV, model: Seq<char>, r: StopReason) -> JsonV {
    let (_, status, detail) = terminal(r);
    let u = if st.usage == zero_usage() {
        JsonV::Null
    } else {
        usage_value(st.usage.input_tokens, st.usage.output_tokens)
    };
    let resp = with_field(
        with_field(skeleton(st.message_id, model, status), "usage"@, u),
        "output"@,
        JsonV::Array(assembled_output(st)),
    );
    match detail {
        Some(d) => with_field(resp, "incomplete_details"@, JsonV::Object(seq![("reason"@, JsonV::Str(d))])),
        None => resp,
    }
}

/// Encoding one core event for a Responses client.
pub open spec fn responses_encode(st: EncodeV, ctx: ReqCtx, e: EventV) -> (EncodeV, Seq<ChunkV>) {
    match e {
        EventV::MessageStart { id, model } => (
            EncodeV { message_id: id, ..st },
            seq![
                ev_chunk("response.created"@, seq![("response"@, skeleton(id, model, "in_progress"@))]),
                ev_chunk("response.in_progress"@, seq![("response"@, skeleton(id, model, "in_progress"@))]),
            ],
        ),
        EventV::BlockStart { index, block } => {
            let s1 = EncodeV { blocks: st.blocks.insert(index, block), ..st };
            (
                s1,
                match block {
                    BlockV::ToolUse { id, name, .. } => seq![
                        ev_chunk(
                            "response.output_item.added"@,
                            seq![("output_index"@, idx_value(index)), ("item"@, function_call_item_value(id, name, Seq::empty(), "in_progress"@))],
                        ),
                    ],
                    BlockV::Reasoning { .. } => seq![
                        ev_chunk(
                            "response.output_item.added"@,
                            seq![
                                ("output_index"@, idx_value(index)),
                                ("item"@, typed(
                                    "reasoning"@,
                                    seq![("id"@, JsonV::Str(item_id(index))), ("summary"@, JsonV::Array(Seq::empty()))],
                                )),
                            ],
                        ),
                    ],
                    _ => seq![
                        ev_chunk(
                            "response.output_item.added"@,
                            seq![("output_index"@, idx_value(index)), ("item"@, message_item_value(item_id(index), Seq::empty(), "in_progress"@))],
                        ),
                        ev_chunk(
                            "response.content_part.added"@,
                            seq![
                                ("item_id"@, JsonV::Str(item_id(index))),
                                ("output_index"@, idx_value(index)),
                                ("content_index"@, JsonV::PosInt(0)),
                                ("part"@, text_part_value(Seq::empty())),
                            ],
                        ),
                    ],
                },
            )
        },
        EventV::BlockDelta { index, delta } => match delta {
            DeltaV::Text { text } => (
                pushed(st, index, text),
                seq![
                    ev_chunk(
                        "response.output_text.delta"@,
                        seq![
                            ("item_id"@, JsonV::Str(item_id(index))),
                            ("output_index"@, idx_value(index)),
                            ("content_index"@, JsonV::PosInt(0)),
                            ("delta"@, JsonV::Str(text)),
                        ],
                    ),
                ],
            ),
            DeltaV::ToolInput { partial_json } => (
                pushed(st, index, partial_json),
                seq![
                    ev_chunk(
                        "response.function_call_arguments.delta"@,
                        seq![
                            ("item_id"@, JsonV::Str(item_id(index))),
                            ("output_index"@, idx_value(index)),
                            ("delta"@, JsonV::Str(partial_json)),
                        ],
                    ),
                ],
            ),
            DeltaV::Reasoning { text } => (
                pushed(st, index, text),
                seq![
                    ev_chunk(
                        "response.reasoning_summary_text.delta"@,
                        seq![
                            ("item_id"@, JsonV::Str(item_id(index))),
                            ("output_index"@, idx_value(index)),
                            ("delta"@, JsonV::Str(text)),
                        ],
                    ),
                ],
            ),
            DeltaV::ReasoningSignature { signature } => (signed(st, index, signature), Seq::empty()),
        },
        EventV::BlockStop { index, block } => (
            st,
            stop_chunks(
                st,
                index,
                match block {
                    Some(b) => Some(b),
                    None => map_get(st.blocks, index),
                },
            ),
        ),
        EventV::MessageDelta { stop_reason, usage } => {
            let s1 = EncodeV { usage: usage_after(st, usage), ..st };
            match stop_reason {
                None => (s1, Seq::empty()),
                Some(r) => {
                    let (ty, _, _) = terminal(r);
                    (s1, seq![ev_chunk(ty, seq![("response"@, final_response(s1, ctx.model_alias@, r))])])
                },
            }
        },
        EventV::MessageStop => (st, Seq::empty()),
        EventV::Error { message } => (
            st,
            seq![
                ev_chunk(
                    "response.failed"@,
                    seq![
                        ("response"@, JsonV::Object(
                            seq![
                                ("status"@, JsonV::Str("failed"@)),
                                ("error"@, JsonV::Object(seq![("message"@, JsonV::Str(message))])),
                            ],
                        )),
                    ],
                ),
            ],
        ),
    }
}

/// What encoding an event needs: the merged usage total of a stop fits a
/// `u32`.
pub open spec fn responses_encode_fits(st: EncodeV, e: EventV) -> bool {
    match e {
        EventV::MessageDelta { stop_reason: Some(_), usage } => usage_after(st, usage).input_tokens + usage_after(
            st,
            usage,
        ).output_tokens <= u32::MAX,
        _ => true,
    }
}

/// How a Responses stream's end decodes. An upstream `response.incomplete`
/// event ends the message with the stop its `incomplete_details.reason` names:
/// a token limit for `max_output_tokens`, a content filter for
/// `content_filter`; a `response.completed` event ends it as an end of turn.
/// Either way exactly a message delta carrying that stop and then the message
/// stop come out.
pub proof fn law_responses_end_reason_decodes(data: BodyV, raw: Seq<char>, v: JsonV, ty: Seq<char>, resp: JsonV)
    requires
        chunk_value(data, raw) == Some(v),
        v.field("type"@) == Some(JsonV::Str(ty)),
        ty == "response.incomplete"@ || ty == "response.completed"@,
        v.field("response"@) == Some(resp),
    ensures
        ({
            let evs = responses_decode(data, raw);
            let reason = match resp.field("incomplete_details"@) {
                Some(d) => d.field("reason"@),
                None => None,
            };
            &&& evs.len() == 2
            &&& evs[1] == EventV::MessageStop
            &&& evs[0] is MessageDelta
            &&& (ty == "response.completed"@ ==> evs[0]->stop_reason == Some(StopReason::EndTurn))
            &&& (ty == "response.incomplete"@ && reason == Some(JsonV::Str("max_output_tokens"@))
                ==> evs[0]->stop_reason == Some(StopReason::MaxTokens))
            &&& (ty == "response.incomplete"@ && reason == Some(JsonV::Str("content_filter"@))
                ==> evs[0]->stop_reason == Some(StopReason::ContentFilter))
        }),
{
    reveal_strlit("response.incomplete");
    reveal_strlit("response.completed");
    reveal_strlit("response.created");
    reveal_strlit("response.output_item.added");
    reveal_strlit("response.reasoning_summary_text.delta");
    reveal_strlit("response.reasoning_text.delta");
    reveal_strlit("response.output_text.delta");
    reveal_strlit("response.function_call_arguments.delta");
    reveal_strlit("response.output_item.done");
    reveal_strlit("max_output_tokens");
    reveal_strlit("content_filter");
    assert("response.incomplete"@.len() == 19 && "response.completed"@.len() == 18);
    assert("response.created"@.len() == 16 && "response.output_item.added"@.len() == 26);
    assert("response.reasoning_summary_text.delta"@.len() == 37 && "response.reasoning_text.delta"@.len() == 29);
    assert("response.output_text.delta"@.len() == 26 && "response.function_call_arguments.delta"@.len() == 38);
    assert("response.output_item.done"@.len() == 25);
    assert("max_output_tokens"@.len() == 17 && "content_filter"@.len() == 14);
    assert(str_or_empty(v, "type"@) == ty);
}

/// The response object a chunk's data carries, if any.
pub open spec fn carried_response(c: ChunkV) -> Option<JsonV> {
    match c.data {
        BodyV::Json(v) => v.field("response"@),
        _ => None,
    }
}

/// Whether a stop leaves the response incomplete.
pub open spec fn stops_incomplete(r: StopReason) -> bool {
    r == StopReason::MaxTokens || r == StopReason::ContentFilter
}

/// How a Responses stream ends. A message delta merges its usage into the
/// running total, field by field the larger. Without a stop reason it emits
/// nothing, so no terminal event appears mid-stream. With one it emits exactly
/// one event: `response.incomplete` for a token-limit or content-filter stop,
/// whose response has status `incomplete` and `incomplete_details.reason`
/// `max_output_tokens` or `content_filter`; `response.completed` for every
/// other stop, whose response has status `completed` and no incomplete
/// details.
pub proof fn law_responses_stop_events(
    st: EncodeV,
    ctx: ReqCtx,
    stop_reason: Option<StopReason>,
    usage: Option<Usage>,
)
    ensures
        ({
            let (s1, out) = responses_encode(st, ctx, EventV::MessageDelta { stop_reason, usage });
            &&& s1.usage == match usage {
                Some(u) => merged_usage(st.usage, u),
                None => st.usage,
            }
            &&& match stop_reason {
                None => out.len() == 0,
                Some(r) => {
                    &&& out.len() == 1
                    &&& out[0].event == Some(
                        if stops_incomplete(r) {
                            "response.incomplete"@
                        } else {
                            "response.completed"@
                        },
                    )
                    &&& carried_response(out[0]) is Some
                    &&& carried_response(out[0])->0.field("status"@) == Some(
                        JsonV::Str(
                            if stops_incomplete(r) {
                                "incomplete"@
                            } else {
                                "completed"@
                            },
                        ),
                    )
                    &&& carried_response(out[0])->0.field("incomplete_details"@) == if r
                        == StopReason::MaxTokens {
                        Some(JsonV::Object(seq![("reason"@, JsonV::Str("max_output_tokens"@))]))
                    } else if r == StopReason::ContentFilter {
                        Some(JsonV::Object(seq![("reason"@, JsonV::Str("content_filter"@))]))
                    } else {
                        None
                    }
                },
            }
        }),
{
    reveal_strlit("type");
    reveal_strlit("response");
    reveal_strlit("status");
    reveal_strlit("incomplete_details");
    reveal_strlit("usage");
    reveal_strlit("output");
    reveal_strlit("id");
    reveal_strlit("object");
    reveal_strlit("created_at");
    reveal_strlit("model");
    assert("type"@.len() == 4 && "response"@.len() == 8 && "status"@.len() == 6);
    assert("incomplete_details"@.len() == 18 && "usage"@.len() == 5 && "output"@.len() == 6);
    assert("id"@.len() == 2 && "object"@.len() == 6 && "created_at"@.len() == 10 && "model"@.len() == 5);
    assert("status"@[0] != "output"@[0] && "status"@[0] != "object"@[0]);
    let s1 = EncodeV { usage: usage_after(st, usage), ..st };
    if let Some(r) = stop_reason {
        let (ty, status, detail) = terminal(r);
        let resp = final_response(s1, ctx.model_alias@, r);
        let d = typed(ty, seq![("response"@, resp)]);
        let dfs = seq![("type"@, JsonV::Str(ty))] + seq![("response"@, resp)];
        assert(dfs[0].0 == "type"@);
        assert(dfs.drop_first() =~= seq![("response"@, resp)]);
        assert(dfs.drop_first()[0].0 == "response"@);
        assert(find_field(dfs.drop_first(), "response"@) == Some(resp));
        assert("type"@ != "response"@);
        assert(find_field(dfs, "response"@) == Some(resp));
        assert(d.field("response"@) == Some(resp));
        let sk = skeleton(st.message_id, ctx.model_alias@, status);
        let skf = sk->Object_0;
        assert(skf[0].0 == "id"@ && skf[1].0 == "object"@ && skf[2].0 == "created_at"@ && skf[3].0 == "status"@);
        assert(skf.drop_first().drop_first().drop_first()[0] == skf[3]);
        assert(find_field(skf, "status"@) == Some(JsonV::Str(status))) by {
            let t1 = skf.drop_first();
            let t2 = t1.drop_first();
            let t3 = t2.drop_first();
            assert(t3[0] == ("status"@, JsonV::Str(status)));
            assert(find_field(t3, "status"@) == Some(JsonV::Str(status)));
            assert(t2[0].0 == "created_at"@ && "created_at"@ != "status"@);
            assert(find_field(t2, "status"@) == find_field(t3, "status"@));
            assert(t1[0].0 == "object"@ && "object"@ != "status"@);
            assert(find_field(t1, "status"@) == find_field(t2, "status"@));
            assert(skf[0].0 == "id"@ && "id"@ != "status"@);
            assert(find_field(skf, "status"@) == find_field(t1, "status"@));
        }
        assert(find_field(skf, "incomplete_details"@) is None) by {
            let t1 = skf.drop_first();
            let t2 = t1.drop_first();
            let t3 = t2.drop_first();
            let t4 = t3.drop_first();
            let t5 = t4.drop_first();
            let t6 = t5.drop_first();
            let t7 = t6.drop_first();
            assert(t7.len() == 0);
            let k = "incomplete_details"@;
            assert(find_field(t7, k) is None);
            assert(t6[0].0 == "usage"@ && "usage"@ != k);
            assert(find_field(t6, k) == find_field(t7, k));
            assert(t5[0].0 == "output"@ && "output"@ != k);
            assert(find_field(t5, k) == find_field(t6, k));
            assert(t4[0].0 == "model"@ && "model"@ != k);
            assert(find_field(t4, k) == find_field(t5, k));
            assert(t3[0].0 == "status"@ && "status"@ != k);
            assert(find_field(t3, k) == find_field(t4, k));
            assert(t2[0].0 == "created_at"@ && "created_at"@ != k);
            assert(find_field(t2, k) == find_field(t3, k));
            assert(t1[0].0 == "object"@ && "object"@ != k);
            assert(find_field(t1, k) == find_field(t2, k));
            assert(skf[0].0 == "id"@ && "id"@ != k);
            assert(find_field(skf, k) == find_field(t1, k));
        }
        let u = if s1.usage == zero_usage() {
            JsonV::Null
        } else {
            usage_value(s1.usage.input_tokens, s1.usage.output_tokens)
        };
        let w1 = with_field(sk, "usage"@, u);
        crate::json::lemma_find_set_field(skf, "usage"@, u, "status"@);
        crate::json::lemma_find_set_field(skf, "usage"@, u, "incomplete_details"@);
        let w2 = with_field(w1, "output"@, JsonV::Array(assembled_output(s1)));
        crate::json::lemma_find_set_field(w1->Object_0, "output"@, JsonV::Array(assembled_output(s1)), "status"@);
        crate::json::lemma_find_set_field(
            w1->Object_0,
            "output"@,
            JsonV::Array(assembled_output(s1)),
            "incomplete_details"@,
        );
        if let Some(dd) = detail {
            let dv = JsonV::Object(seq![("reason"@, JsonV::Str(dd))]);
            crate::json::lemma_find_set_field(w2->Object_0, "incomplete_details"@, dv, "status"@);
            crate::json::lemma_find_set_field(w2->Object_0, "incomplete_details"@, dv, "incomplete_details"@);
        }
    }
}

proof fn lemma_sorted_keys_unique(s: Seq<usize>, dom: Set<usize>)
    requires
        sorted_by(s, index_leq()),
        s.no_duplicates(),
        s.to_set() == dom,
    ensures
        sorted_keys(dom) == s,
{
    broadcast use vstd::seq_lib::group_to_multiset_ensures;
    let t = sorted_keys(dom);
    assert(sorted_by(t, index_leq()) && t.no_duplicates() && t.to_set() == dom);
    s.lemma_multiset_has_no_duplicates();
    t.lemma_multiset_has_no_duplicates();
    s.to_multiset_ensures();
    t.to_multiset_ensures();
    assert forall|x: usize| s.to_multiset().count(x) == t.to_multiset().count(x) by {
        assert(s.to_set().contains(x) <==> s.contains(x));
        assert(t.to_set().contains(x) <==> t.contains(x));
        if s.contains(x) {
            assert(t.contains(x));
        } else {
            assert(!t.contains(x));
        }
    }
    assert(s.to_multiset() =~= t.to_multiset());
    lemma_index_leq_total();
    vstd::seq_lib::lemma_sorted_unique(s, t, index_leq());
}

fn block_keys_sorted(st: &StreamEncodeState) -> (r: Vec<usize>)
    ensures
        r@ == sorted_keys(st.ev().blocks.dom()),
        r@.to_set() == st.ev().blocks.dom(),
{
    broadcast use vstd::seq_lib::group_to_multiset_ensures;
    let keys = st.blocks.key_list();
    let sorted = sorted_indexes(&keys);
    proof {
        lemma_index_leq_total();
        keys@.lemma_sort_by_ensures(index_leq());
        let s = sorted@;
        keys@.lemma_multiset_has_no_duplicates();
        keys@.to_multiset_ensures();
        s.to_multiset_ensures();
        assert forall|x: usize| s.to_multiset().contains(x) implies s.to_multiset().count(x) == 1 by {
            assert(keys@.to_multiset().contains(x));
        }
        s.lemma_multiset_has_no_duplicates_conv();
        assert(s.to_set() =~= st.ev().blocks.dom()) by {
            assert forall|x: usize| s.to_set().contains(x) <==> st.ev().blocks.dom().contains(x) by {
                assert(s.contains(x) <==> s.to_multiset().count(x) > 0);
                assert(keys@.contains(x) <==> keys@.to_multiset().count(x) > 0);
            }
        }
        lemma_sorted_keys_unique(s, st.ev().blocks.dom());
    }
    sorted
}


fn item_id_of(i: usize) -> (r: String)
    ensures
        r@ == item_id(i),
{
    concat_str("msg_", u64_to_dec(i as u64).as_str())
}

fn new_fields() -> (r: Vec<(String, Json)>)
    ensures
        fields_view(r@) == Seq::<(Seq<char>, JsonV)>::empty(),
{
    let r: Vec<(String, Json)> = Vec::new();
    proof {
        assert(fields_view(r@) =~= Seq::<(Seq<char>, JsonV)>::empty());
    }
    r
}

fn typed_of(t: &str, rest: Vec<(String, Json)>) -> (r: Json)
    ensures
        r@ == typed(t@, fields_view(rest@)),
{
    let mut fs = new_fields();
    push_field(&mut fs, "type", Json::Str(t.to_string()));
    let ghost head = fs@;
    let mut rest = rest;
    let ghost tail = rest@;
    fs.append(&mut rest);
    proof {
        lemma_fields_view(fs@);
        lemma_fields_view(tail);
        lemma_fields_view(head);
        assert(fs@ == head + tail);
        assert(fields_view(fs@) =~= seq![("type"@, JsonV::Str(t@))] + fields_view(tail));
    }
    jobject(fs)
}

fn ev_of(t: &str, rest: Vec<(String, Json)>) -> (r: RawChunk)
    ensures
        chunk_view(r) == ev_chunk(t@, fields_view(rest@)),
{
    RawChunk::json(ChunkStage::ClientChunk, Protocol::OpenAiResponse, Some(t.to_string()), typed_of(t, rest))
}

fn push_chunk(out: &mut Vec<RawChunk>, c: RawChunk)
    ensures
        chunks_view(final(out)@) == chunks_view(old(out)@).push(chunk_view(c)),
{
    let ghost before = out@;
    out.push(c);
    proof {
        lemma_chunks_push(before, c);
    }
}

fn idx_json(i: usize) -> (r: Json)
    ensures
        r@ == idx_value(i),
{
    Json::Num(JsonNum::PosInt(i as u64))
}

fn text_part_json(text: &String) -> (r: Json)
    ensures
        r@ == text_part_value(text@),
{
    let mut fs = new_fields();
    push_field(&mut fs, "text", Json::Str(text.clone()));
    let none: Vec<Json> = Vec::new();
    proof {
        assert(items_view(none@) =~= Seq::<JsonV>::empty());
    }
    push_field(&mut fs, "annotations", Json::Array(none));
    proof {
        assert(fields_view(fs@) =~= seq![("text"@, JsonV::Str(text@)), ("annotations"@, JsonV::Array(Seq::empty()))]);
    }
    typed_of("output_text", fs)
}

fn reasoning_item_json(i: usize, text: &String, signature: &Option<String>) -> (r: Json)
    ensures
        r@ == reasoning_item_value(i, text@, match *signature {
            Some(s) => Some(s@),
            None => None,
        }),
{
    let mut st = new_fields();
    push_field(&mut st, "text", Json::Str(text.clone()));
    let summary = typed_of("summary_text", st);
    let mut arr: Vec<Json> = Vec::new();
    arr.push(summary);
    proof {
        lemma_items_view(arr@);
        assert(items_view(arr@) =~= seq![summary@]);
    }
    let mut fs = new_fields();
    push_field(&mut fs, "id", Json::Str(item_id_of(i)));
    push_field(&mut fs, "summary", Json::Array(arr));
    proof {
        assert(fields_view(fs@) =~= seq![
            ("id"@, JsonV::Str(item_id(i))),
            ("summary"@, JsonV::Array(seq![typed("summary_text"@, seq![("text"@, JsonV::Str(text@))])])),
        ]);
    }
    let item = typed_of("reasoning", fs);
    proof {
        reveal_strlit("oai:");
        assert(SIG_OPENAI@ == "oai:"@);
    }
    match signature {
        Some(s) => {
            let enc = emit_signature(SIG_OPENAI, s.as_str());
            if enc.unicode_len() > 0 {
                with_member(item, "encrypted_content".to_string(), Json::Str(enc))
            } else {
                item
            }
        },
        None => item,
    }
}

fn default_args_of(input: &Json) -> (r: String)
    ensures
        r@ == default_args(input@),
{
    match input {
        Json::Object(fs) => {
            proof {
                lemma_fields_view(fs@);
            }
            if fs.len() == 0 {
                String::new()
            } else {
                json_to_string(input)
            }
        },
        _ => json_to_string(input),
    }
}

fn acc_text(st: &StreamEncodeState, i: usize) -> (r: String)
    ensures
        r@ == acc_of(st.ev(), i),
{
    match st.delta_acc.get(i) {
        Some(a) => a.clone(),
        None => String::new(),
    }
}

fn assembled_item_of(st: &StreamEncodeState, i: usize, b: &ContentBlock) -> (r: Option<Json>)
    ensures
        match r {
            Some(v) => assembled_item(st.ev(), i, block_view(*b)) == Some(v@),
            None => assembled_item(st.ev(), i, block_view(*b)) is None,
        },
{
    let acc = acc_text(st, i);
    match b {
        ContentBlock::Reasoning { text, signature, .. } => {
            let t = if acc.unicode_len() == 0 {
                text.clone()
            } else {
                acc
            };
            Some(reasoning_item_json(i, &t, signature))
        },
        ContentBlock::ToolUse { id, name, input, .. } => {
            let args = if acc.unicode_len() == 0 {
                default_args_of(input)
            } else {
                acc
            };
            Some(function_call_item(id.as_str(), name.as_str(), args.as_str(), "completed"))
        },
        ContentBlock::Text { text } => {
            let t = if acc.unicode_len() == 0 {
                text.clone()
            } else {
                acc
            };
            Some(message_item(item_id_of(i).as_str(), t.as_str(), "completed"))
        },
        _ => None,
    }
}

fn assembled_output_of(st: &StreamEncodeState) -> (r: Vec<Json>)
    ensures
        items_view(r@) == assembled_output(st.ev()),
{
    let keys = block_keys_sorted(st);
    let ghost ks = keys@;
    let mut out: Vec<Json> = Vec::new();
    let mut k: usize = 0;
    proof {
        assert(items_view(out@) =~= Seq::<JsonV>::empty());
        assert(ks.take(0) =~= Seq::<usize>::empty());
    }
    while k < keys.len()
        invariant
            k <= ks.len(),
            ks == keys@,
            ks == sorted_keys(st.ev().blocks.dom()),
            ks.to_set() == st.ev().blocks.dom(),
            items_view(out@) == items_of(st.ev(), ks.take(k as int)),
        decreases ks.len() - k,
    {
        let i = keys[k];
        proof {
            assert(ks.take(k + 1).drop_last() == ks.take(k as int));
            assert(ks.take(k + 1).last() == i);
            assert(ks.contains(i));
            assert(ks.to_set().contains(i));
        }
        let ghost before = out@;
        match st.blocks.get(i) {
            Some(b) => {
                match assembled_item_of(st, i, b) {
                    Some(v) => {
                        out.push(v);
                        proof {
                            lemma_items_view(before);
                            lemma_items_view(out@);
                            assert(items_view(out@) =~= items_view(before).push(v@));
                        }
                    },
                    None => {
                        proof {
                            assert(items_view(out@) + Seq::<JsonV>::empty() == items_view(out@));
                        }
                    },
                }
            },
            None => {
                proof {
                    assert(false);
                }
            },
        }
        k = k + 1;
    }
    proof {
        assert(ks.take(ks.len() as int) == ks);
    }
    out
}


fn stop_chunks_of(st: &StreamEncodeState, out: &mut Vec<RawChunk>, i: usize, resolved: Option<&ContentBlock>)
    ensures
        chunks_view(final(out)@) == chunks_view(old(out)@) + stop_chunks(st.ev(), i, match resolved {
            Some(b) => Some(block_view(*b)),
            None => None,
        }),
{
    let ghost out0 = chunks_view(out@);
    match resolved {
        Some(ContentBlock::Reasoning { text, signature, .. }) => {
            let mut fs = new_fields();
            push_field(&mut fs, "output_index", idx_json(i));
            push_field(&mut fs, "item", reasoning_item_json(i, text, signature));
            proof {
                assert(event::OUTPUT_ITEM_DONE@ == "response.output_item.done"@);
                assert(fields_view(fs@) =~= seq![("output_index"@, idx_value(i)), ("item"@, reasoning_item_value(i, text@, match *signature {
                    Some(s) => Some(s@),
                    None => None,
                }))]);
            }
            let ghost fv = fields_view(fs@);
            let c = ev_of(event::OUTPUT_ITEM_DONE, fs);
            proof {
                assert(chunk_view(c) == ev_chunk(event::OUTPUT_ITEM_DONE@, fv));
                assert(chunk_view(c) == ev_chunk("response.output_item.done"@, fv));
            }
            push_chunk(out, c);
            proof {
                let rv = match resolved {
                    Some(b) => Some(block_view(*b)),
                    None => None,
                };
                let sig = crate::protocol::ir::opt_view(*signature);
                assert(sig == match *signature {
                    Some(s) => Some(s@),
                    None => None,
                });
                assert(chunks_view(out@).last() == chunk_view(c));
                assert(fv =~= seq![("output_index"@, idx_value(i)), ("item"@, reasoning_item_value(i, text@, sig))]);
                assert(rv == Some(BlockV::Reasoning { text: text@, signature: sig, redacted: rv.unwrap()->Reasoning_redacted }));
                assert(stop_chunks(st.ev(), i, rv) == seq![ev_chunk("response.output_item.done"@, seq![("output_index"@, idx_value(i)), ("item"@, reasoning_item_value(i, text@, sig))])]);
                assert(chunks_view(out@).last() == ev_chunk("response.output_item.done"@, seq![("output_index"@, idx_value(i)), ("item"@, reasoning_item_value(i, text@, sig))]));
                assert(chunks_view(out@) =~= out0 + stop_chunks(st.ev(), i, rv));
            }
        },
        Some(ContentBlock::ToolUse { id, name, input, .. }) => {
            proof {
                let bb = block_view(*resolved.unwrap());
                assert(bb is ToolUse);
                assert(stop_chunks(st.ev(), i, Some(bb)).len() == 2);
            }
            let acc = acc_text(st, i);
            let args = if acc.unicode_len() > 0 {
                acc
            } else {
                default_args_of(input)
            };
            let mut a = new_fields();
            push_field(&mut a, "item_id", Json::Str(item_id_of(i)));
            push_field(&mut a, "output_index", idx_json(i));
            push_field(&mut a, "name", Json::Str(name.clone()));
            push_field(&mut a, "arguments", Json::Str(args.clone()));
            proof {
                assert(fields_view(a@) =~= seq![
                    ("item_id"@, JsonV::Str(item_id(i))),
                    ("output_index"@, idx_value(i)),
                    ("name"@, JsonV::Str(name@)),
                    ("arguments"@, JsonV::Str(args@)),
                ]);
            }
            push_chunk(out, ev_of(event::FUNC_ARGS_DONE, a));
            let mut d = new_fields();
            push_field(&mut d, "output_index", idx_json(i));
            push_field(&mut d, "item", function_call_item(id.as_str(), name.as_str(), args.as_str(), "completed"));
            proof {
                reveal_strlit("completed");
                assert(fields_view(d@) =~= seq![
                    ("output_index"@, idx_value(i)),
                    ("item"@, function_call_item_value(id@, name@, args@, "completed"@)),
                ]);
            }
            push_chunk(out, ev_of(event::OUTPUT_ITEM_DONE, d));
            proof {
                let rv = match resolved {
                    Some(b) => Some(block_view(*b)),
                    None => None,
                };
                assert(chunks_view(out@) =~= out0 + stop_chunks(st.ev(), i, rv));
            }
        },
        _ => {
            proof {
                let rv = match resolved {
                    Some(b) => Some(block_view(*b)),
                    None => None,
                };
                assert(stop_chunks(st.ev(), i, rv).len() == 3);
            }
            let text = acc_text(st, i);
            let mut a = new_fields();
            push_field(&mut a, "item_id", Json::Str(item_id_of(i)));
            push_field(&mut a, "output_index", idx_json(i));
            push_field(&mut a, "content_index", Json::Num(JsonNum::PosInt(0)));
            push_field(&mut a, "text", Json::Str(text.clone()));
            proof {
                assert(fields_view(a@) =~= seq![
                    ("item_id"@, JsonV::Str(item_id(i))),
                    ("output_index"@, idx_value(i)),
                    ("content_index"@, JsonV::PosInt(0)),
                    ("text"@, JsonV::Str(text@)),
                ]);
            }
            push_chunk(out, ev_of(event::TEXT_DONE, a));
            let mut b = new_fields();
            push_field(&mut b, "item_id", Json::Str(item_id_of(i)));
            push_field(&mut b, "output_index", idx_json(i));
            push_field(&mut b, "content_index", Json::Num(JsonNum::PosInt(0)));
            push_field(&mut b, "part", text_part_json(&text));
            proof {
                assert(fields_view(b@) =~= seq![
                    ("item_id"@, JsonV::Str(item_id(i))),
                    ("output_index"@, idx_value(i)),
                    ("content_index"@, JsonV::PosInt(0)),
                    ("part"@, text_part_value(text@)),
                ]);
            }
            push_chunk(out, ev_of(event::CONTENT_PART_DONE, b));
            let mut d = new_fields();
            push_field(&mut d, "output_index", idx_json(i));
            push_field(&mut d, "item", message_item(item_id_of(i).as_str(), text.as_str(), "completed"));
            proof {
                reveal_strlit("completed");
                assert(fields_view(d@) =~= seq![
                    ("output_index"@, idx_value(i)),
                    ("item"@, message_item_value(item_id(i), text@, "completed"@)),
                ]);
            }
            push_chunk(out, ev_of(event::OUTPUT_ITEM_DONE, d));
            proof {
                let rv = match resolved {
                    Some(b) => Some(block_view(*b)),
                    None => None,
                };
                assert(chunks_view(out@) =~= out0 + stop_chunks(st.ev(), i, rv));
            }
        },
    }
    proof {
        let rv = match resolved {
            Some(b) => Some(block_view(*b)),
            None => None,
        };
        assert(chunks_view(out@) == out0 + stop_chunks(st.ev(), i, rv));
    }
}

fn final_response_of(st: &StreamEncodeState, model: &String, r: StopReason) -> (v: Json)
    requires
        st.usage_acc.input_tokens + st.usage_acc.output_tokens <= u32::MAX,
    ensures
        v@ == final_response(st.ev(), model@, r),
{
    let (status, detail): (&str, Option<&str>) = match r {
        StopReason::MaxTokens => ("incomplete", Some("max_output_tokens")),
        StopReason::ContentFilter => ("incomplete", Some("content_filter")),
        _ => ("completed", None),
    };
    let u = if st.usage_acc == Usage::zero() {
        Json::Null
    } else {
        usage_object(st.usage_acc.input_tokens, st.usage_acc.output_tokens)
    };
    let skel = response_skeleton(st.message_id.as_str(), model.as_str(), status);
    let with_usage = with_member(skel, "usage".to_string(), u);
    let output = assembled_output_of(st);
    let resp = with_member(with_usage, "output".to_string(), Json::Array(output));
    match detail {
        Some(d) => with_member(resp, "incomplete_details".to_string(), one1("reason", Json::Str(d.to_string()))),
        None => resp,
    }
}

fn push_ev(out: &mut Vec<RawChunk>, t: &str, fs: Vec<(String, Json)>, Ghost(expect): Ghost<Seq<(Seq<char>, JsonV)>>)
    requires
        fields_view(fs@) == expect,
    ensures
        chunks_view(final(out)@) == chunks_view(old(out)@).push(ev_chunk(t@, expect)),
{
    push_chunk(out, ev_of(t, fs));
}

impl OpenAiResponsesAdapter {
    /// Encodes one core event for a Responses client (see
    /// [`responses_encode`]).
    #[verifier::rlimit(40)]
    pub fn encode(&self, ctx: &ReqCtx, ev: &CoreStreamEvent, st: &mut StreamEncodeState) -> (r: Vec<RawChunk>)
        requires
            responses_encode_fits(old(st).ev(), event_view(*ev)),
        ensures
            final(st).ev() == responses_encode(old(st).ev(), *ctx, event_view(*ev)).0,
            chunks_view(r@) == responses_encode(old(st).ev(), *ctx, event_view(*ev)).1,
    {
        let mut out: Vec<RawChunk> = Vec::new();
        proof {
            assert(chunks_view(out@) =~= Seq::<ChunkV>::empty());
        }
        let ghost s0 = st.ev();
        match ev {
            CoreStreamEvent::MessageStart { id, model } => {
                st.message_id = id.clone();
                let mut a = new_fields();
                push_field(&mut a, "response", response_skeleton(id.as_str(), model.as_str(), "in_progress"));
                let ghost ea = seq![("response"@, skeleton(id@, model@, "in_progress"@))];
                proof {
                    assert(fields_view(a@) =~= ea);
                }
                push_ev(&mut out, event::CREATED, a, Ghost(ea));
                let mut b = new_fields();
                push_field(&mut b, "response", response_skeleton(id.as_str(), model.as_str(), "in_progress"));
                proof {
                    assert(fields_view(b@) =~= ea);
                }
                push_ev(&mut out, event::IN_PROGRESS, b, Ghost(ea));
                proof {
                    assert(chunks_view(out@) =~= responses_encode(s0, *ctx, event_view(*ev)).1);
                }
            },
            CoreStreamEvent::BlockStart { index, block } => {
                st.note_start(*index, block);
                let i = *index;
                match block {
                    ContentBlock::ToolUse { id, name, .. } => {
                        let mut a = new_fields();
                        push_field(&mut a, "output_index", idx_json(i));
                        push_field(&mut a, "item", function_call_item(id.as_str(), name.as_str(), "", "in_progress"));
                        let ghost ea = seq![("output_index"@, idx_value(i)), ("item"@, function_call_item_value(id@, name@, Seq::empty(), "in_progress"@))];
                        proof {
                            assert(""@ =~= Seq::<char>::empty()) by {
                                reveal_strlit("");
                            }
                            assert(fields_view(a@) =~= ea);
                        }
                        push_ev(&mut out, event::OUTPUT_ITEM_ADDED, a, Ghost(ea));
                    },
                    ContentBlock::Reasoning { .. } => {
                        let mut it = new_fields();
                        push_field(&mut it, "id", Json::Str(item_id_of(i)));
                        let none: Vec<Json> = Vec::new();
                        proof {
                            assert(items_view(none@) =~= Seq::<JsonV>::empty());
                        }
                        push_field(&mut it, "summary", Json::Array(none));
                        proof {
                            assert(fields_view(it@) =~= seq![("id"@, JsonV::Str(item_id(i))), ("summary"@, JsonV::Array(Seq::empty()))]);
                        }
                        let mut a = new_fields();
                        push_field(&mut a, "output_index", idx_json(i));
                        push_field(&mut a, "item", typed_of("reasoning", it));
                        let ghost ea = seq![
                            ("output_index"@, idx_value(i)),
                            ("item"@, typed("reasoning"@, seq![("id"@, JsonV::Str(item_id(i))), ("summary"@, JsonV::Array(Seq::empty()))])),
                        ];
                        proof {
                            assert(fields_view(a@) =~= ea);
                        }
                        push_ev(&mut out, event::OUTPUT_ITEM_ADDED, a, Ghost(ea));
                    },
                    _ => {
                        let mut a = new_fields();
                        push_field(&mut a, "output_index", idx_json(i));
                        push_field(&mut a, "item", message_item(item_id_of(i).as_str(), "", "in_progress"));
                        let ghost ea = seq![("output_index"@, idx_value(i)), ("item"@, message_item_value(item_id(i), Seq::empty(), "in_progress"@))];
                        proof {
                            assert(""@ =~= Seq::<char>::empty()) by {
                                reveal_strlit("");
                            }
                            assert(fields_view(a@) =~= ea);
                        }
                        push_ev(&mut out, event::OUTPUT_ITEM_ADDED, a, Ghost(ea));
                        let mut b = new_fields();
                        push_field(&mut b, "item_id", Json::Str(item_id_of(i)));
                        push_field(&mut b, "output_index", idx_json(i));
                        push_field(&mut b, "content_index", Json::Num(JsonNum::PosInt(0)));
                        push_field(&mut b, "part", text_part_json(&String::new()));
                        let ghost eb = seq![
                            ("item_id"@, JsonV::Str(item_id(i))),
                            ("output_index"@, idx_value(i)),
                            ("content_index"@, JsonV::PosInt(0)),
                            ("part"@, text_part_value(Seq::empty())),
                        ];
                        proof {
                            assert(fields_view(b@) =~= eb);
                        }
                        push_ev(&mut out, event::CONTENT_PART_ADDED, b, Ghost(eb));
                    },
                }
                proof {
                    assert(chunks_view(out@) =~= responses_encode(s0, *ctx, event_view(*ev)).1);
                }
            },
            CoreStreamEvent::BlockDelta { index, delta } => {
                let i = *index;
                match delta {
                    StreamDelta::Text { text } => {
                        st.push_delta(i, text.as_str());
                        let mut a = new_fields();
                        push_field(&mut a, "item_id", Json::Str(item_id_of(i)));
                        push_field(&mut a, "output_index", idx_json(i));
                        push_field(&mut a, "content_index", Json::Num(JsonNum::PosInt(0)));
                        push_field(&mut a, "delta", Json::Str(text.clone()));
                        let ghost ea = seq![
                            ("item_id"@, JsonV::Str(item_id(i))),
                            ("output_index"@, idx_value(i)),
                            ("content_index"@, JsonV::PosInt(0)),
                            ("delta"@, JsonV::Str(text@)),
                        ];
                        proof {
                            assert(fields_view(a@) =~= ea);
                        }
                        push_ev(&mut out, event::TEXT_DELTA, a, Ghost(ea));
                    },
                    StreamDelta::ToolInput { partial_json } => {
                        st.push_delta(i, partial_json.as_str());
                        let mut a = new_fields();
                        push_field(&mut a, "item_id", Json::Str(item_id_of(i)));
                        push_field(&mut a, "output_index", idx_json(i));
                        push_field(&mut a, "delta", Json::Str(partial_json.clone()));
                        let ghost ea = seq![
                            ("item_id"@, JsonV::Str(item_id(i))),
                            ("output_index"@, idx_value(i)),
                            ("delta"@, JsonV::Str(partial_json@)),
                        ];
                        proof {
                            assert(fields_view(a@) =~= ea);
                        }
                        push_ev(&mut out, event::FUNC_ARGS_DELTA, a, Ghost(ea));
                    },
                    StreamDelta::Reasoning { text } => {
                        st.push_delta(i, text.as_str());
                        let mut a = new_fields();
                        push_field(&mut a, "item_id", Json::Str(item_id_of(i)));
                        push_field(&mut a, "output_index", idx_json(i));
                        push_field(&mut a, "delta", Json::Str(text.clone()));
                        let ghost ea = seq![
                            ("item_id"@, JsonV::Str(item_id(i))),
                            ("output_index"@, idx_value(i)),
                            ("delta"@, JsonV::Str(text@)),
                        ];
                        proof {
                            assert(fields_view(a@) =~= ea);
                        }
                        push_ev(&mut out, event::REASONING_SUMMARY_TEXT_DELTA, a, Ghost(ea));
                    },
                    StreamDelta::ReasoningSignature { signature } => {
                        let next = match st.blocks.get(i) {
                            Some(ContentBlock::Reasoning { text, signature: _, redacted }) => Some(
                                ContentBlock::Reasoning { text: text.clone(), signature: Some(signature.clone()), redacted: *redacted },
                            ),
                            _ => None,
                        };
                        if let Some(b) = next {
                            st.blocks.insert(i, b);
                        }
                    },
                }
                proof {
                    assert(acc_of(s0, i) == match map_get(s0.deltas, i) {
                        Some(a) => a,
                        None => Seq::<char>::empty(),
                    });
                    assert(chunks_view(out@) =~= responses_encode(s0, *ctx, event_view(*ev)).1);
                }
            },
            CoreStreamEvent::BlockStop { index, block } => {
                let stored: Option<ContentBlock> = match block {
                    Some(_) => None,
                    None => match st.blocks.get(*index) {
                        Some(b) => Some(b.deep_clone()),
                        None => None,
                    },
                };
                let resolved: Option<&ContentBlock> = match block {
                    Some(b) => Some(b),
                    None => match &stored {
                        Some(b) => Some(b),
                        None => None,
                    },
                };
                stop_chunks_of(st, &mut out, *index, resolved);
                proof {
                    assert(chunks_view(out@) =~= responses_encode(s0, *ctx, event_view(*ev)).1);
                }
            },
            CoreStreamEvent::MessageDelta { stop_reason, usage } => {
                if let Some(u) = usage {
                    st.merge_usage(u);
                }
                if let Some(r) = stop_reason {
                    let ty = match r {
                        StopReason::MaxTokens => event::INCOMPLETE,
                        StopReason::ContentFilter => event::INCOMPLETE,
                        _ => event::COMPLETED,
                    };
                    proof {
                        assert(ty@ == terminal(*r).0);
                    }
                    let resp = final_response_of(st, &ctx.model_alias, *r);
                    let mut a = new_fields();
                    push_field(&mut a, "response", resp);
                    let ghost ea = seq![("response"@, final_response(st.ev(), ctx.model_alias@, *r))];
                    proof {
                        assert(fields_view(a@) =~= ea);
                    }
                    push_ev(&mut out, ty, a, Ghost(ea));
                }
                proof {
                    assert(chunks_view(out@) =~= responses_encode(s0, *ctx, event_view(*ev)).1);
                }
            },
            CoreStreamEvent::MessageStop => {},
            CoreStreamEvent::Error { message } => {
                let mut r = new_fields();
                push_field(&mut r, "status", Json::Str("failed".to_string()));
                push_field(&mut r, "error", one1("message", Json::Str(message.clone())));
                proof {
                    assert(fields_view(r@) =~= seq![
                        ("status"@, JsonV::Str("failed"@)),
                        ("error"@, JsonV::Object(seq![("message"@, JsonV::Str(message@))])),
                    ]);
                }
                let mut a = new_fields();
                push_field(&mut a, "response", jobject(r));
                let ghost ea = seq![
                    ("response"@, JsonV::Object(
                        seq![
                            ("status"@, JsonV::Str("failed"@)),
                            ("error"@, JsonV::Object(seq![("message"@, JsonV::Str(message@))])),
                        ],
                    )),
                ];
                proof {
                    assert(fields_view(a@) =~= ea);
                }
                push_ev(&mut out, event::FAILED, a, Ghost(ea));
                proof {
                    assert(chunks_view(out@) =~= responses_encode(s0, *ctx, event_view(*ev)).1);
                }
            },
        }
        out
    }
}

} // verus!
