//! OpenAI Chat streaming: core stream events → Chat SSE chunks for a client,
//! and upstream Chat SSE chunks → core stream events.
//!
//! A Chat stream has no block boundaries of its own: text and reasoning
//! increments are told apart by their delta field, tool calls by their
//! `index`. Decoding therefore gives each a block index of its own (through
//! named slots of the decoding state), opens the block on its first
//! increment, and closes every open block when the stream finishes, so that
//! a client protocol that needs block boundaries always sees them.
use vstd::prelude::*;
use crate::json::{
    fields_view, items_view, json_parsed, json_text, json_to_string, json_view, lemma_fields_view, lemma_items_view,
    parse_json, with_field, with_member, Json, JsonNum, JsonV,
};
use crate::protocol::adapters::OpenAiChatAdapter;
use crate::protocol::chat::{
    chat_usage, chat_usage_value, finish_reason_name, finish_reason_of, map_finish_reason, str_field, str_or_empty,
    unmap_stop_reason, usage_from_chat, usage_object,
};
use crate::protocol::context::ReqCtx;
use crate::protocol::ir::{
    block_view, clone_opt, events_view, event_view, lemma_events_push, opt_block_view, BlockV, ContentBlock,
    CoreStreamEvent, DeltaV, EventV, StreamDelta,
};
use crate::protocol::ir::{Protocol, StopReason, Usage};
use crate::protocol::raw::{body_view, chunk_view, chunks_view, lemma_chunks_push, BodyV, ChunkStage, ChunkV, RawBody, RawChunk};
use crate::protocol::stream_state::{
    map_get, merged_usage, opened, pushed_text, remove_first, DecodeV, EncodeV, StreamDecodeState, StreamEncodeState,
};
use crate::text::{concat_str, dec, str_eq, trim, trim_str, u64_to_dec};

verus! {

/// `o`'s value, or JSON `null`.
pub open spec fn null_or(o: Option<JsonV>) -> JsonV {
    match o {
        Some(v) => v,
        None => JsonV::Null,
    }
}

/// The JSON a chunk carries: its JSON body, or else its raw `data:` text
/// parsed as JSON.
pub open spec fn chunk_value(data: BodyV, raw: Seq<char>) -> Option<JsonV> {
    match data {
        BodyV::Json(v) => Some(v),
        _ => json_parsed(raw),
    }
}

/// The `[DONE]` end marker (a text body, surrounding whitespace ignored).
pub open spec fn is_done(data: BodyV) -> bool {
    data matches BodyV::Text(t) && trim(t) == "[DONE]"@
}

pub open spec fn empty_reasoning() -> BlockV {
    BlockV::Reasoning { text: Seq::empty(), signature: None, redacted: false }
}

pub open spec fn empty_text() -> BlockV {
    BlockV::Text { text: Seq::empty() }
}

/// The index of slot `key`; a new slot takes the next index.
pub open spec fn slot_of(st: DecodeV, key: Seq<char>) -> (DecodeV, usize, bool) {
    if st.slots.dom().contains(key) {
        (st, st.slots[key], false)
    } else {
        (DecodeV { slots: st.slots.insert(key, st.next), next: (st.next + 1) as usize, ..st }, st.next, true)
    }
}

/// The input of a finished tool call: its argument text parsed as JSON, or
/// `{"_raw": text}` when that is not valid JSON.
pub open spec fn args_input(text: Seq<char>) -> JsonV {
    match json_parsed(text) {
        Some(v) => v,
        None => JsonV::Object(seq![("_raw"@, JsonV::Str(text))]),
    }
}

/// A tool use block with its input replaced; other blocks unchanged.
pub open spec fn with_input(b: BlockV, input: JsonV) -> BlockV {
    match b {
        BlockV::ToolUse { id, name, namespace, input: _, signature } => BlockV::ToolUse {
            id,
            name,
            namespace,
            input,
            signature,
        },
        other => other,
    }
}

/// Whether the block at `i` is a tool use.
pub open spec fn is_tool_block(blocks: Map<usize, BlockV>, i: usize) -> bool {
    blocks.dom().contains(i) && blocks[i] is ToolUse
}

/// Finishing block `i`: its accumulated arguments, if any, are taken out and
/// become the input of the block when it is a tool use.
pub open spec fn finish_block(st: DecodeV, i: usize) -> DecodeV {
    if st.args.dom().contains(i) {
        DecodeV {
            args: st.args.remove(i),
            blocks: if is_tool_block(st.blocks, i) {
                st.blocks.insert(i, with_input(st.blocks[i], args_input(st.args[i])))
            } else {
                st.blocks
            },
            ..st
        }
    } else {
        st
    }
}

/// Finishing the blocks `idxs` in order, each giving a stop event with the
/// finished block.
pub open spec fn close_run(st: DecodeV, idxs: Seq<usize>) -> (DecodeV, Seq<EventV>)
    decreases idxs.len(),
{
    if idxs.len() == 0 {
        (st, Seq::empty())
    } else {
        let (s1, es) = close_run(st, idxs.drop_last());
        let i = idxs.last();
        let s2 = finish_block(s1, i);
        (s2, es.push(EventV::BlockStop { index: i, block: map_get(s2.blocks, i) }))
    }
}

/// Closing every open block, in opening order.
pub open spec fn close_all(st: DecodeV) -> (DecodeV, Seq<EventV>) {
    close_run(DecodeV { open: Seq::empty(), ..st }, st.open)
}

/// Closing the blocks `idxs` one by one: each leaves the open list, is
/// finished and gives a stop event.
pub open spec fn stop_run(st: DecodeV, idxs: Seq<usize>) -> (DecodeV, Seq<EventV>)
    decreases idxs.len(),
{
    if idxs.len() == 0 {
        (st, Seq::empty())
    } else {
        let (s1, es) = stop_run(st, idxs.drop_last());
        let i = idxs.last();
        let s2 = finish_block(DecodeV { open: remove_first(s1.open, i), ..s1 }, i);
        (s2, es.push(EventV::BlockStop { index: i, block: map_get(s2.blocks, i) }))
    }
}

/// The open blocks that are tool uses, in opening order.
pub open spec fn tool_open(open: Seq<usize>, blocks: Map<usize, BlockV>) -> Seq<usize>
    decreases open.len(),
{
    if open.len() == 0 {
        Seq::empty()
    } else {
        tool_open(open.drop_last(), blocks) + if is_tool_block(blocks, open.last()) {
            seq![open.last()]
        } else {
            Seq::empty()
        }
    }
}

/// Whether a delta carries anything (role, text, reasoning or tool calls).
pub open spec fn has_content(delta: JsonV) -> bool {
    delta.field("role"@) is Some || delta.field("content"@) is Some || delta.field("reasoning_content"@) is Some
        || delta.field("reasoning"@) is Some || delta.field("tool_calls"@) is Some
}

/// The message start, on the first chunk that carries anything.
pub open spec fn start_step(st: DecodeV, data: JsonV, delta: JsonV) -> (DecodeV, Seq<EventV>) {
    if !st.started && has_content(delta) {
        (
            DecodeV { started: true, ..st },
            seq![EventV::MessageStart { id: str_or_empty(data, "id"@), model: str_or_empty(data, "model"@) }],
        )
    } else {
        (st, Seq::empty())
    }
}

/// A delta's reasoning text: `reasoning_content`, or `reasoning` when that is
/// absent.
pub open spec fn reasoning_of(delta: JsonV) -> Option<Seq<char>> {
    match delta.field("reasoning_content"@) {
        Some(v) => v.str_of(),
        None => delta.field_str("reasoning"@),
    }
}

/// A non-empty text or reasoning increment goes to its own slot's block,
/// opened (with a start event) on first use.
pub open spec fn text_step(st: DecodeV, t: Option<Seq<char>>, reasoning: bool) -> (DecodeV, Seq<EventV>) {
    match t {
        Some(x) => if x.len() > 0 {
            let (s1, idx, new) = slot_of(st, if reasoning { "reasoning"@ } else { "text"@ });
            let s2 = if new { DecodeV { open: opened(s1.open, idx), ..s1 } } else { s1 };
            let s3 = DecodeV { blocks: s2.blocks.insert(idx, pushed_text(map_get(s2.blocks, idx), reasoning, x)), ..s2 };
            let starts = if new {
                seq![EventV::BlockStart { index: idx, block: if reasoning { empty_reasoning() } else { empty_text() } }]
            } else {
                Seq::empty()
            };
            (
                s3,
                starts.push(
                    EventV::BlockDelta {
                        index: idx,
                        delta: if reasoning { DeltaV::Reasoning { text: x } } else { DeltaV::Text { text: x } },
                    },
                ),
            )
        } else {
            (st, Seq::empty())
        },
        None => (st, Seq::empty()),
    }
}

/// The slot of a tool call: `tc:` and its `index` (zero when absent).
pub open spec fn call_key(tc: JsonV) -> Seq<char> {
    "tc:"@ + dec(
        match tc.field_u64("index"@) {
            Some(n) => n as nat,
            None => 0,
        },
    )
}

/// The block a tool call opens: its id and function name (empty when
/// absent), an empty input.
pub open spec fn call_block(tc: JsonV) -> BlockV {
    BlockV::ToolUse {
        id: str_or_empty(tc, "id"@),
        name: str_or_empty(null_or(tc.field("function"@)), "name"@),
        namespace: None,
        input: JsonV::Object(Seq::empty()),
        signature: None,
    }
}

/// One tool call delta. A new call first closes the tool blocks still open
/// (the calls come one after the other); a call whose block is not yet a
/// tool use opens one; non-empty argument text is accumulated and passed on.
pub open spec fn call_step(st: DecodeV, tc: JsonV) -> (DecodeV, Seq<EventV>) {
    let (s1, index, new) = slot_of(st, call_key(tc));
    let (s2, e1) = if new {
        stop_run(s1, tool_open(s1.open, s1.blocks))
    } else {
        (s1, Seq::empty())
    };
    let started = is_tool_block(s2.blocks, index);
    let s3 = if started {
        s2
    } else {
        DecodeV { blocks: s2.blocks.insert(index, call_block(tc)), open: opened(s2.open, index), ..s2 }
    };
    let e2 = if started {
        Seq::empty()
    } else {
        seq![EventV::BlockStart { index, block: call_block(tc) }]
    };
    match null_or(tc.field("function"@)).field_str("arguments"@) {
        Some(a) => if a.len() > 0 {
            (
                DecodeV {
                    args: s3.args.insert(
                        index,
                        match map_get(s3.args, index) {
                            Some(p) => p,
                            None => Seq::empty(),
                        } + a,
                    ),
                    ..s3
                },
                e1 + e2 + seq![EventV::BlockDelta { index, delta: DeltaV::ToolInput { partial_json: a } }],
            )
        } else {
            (s3, e1 + e2)
        },
        None => (s3, e1 + e2),
    }
}

/// The tool call deltas, in order.
pub open spec fn calls_run(st: DecodeV, tcs: Seq<JsonV>) -> (DecodeV, Seq<EventV>)
    decreases tcs.len(),
{
    if tcs.len() == 0 {
        (st, Seq::empty())
    } else {
        let (s1, es) = calls_run(st, tcs.drop_last());
        let (s2, es2) = call_step(s1, tcs.last());
        (s2, es + es2)
    }
}

/// A finish reason closes every open block, then reports the stop reason and
/// the chunk's usage; a chunk with usage and no finish reason reports the
/// usage alone.
pub open spec fn finish_step(st: DecodeV, data: JsonV, choice: JsonV) -> (DecodeV, Seq<EventV>) {
    match choice.field_str("finish_reason"@) {
        Some(fr) => {
            let (s1, es) = close_all(st);
            (
                s1,
                es.push(
                    EventV::MessageDelta {
                        stop_reason: finish_reason_of(fr),
                        usage: match data.field("usage"@) {
                            Some(u) => Some(chat_usage(u)),
                            None => None,
                        },
                    },
                ),
            )
        },
        None => match data.field("usage"@) {
            Some(u) => (st, seq![EventV::MessageDelta { stop_reason: None, usage: Some(chat_usage(u)) }]),
            None => (st, Seq::empty()),
        },
    }
}

/// The first entry of `choices`, or `null`.
pub open spec fn first_choice(data: JsonV) -> JsonV {
    match data.field("choices"@) {
        Some(c) => match c.array_of() {
            Some(a) => if a.len() > 0 {
                a[0]
            } else {
                JsonV::Null
            },
            None => JsonV::Null,
        },
        None => JsonV::Null,
    }
}

/// The tool call deltas of a delta.
pub open spec fn delta_calls(delta: JsonV) -> Seq<JsonV> {
    match delta.field("tool_calls"@) {
        Some(t) => match t.array_of() {
            Some(a) => a,
            None => Seq::empty(),
        },
        None => Seq::empty(),
    }
}

/// The events of one JSON chunk: message start, reasoning, text, tool calls,
/// finish, in that order.
pub open spec fn data_events(st: DecodeV, data: JsonV) -> (DecodeV, Seq<EventV>) {
    let choice = first_choice(data);
    let delta = null_or(choice.field("delta"@));
    let (s1, e1) = start_step(st, data, delta);
    let (s2, e2) = text_step(s1, reasoning_of(delta), true);
    let (s3, e3) = text_step(s2, delta.field_str("content"@), false);
    let (s4, e4) = calls_run(s3, delta_calls(delta));
    let (s5, e5) = finish_step(s4, data, choice);
    (s5, e1 + e2 + e3 + e4 + e5)
}

/// Decoding one Chat chunk: `[DONE]` closes every open block and stops the
/// message; a chunk that is not JSON gives nothing.
pub open spec fn chat_decode(st: DecodeV, data: BodyV, raw: Seq<char>) -> (DecodeV, Seq<EventV>) {
    if is_done(data) {
        let (s1, es) = close_all(st);
        (s1, es.push(EventV::MessageStop))
    } else {
        match chunk_value(data, raw) {
            Some(v) => data_events(st, v),
            None => (st, Seq::empty()),
        }
    }
}

/// How many block indexes decoding a chunk may hand out: the text and
/// reasoning slots and one per tool call.
pub open spec fn chunk_slots(data: BodyV, raw: Seq<char>) -> nat {
    match chunk_value(data, raw) {
        Some(v) => 2 + delta_calls(null_or(first_choice(v).field("delta"@))).len(),
        None => 2,
    }
}

// ---- executable ----

pub(crate) fn take_slot(st: &mut StreamDecodeState, key: &str) -> (r: (usize, bool))
    requires
        old(st).dv().slots.dom().contains(key@) || old(st).dv().next < usize::MAX,
    ensures
        (final(st).dv(), r.0, r.1) == slot_of(old(st).dv(), key@),
{
    st.slot(key)
}

pub(crate) fn args_json(text: &str) -> (r: Json)
    ensures
        r@ == args_input(text@),
{
    match parse_json(text) {
        Some(v) => v,
        None => {
            let mut fs: Vec<(String, Json)> = Vec::new();
            fs.push(("_raw".to_string(), Json::Str(text.to_string())));
            proof {
                lemma_fields_view(fs@);
                assert(fields_view(fs@) =~= seq![("_raw"@, JsonV::Str(text@))]);
            }
            Json::Object(fs)
        },
    }
}

pub(crate) fn finish(st: &mut StreamDecodeState, i: usize)
    ensures
        final(st).dv() == finish_block(old(st).dv(), i),
{
    let ghost s0 = st.dv();
    if let Some(args) = st.args_acc.remove(i) {
        let next = match st.blocks.get(i) {
            Some(ContentBlock::ToolUse { id, name, namespace, input: _, signature }) => Some(
                ContentBlock::ToolUse {
                    id: id.clone(),
                    name: name.clone(),
                    namespace: clone_opt(namespace),
                    input: args_json(args.as_str()),
                    signature: clone_opt(signature),
                },
            ),
            _ => None,
        };
        if let Some(b) = next {
            st.blocks.insert(i, b);
        }
        proof {
            assert(st.dv().args == s0.args.remove(i));
            assert(st.dv().blocks == finish_block(s0, i).blocks);
            assert(st.dv() == finish_block(s0, i));
        }
    } else {
        proof {
            assert(st.dv().args =~= s0.args);
        }
    }
}

pub(crate) fn stop_event(st: &StreamDecodeState, i: usize) -> (r: CoreStreamEvent)
    ensures
        event_view(r) == (EventV::BlockStop { index: i, block: map_get(st.dv().blocks, i) }),
{
    let block = match st.blocks.get(i) {
        Some(b) => Some(b.deep_clone()),
        None => None,
    };
    CoreStreamEvent::BlockStop { index: i, block }
}

pub(crate) fn close_open_blocks(st: &mut StreamDecodeState, out: &mut Vec<CoreStreamEvent>)
    ensures
        final(st).dv() == close_all(old(st).dv()).0,
        final(st).dv().next == old(st).dv().next,
        events_view(final(out)@) == events_view(old(out)@) + close_all(old(st).dv()).1,
{
    let ghost s0 = st.dv();
    let ghost out0 = events_view(out@);
    let mut open: Vec<usize> = Vec::new();
    std::mem::swap(&mut open, &mut st.open_blocks);
    let ghost base = st.dv();
    proof {
        assert(base == DecodeV { open: Seq::empty(), ..s0 });
        assert(open@ == s0.open);
        assert(out0 + Seq::<EventV>::empty() == out0);
    }
    let mut k: usize = 0;
    while k < open.len()
        invariant
            k <= open@.len(),
            open@ == s0.open,
            base.next == s0.next,
            st.dv().next == s0.next,
            st.dv() == close_run(base, open@.take(k as int)).0,
            events_view(out@) == out0 + close_run(base, open@.take(k as int)).1,
        decreases open@.len() - k,
    {
        let i = open[k];
        proof {
            assert(open@.take(k + 1).drop_last() == open@.take(k as int));
            assert(open@.take(k + 1).last() == i);
        }
        finish(st, i);
        let e = stop_event(st, i);
        let ghost before = out@;
        out.push(e);
        proof {
            lemma_events_push(before, e);
        }
        k = k + 1;
    }
    proof {
        assert(open@.take(open@.len() as int) == open@);
    }
}

pub(crate) fn text_increment(st: &mut StreamDecodeState, out: &mut Vec<CoreStreamEvent>, t: Option<&str>, reasoning: bool)
    requires
        old(st).dv().next < usize::MAX,
    ensures
        final(st).dv() == text_step(old(st).dv(), match t {
            Some(x) => Some(x@),
            None => None,
        }, reasoning).0,
        events_view(final(out)@) == events_view(old(out)@) + text_step(old(st).dv(), match t {
            Some(x) => Some(x@),
            None => None,
        }, reasoning).1,
        final(st).dv().next <= old(st).dv().next + 1,
{
    let ghost out0 = events_view(out@);
    let x = match t {
        Some(x) => x,
        None => {
            proof {
                assert(out0 + Seq::<EventV>::empty() == out0);
            }
            return;
        },
    };
    if x.unicode_len() == 0 {
        proof {
            assert(out0 + Seq::<EventV>::empty() == out0);
        }
        return;
    }
    let key = if reasoning {
        "reasoning"
    } else {
        "text"
    };
    let (idx, is_new) = take_slot(st, key);
    if is_new {
        st.open_block(idx);
        let block = if reasoning {
            ContentBlock::Reasoning { text: String::new(), signature: None, redacted: false }
        } else {
            ContentBlock::Text { text: String::new() }
        };
        let e = CoreStreamEvent::BlockStart { index: idx, block };
        let ghost before = out@;
        out.push(e);
        proof {
            lemma_events_push(before, e);
        }
    }
    st.push_text(idx, reasoning, x);
    let delta = if reasoning {
        StreamDelta::Reasoning { text: x.to_string() }
    } else {
        StreamDelta::Text { text: x.to_string() }
    };
    let e = CoreStreamEvent::BlockDelta { index: idx, delta };
    let ghost before = out@;
    out.push(e);
    proof {
        lemma_events_push(before, e);
        let tv = Some(x@);
        let (s1, i1, n1) = slot_of(old(st).dv(), key@);
        assert(i1 == idx && n1 == is_new);
        let starts = if is_new {
            seq![EventV::BlockStart { index: idx, block: if reasoning { empty_reasoning() } else { empty_text() } }]
        } else {
            Seq::empty()
        };
        let d = EventV::BlockDelta {
            index: idx,
            delta: if reasoning { DeltaV::Reasoning { text: x@ } } else { DeltaV::Text { text: x@ } },
        };
        assert(text_step(old(st).dv(), tv, reasoning).1 == starts.push(d));
        assert(events_view(out@) =~= out0 + starts.push(d));
    }
}


fn is_tool_at(st: &StreamDecodeState, i: usize) -> (r: bool)
    ensures
        r == is_tool_block(st.dv().blocks, i),
{
    match st.blocks.get(i) {
        Some(ContentBlock::ToolUse { .. }) => true,
        _ => false,
    }
}

fn open_tool_blocks(st: &StreamDecodeState) -> (r: Vec<usize>)
    ensures
        r@ == tool_open(st.dv().open, st.dv().blocks),
{
    let ghost open = st.dv().open;
    let mut out: Vec<usize> = Vec::new();
    let mut k: usize = 0;
    while k < st.open_blocks.len()
        invariant
            k <= open.len(),
            open == st.dv().open,
            out@ == tool_open(open.take(k as int), st.dv().blocks),
        decreases open.len() - k,
    {
        let i = st.open_blocks[k];
        proof {
            assert(open.take(k + 1).drop_last() == open.take(k as int));
            assert(open.take(k + 1).last() == i);
        }
        if is_tool_at(st, i) {
            out.push(i);
        } else {
            proof {
                assert(out@ + Seq::<usize>::empty() == out@);
            }
        }
        k = k + 1;
    }
    proof {
        assert(open.take(open.len() as int) == open);
    }
    out
}

fn stop_blocks(st: &mut StreamDecodeState, out: &mut Vec<CoreStreamEvent>, idxs: &Vec<usize>)
    ensures
        final(st).dv() == stop_run(old(st).dv(), idxs@).0,
        events_view(final(out)@) == events_view(old(out)@) + stop_run(old(st).dv(), idxs@).1,
        final(st).dv().next == old(st).dv().next,
{
    let ghost s0 = st.dv();
    let ghost out0 = events_view(out@);
    proof {
        assert(out0 + Seq::<EventV>::empty() == out0);
    }
    let mut k: usize = 0;
    while k < idxs.len()
        invariant
            k <= idxs@.len(),
            st.dv() == stop_run(s0, idxs@.take(k as int)).0,
            events_view(out@) == out0 + stop_run(s0, idxs@.take(k as int)).1,
            st.dv().next == s0.next,
        decreases idxs@.len() - k,
    {
        let i = idxs[k];
        proof {
            assert(idxs@.take(k + 1).drop_last() == idxs@.take(k as int));
            assert(idxs@.take(k + 1).last() == i);
        }
        let ghost s1 = st.dv();
        st.close_block(i);
        proof {
            assert(st.dv() == DecodeV { open: remove_first(s1.open, i), ..s1 });
        }
        finish(st, i);
        let e = stop_event(st, i);
        let ghost before = out@;
        out.push(e);
        proof {
            lemma_events_push(before, e);
        }
        k = k + 1;
    }
    proof {
        assert(idxs@.take(idxs@.len() as int) == idxs@);
    }
}

fn call_block_of(tc: &Json) -> (r: ContentBlock)
    ensures
        block_view(r) == call_block(tc@),
{
    let name = match tc.get("function") {
        Some(f) => str_field(f, "name"),
        None => String::new(),
    };
    let input = Json::Object(Vec::new());
    proof {
        assert(fields_view(Seq::<(String, Json)>::empty()) =~= Seq::<(Seq<char>, JsonV)>::empty());
    }
    ContentBlock::ToolUse { id: str_field(tc, "id"), name, namespace: None, input, signature: None }
}

fn call_increment(st: &mut StreamDecodeState, out: &mut Vec<CoreStreamEvent>, tc: &Json)
    requires
        old(st).dv().next < usize::MAX,
    ensures
        final(st).dv() == call_step(old(st).dv(), tc@).0,
        events_view(final(out)@) == events_view(old(out)@) + call_step(old(st).dv(), tc@).1,
        final(st).dv().next <= old(st).dv().next + 1,
{
    let ghost s0 = st.dv();
    let ghost out0 = events_view(out@);
    let n: u64 = match tc.get_u64("index") {
        Some(n) => n,
        None => 0,
    };
    let key = concat_str("tc:", u64_to_dec(n).as_str());
    proof {
        assert(key@ == call_key(tc@));
    }
    let (index, is_new) = take_slot(st, key.as_str());
    let ghost s1 = st.dv();
    if is_new {
        let pending = open_tool_blocks(st);
        stop_blocks(st, out, &pending);
    } else {
        proof {
            assert(out0 + Seq::<EventV>::empty() == out0);
        }
    }
    let ghost s2 = st.dv();
    let ghost e1 = events_view(out@).subrange(out0.len() as int, events_view(out@).len() as int);
    proof {
        assert(events_view(out@) =~= out0 + e1);
        if is_new {
            assert(e1 =~= stop_run(s1, tool_open(s1.open, s1.blocks)).1);
        } else {
            assert(e1 =~= Seq::<EventV>::empty());
        }
    }
    let started = is_tool_at(st, index);
    if !started {
        let block = call_block_of(tc);
        let copy = block.deep_clone();
        st.blocks.insert(index, copy);
        st.open_block(index);
        let e = CoreStreamEvent::BlockStart { index, block };
        let ghost before = out@;
        out.push(e);
        proof {
            lemma_events_push(before, e);
        }
    }
    let ghost s3 = st.dv();
    let ghost mid = events_view(out@);
    proof {
        let e2: Seq<EventV> = if started {
            Seq::empty()
        } else {
            seq![EventV::BlockStart { index, block: call_block(tc@) }]
        };
        assert(mid =~= out0 + e1 + e2);
    }
    let args = match tc.get("function") {
        Some(f) => f.get_str("arguments"),
        None => None,
    };
    proof {
        assert(args matches Some(a) ==> null_or(tc@.field("function"@)).field_str("arguments"@) == Some(a@));
        assert(args is None ==> null_or(tc@.field("function"@)).field_str("arguments"@) is None);
    }
    if let Some(a) = args {
        if a.unicode_len() > 0 {
            let acc = match st.args_acc.get(index) {
                Some(p) => concat_str(p.as_str(), a),
                None => a.to_string(),
            };
            proof {
                assert(Seq::<char>::empty() + a@ == a@);
            }
            st.args_acc.insert(index, acc);
            let e = CoreStreamEvent::BlockDelta { index, delta: StreamDelta::ToolInput { partial_json: a.to_string() } };
            let ghost before = out@;
            out.push(e);
            proof {
                lemma_events_push(before, e);
            }
        }
    }
    proof {
        let e2: Seq<EventV> = if started {
            Seq::empty()
        } else {
            seq![EventV::BlockStart { index, block: call_block(tc@) }]
        };
        let r = call_step(s0, tc@);
        if let Some(a) = args {
            if a@.len() > 0 {
                let d = seq![EventV::BlockDelta { index, delta: DeltaV::ToolInput { partial_json: a@ } }];
                assert(r.1 == e1 + e2 + d);
                assert(events_view(out@) =~= out0 + (e1 + e2 + d));
            } else {
                assert(events_view(out@) =~= out0 + (e1 + e2));
            }
        } else {
            assert(events_view(out@) =~= out0 + (e1 + e2));
        }
    }
}

fn calls_increment(st: &mut StreamDecodeState, out: &mut Vec<CoreStreamEvent>, tcs: &Vec<Json>)
    requires
        old(st).dv().next + tcs@.len() < usize::MAX,
    ensures
        final(st).dv() == calls_run(old(st).dv(), items_view(tcs@)).0,
        events_view(final(out)@) == events_view(old(out)@) + calls_run(old(st).dv(), items_view(tcs@)).1,
        final(st).dv().next <= old(st).dv().next + tcs@.len(),
{
    let ghost s0 = st.dv();
    let ghost out0 = events_view(out@);
    proof {
        lemma_items_view(tcs@);
        assert(out0 + Seq::<EventV>::empty() == out0);
    }
    let ghost tv = items_view(tcs@);
    let mut k: usize = 0;
    while k < tcs.len()
        invariant
            k <= tcs@.len() == tv.len(),
            tv == items_view(tcs@),
            forall|j: int| 0 <= j < tcs@.len() ==> #[trigger] tv[j] == json_view(tcs@[j]),
            st.dv() == calls_run(s0, tv.take(k as int)).0,
            events_view(out@) == out0 + calls_run(s0, tv.take(k as int)).1,
            st.dv().next <= s0.next + k,
            s0.next + tcs@.len() < usize::MAX,
        decreases tcs@.len() - k,
    {
        proof {
            assert(tv.take(k + 1).drop_last() == tv.take(k as int));
            assert(tv.take(k + 1).last() == tv[k as int]);
        }
        let ghost before = events_view(out@);
        call_increment(st, out, &tcs[k]);
        proof {
            let prev = calls_run(s0, tv.take(k as int));
            assert(events_view(out@) =~= out0 + (prev.1 + call_step(prev.0, tv[k as int]).1));
        }
        k = k + 1;
    }
    proof {
        assert(tv.take(tv.len() as int) == tv);
    }
}

fn finish_increment(st: &mut StreamDecodeState, out: &mut Vec<CoreStreamEvent>, data: &Json, choice: Option<&Json>)
    ensures
        final(st).dv() == finish_step(old(st).dv(), data@, null_or(match choice {
            Some(c) => Some(c@),
            None => None,
        })).0,
        events_view(final(out)@) == events_view(old(out)@) + finish_step(old(st).dv(), data@, null_or(match choice {
            Some(c) => Some(c@),
            None => None,
        })).1,
        final(st).dv().next == old(st).dv().next,
{
    let ghost out0 = events_view(out@);
    let fr = match choice {
        Some(c) => c.get_str("finish_reason"),
        None => None,
    };
    let usage = match data.get("usage") {
        Some(u) => Some(usage_from_chat(u)),
        None => None,
    };
    if let Some(f) = fr {
        close_open_blocks(st, out);
        let e = CoreStreamEvent::MessageDelta { stop_reason: map_finish_reason(f), usage };
        let ghost before = out@;
        out.push(e);
        proof {
            lemma_events_push(before, e);
        }
    } else if usage.is_some() {
        let e = CoreStreamEvent::MessageDelta { stop_reason: None, usage };
        out.push(e);
        proof {
            assert(events_view(out@) =~= out0 + seq![event_view(e)]);
        }
    } else {
        proof {
            assert(out0 + Seq::<EventV>::empty() == out0);
        }
    }
}

/// The JSON a chunk carries (see [`chunk_value`]).
pub(crate) fn chunk_json(chunk: &RawChunk) -> (r: Option<Json>)
    ensures
        match r {
            Some(v) => chunk_value(body_view(chunk.data), chunk.raw@) == Some(v@),
            None => chunk_value(body_view(chunk.data), chunk.raw@) is None,
        },
{
    if let RawBody::Json { value } = &chunk.data {
        return Some(value.deep_clone());
    }
    parse_json(chunk.raw.as_str())
}

/// The first element of a JSON array field, if the field is a non-empty array.
pub(crate) fn first_of_array<'a>(v: &'a Json, key: &str) -> (r: Option<&'a Json>)
    ensures
        match r {
            Some(x) => v@.field(key@) is Some && v@.field(key@)->0.array_of() is Some
                && v@.field(key@)->0.array_of()->0.len() > 0 && x@ == v@.field(key@)->0.array_of()->0[0],
            None => match v@.field(key@) {
                Some(c) => match c.array_of() {
                    Some(a) => a.len() == 0,
                    None => true,
                },
                None => true,
            },
        },
{
    match v.get(key) {
        Some(c) => match c.as_array() {
            Some(a) => {
                proof {
                    lemma_items_view(a@);
                }
                if a.len() > 0 {
                    Some(&a[0])
                } else {
                    None
                }
            },
            None => None,
        },
        None => None,
    }
}

/// How many elements an array field holds (none when it is absent or not an
/// array).
pub(crate) fn array_field_len(v: &Json, key: &str) -> (r: usize)
    ensures
        r == match v@.field(key@) {
            Some(t) => match t.array_of() {
                Some(a) => a.len(),
                None => 0,
            },
            None => 0,
        },
{
    match v.get(key) {
        Some(t) => match t.as_array() {
            Some(a) => {
                proof {
                    lemma_items_view(a@);
                }
                a.len()
            },
            None => 0,
        },
        None => 0,
    }
}

/// The block slots decoding a chunk may take (see [`chunk_slots`]).
fn slot_count(chunk: &RawChunk) -> (r: u128)
    ensures
        r == chunk_slots(body_view(chunk.data), chunk.raw@),
        r <= usize::MAX as u128 + 2,
{
    match chunk_json(chunk) {
        None => 2,
        Some(v) => match first_of_array(&v, "choices") {
            None => 2,
            Some(choice) => match choice.get("delta") {
                None => 2,
                Some(delta) => 2 + (array_field_len(delta, "tool_calls") as u128),
            },
        },
    }
}

impl OpenAiChatAdapter {
    /// Decodes one upstream Chat SSE chunk when the block indexes it may hand
    /// out fit: `None`, with the state unchanged, when the next block index
    /// plus the slots the chunk may take would reach `usize::MAX`; otherwise
    /// what [`OpenAiChatAdapter::decode`] gives.
    pub fn try_decode(&self, ctx: &ReqCtx, st: &mut StreamDecodeState, chunk: &RawChunk) -> (r: Option<
        Vec<CoreStreamEvent>,
    >)
        ensures
            match r {
                None => old(st).next_block_index + chunk_slots(body_view(chunk.data), chunk.raw@) >= usize::MAX
                    && *final(st) == *old(st),
                Some(evs) => old(st).next_block_index + chunk_slots(body_view(chunk.data), chunk.raw@)
                    < usize::MAX && final(st).dv() == chat_decode(
                    old(st).dv(),
                    body_view(chunk.data),
                    chunk.raw@,
                ).0 && events_view(evs@) == chat_decode(old(st).dv(), body_view(chunk.data), chunk.raw@).1,
            },
    {
        let slots = slot_count(chunk);
        if (st.next_block_index as u128) + slots < (usize::MAX as u128) {
            Some(self.decode(ctx, st, chunk))
        } else {
            None
        }
    }
}

impl OpenAiChatAdapter {
    /// Decodes one upstream Chat SSE chunk into core events (see
    /// [`chat_decode`]).
    pub fn decode(&self, _ctx: &ReqCtx, st: &mut StreamDecodeState, chunk: &RawChunk) -> (r: Vec<CoreStreamEvent>)
        requires
            old(st).next_block_index + chunk_slots(body_view(chunk.data), chunk.raw@) < usize::MAX,
        ensures
            final(st).dv() == chat_decode(old(st).dv(), body_view(chunk.data), chunk.raw@).0,
            events_view(r@) == chat_decode(old(st).dv(), body_view(chunk.data), chunk.raw@).1,
    {
        let mut out: Vec<CoreStreamEvent> = Vec::new();
        proof {
            assert(events_view(out@) =~= Seq::<EventV>::empty());
        }
        if let RawBody::Text { text } = &chunk.data {
            let t = trim_str(text.as_str());
            if str_eq(t.as_str(), "[DONE]") {
                close_open_blocks(st, &mut out);
                let ghost before = out@;
                out.push(CoreStreamEvent::MessageStop);
                proof {
                    lemma_events_push(before, CoreStreamEvent::MessageStop);
                }
                return out;
            }
        }
        let data = match chunk_json(chunk) {
            Some(d) => d,
            None => {
                return out;
            },
        };
        let choice: Option<&Json> = match data.get("choices") {
            Some(c) => match c.as_array() {
                Some(a) => {
                    proof {
                        lemma_items_view(a@);
                    }
                    if a.len() > 0 {
                        Some(&a[0])
                    } else {
                        None
                    }
                },
                None => None,
            },
            None => None,
        };
        let delta: Option<&Json> = match choice {
            Some(c) => c.get("delta"),
            None => None,
        };
        let ghost cv = null_or(match choice {
            Some(c) => Some(c@),
            None => None,
        });
        let ghost dv = null_or(match delta {
            Some(d) => Some(d@),
            None => None,
        });
        proof {
            assert(cv == first_choice(data@));
            assert(dv == null_or(cv.field("delta"@)));
        }
        let ghost s0 = st.dv();
        // message start
        let has = match delta {
            Some(d) => d.get("role").is_some() || d.get("content").is_some() || d.get("reasoning_content").is_some()
                || d.get("reasoning").is_some() || d.get("tool_calls").is_some(),
            None => false,
        };
        if !st.message_started && has {
            st.message_started = true;
            let id = str_field(&data, "id");
            let model = str_field(&data, "model");
            out.push(CoreStreamEvent::MessageStart { id, model });
            proof {
                assert(events_view(out@) =~= seq![event_view(out@[0])]);
            }
        }
        proof {
            assert(st.dv() == start_step(s0, data@, dv).0);
            assert(events_view(out@) == start_step(s0, data@, dv).1);
        }
        // reasoning
        let reasoning: Option<&str> = match delta {
            Some(d) => match d.get("reasoning_content") {
                Some(v) => v.as_str(),
                None => d.get_str("reasoning"),
            },
            None => None,
        };
        text_increment(st, &mut out, reasoning, true);
        let content: Option<&str> = match delta {
            Some(d) => d.get_str("content"),
            None => None,
        };
        text_increment(st, &mut out, content, false);
        let tcs: Option<&Vec<Json>> = match delta {
            Some(d) => match d.get("tool_calls") {
                Some(t) => t.as_array(),
                None => None,
            },
            None => None,
        };
        if let Some(list) = tcs {
            proof {
                lemma_items_view(list@);
                assert(items_view(list@) == delta_calls(dv));
                assert(chunk_slots(body_view(chunk.data), chunk.raw@) == 2 + list@.len());
            }
            calls_increment(st, &mut out, list);
        } else {
            proof {
                assert(delta_calls(dv) =~= Seq::<JsonV>::empty());
                assert(events_view(out@) + Seq::<EventV>::empty() == events_view(out@));
            }
        }
        finish_increment(st, &mut out, &data, choice);
        proof {
            let (s1, e1) = start_step(s0, data@, dv);
            let (s2, e2) = text_step(s1, reasoning_of(dv), true);
            let (s3, e3) = text_step(s2, dv.field_str("content"@), false);
            let (s4, e4) = calls_run(s3, delta_calls(dv));
            let (s5, e5) = finish_step(s4, data@, cv);
            assert(events_view(out@) =~= e1 + e2 + e3 + e4 + e5);
        }
        out
    }
}

// ---- encoding for a client ----

/// A client chunk carrying a JSON value, its raw line being the value's text.
pub open spec fn json_chunk(v: JsonV) -> ChunkV {
    ChunkV {
        stage: ChunkStage::ClientChunk,
        protocol: Protocol::OpenAiChat,
        provider: None,
        event: None,
        data: BodyV::Json(v),
        raw: json_text(v),
    }
}

/// The id the chunks carry: the message start's id, or `chatcmpl-` and the
/// request id before one was seen.
pub open spec fn response_id(st: EncodeV, request_id: Seq<char>) -> Seq<char> {
    if st.message_id.len() == 0 {
        "chatcmpl-"@ + request_id
    } else {
        st.message_id
    }
}

/// A `chat.completion.chunk` object with one choice.
pub open spec fn chunk_object(id: Seq<char>, model: Seq<char>, created: u64, delta: JsonV, finish: JsonV) -> JsonV {
    JsonV::Object(
        seq![
            ("id"@, JsonV::Str(id)),
            ("object"@, JsonV::Str("chat.completion.chunk"@)),
            ("created"@, JsonV::PosInt(created)),
            ("model"@, JsonV::Str(model)),
            ("choices"@, JsonV::Array(
                seq![JsonV::Object(seq![("index"@, JsonV::PosInt(0)), ("delta"@, delta), ("finish_reason"@, finish)])],
            )),
        ],
    )
}

/// The chunk of one delta for the request, at time `now`.
pub open spec fn delta_chunk(st: EncodeV, ctx: ReqCtx, now: u64, delta: JsonV, finish: JsonV) -> ChunkV {
    json_chunk(chunk_object(response_id(st, ctx.request_id@), ctx.model_alias@, now, delta, finish))
}

/// The `tool_calls` delta opening a call.
pub open spec fn tool_start_delta(ordinal: usize, id: Seq<char>, name: Seq<char>) -> JsonV {
    JsonV::Object(
        seq![
            ("tool_calls"@, JsonV::Array(
                seq![JsonV::Object(
                    seq![
                        ("index"@, JsonV::PosInt(ordinal as u64)),
                        ("id"@, JsonV::Str(id)),
                        ("type"@, JsonV::Str("function"@)),
                        ("function"@, JsonV::Object(seq![("name"@, JsonV::Str(name)), ("arguments"@, JsonV::Str(Seq::empty()))])),
                    ],
                )],
            )),
        ],
    )
}

/// The `tool_calls` delta carrying argument text.
pub open spec fn tool_args_delta(ordinal: usize, partial_json: Seq<char>) -> JsonV {
    JsonV::Object(
        seq![
            ("tool_calls"@, JsonV::Array(
                seq![JsonV::Object(
                    seq![
                        ("index"@, JsonV::PosInt(ordinal as u64)),
                        ("function"@, JsonV::Object(seq![("arguments"@, JsonV::Str(partial_json))])),
                    ],
                )],
            )),
        ],
    )
}

/// A reasoning delta, written under both `reasoning_content` and
/// `reasoning`.
pub open spec fn reasoning_delta(text: Seq<char>) -> JsonV {
    JsonV::Object(seq![("reasoning_content"@, JsonV::Str(text)), ("reasoning"@, JsonV::Str(text))])
}

/// The `tool_calls` ordinal of block `index`, handed out on first use.
pub open spec fn ordinal_of(st: EncodeV, index: usize) -> (EncodeV, usize) {
    if st.ordinals.dom().contains(index) {
        (st, st.ordinals[index])
    } else {
        (
            EncodeV {
                ordinals: st.ordinals.insert(index, st.next_ordinal),
                next_ordinal: (st.next_ordinal + 1) as usize,
                ..st
            },
            st.next_ordinal,
        )
    }
}

/// `text` appended to the payload accumulated for block `index`.
pub open spec fn delta_pushed(st: EncodeV, index: usize, text: Seq<char>) -> EncodeV {
    EncodeV {
        deltas: st.deltas.insert(
            index,
            (if st.deltas.dom().contains(index) {
                st.deltas[index]
            } else {
                Seq::empty()
            }) + text,
        ),
        ..st
    }
}

pub open spec fn zero_usage() -> Usage {
    Usage { input_tokens: 0, output_tokens: 0, cache_read_tokens: 0, cache_write_tokens: 0, reasoning_tokens: 0 }
}

/// The usage after a message delta.
pub open spec fn usage_after(st: EncodeV, usage: Option<Usage>) -> Usage {
    match usage {
        Some(u) => merged_usage(st.usage, u),
        None => st.usage,
    }
}

/// Encoding one core event for a Chat client at time `now`. A message delta
/// carries the finish reason (`null` when unknown) and, once any usage was
/// seen, the merged usage (added to the data after its raw line was taken).
pub open spec fn chat_encode(st: EncodeV, ctx: ReqCtx, e: EventV, now: u64) -> (EncodeV, Seq<ChunkV>) {
    match e {
        EventV::MessageStart { id, model: _ } => {
            let s1 = EncodeV { message_id: id, ..st };
            (
                s1,
                seq![delta_chunk(s1, ctx, now, JsonV::Object(seq![("role"@, JsonV::Str("assistant"@)), ("content"@, JsonV::Str(Seq::empty()))]), JsonV::Null)],
            )
        },
        EventV::BlockStart { index, block } => {
            let s1 = EncodeV { blocks: st.blocks.insert(index, block), ..st };
            match block {
                BlockV::ToolUse { id, name, .. } => {
                    let (s2, ord) = ordinal_of(s1, index);
                    (s2, seq![delta_chunk(s2, ctx, now, tool_start_delta(ord, id, name), JsonV::Null)])
                },
                _ => (s1, Seq::empty()),
            }
        },
        EventV::BlockDelta { index, delta } => match delta {
            DeltaV::Text { text } => {
                let s1 = delta_pushed(st, index, text);
                (s1, seq![delta_chunk(s1, ctx, now, JsonV::Object(seq![("content"@, JsonV::Str(text))]), JsonV::Null)])
            },
            DeltaV::ToolInput { partial_json } => {
                let s1 = delta_pushed(st, index, partial_json);
                let (s2, ord) = ordinal_of(s1, index);
                (s2, seq![delta_chunk(s2, ctx, now, tool_args_delta(ord, partial_json), JsonV::Null)])
            },
            DeltaV::Reasoning { text } => (st, seq![delta_chunk(st, ctx, now, reasoning_delta(text), JsonV::Null)]),
            DeltaV::ReasoningSignature { signature } => (
                st,
                seq![delta_chunk(st, ctx, now, reasoning_delta("<mb-cot>"@ + signature + "</mb-cot>"@), JsonV::Null)],
            ),
        },
        EventV::BlockStop { .. } => (st, Seq::empty()),
        EventV::MessageDelta { stop_reason, usage } => {
            let s1 = EncodeV { usage: usage_after(st, usage), ..st };
            let finish = match stop_reason {
                Some(r) => JsonV::Str(finish_reason_name(Some(r))),
                None => JsonV::Null,
            };
            let body = chunk_object(response_id(s1, ctx.request_id@), ctx.model_alias@, now, JsonV::Object(Seq::empty()), finish);
            let data = if s1.usage != zero_usage() {
                with_field(body, "usage"@, chat_usage_value(s1.usage))
            } else {
                body
            };
            (s1, seq![ChunkV { data: BodyV::Json(data), ..json_chunk(body) }])
        },
        EventV::MessageStop => (
            st,
            seq![ChunkV {
                stage: ChunkStage::ClientChunk,
                protocol: Protocol::OpenAiChat,
                provider: None,
                event: None,
                data: BodyV::Text("[DONE]"@),
                raw: Seq::empty(),
            }],
        ),
        EventV::Error { message } => (
            st,
            seq![json_chunk(JsonV::Object(seq![("error"@, JsonV::Object(seq![("message"@, JsonV::Str(message))]))]))],
        ),
    }
}

/// What encoding an event needs to stay within machine integers: a free
/// `tool_calls` ordinal for a new call, and a usage total that fits a `u32`.
pub open spec fn chat_encode_fits(st: EncodeV, e: EventV) -> bool {
    match e {
        EventV::BlockStart { index, block } => block is ToolUse ==> (st.ordinals.dom().contains(index)
            || st.next_ordinal < usize::MAX),
        EventV::BlockDelta { index, delta } => delta is ToolInput ==> (st.ordinals.dom().contains(index)
            || st.next_ordinal < usize::MAX),
        EventV::MessageDelta { stop_reason: _, usage } => usage_after(st, usage).input_tokens + usage_after(
            st,
            usage,
        ).output_tokens <= u32::MAX,
        _ => true,
    }
}

/// The current time in whole seconds since the Unix epoch (0 if the clock is
/// before it). Depends on the clock: nothing is stated of the value.
#[verifier::external_body]
pub(crate) fn now_unix() -> u64 {
    std::time::SystemTime::now().duration_since(std::time::UNIX_EPOCH).map(|d| d.as_secs()).unwrap_or(0)
}

pub(crate) fn jfield(k: &str, v: Json) -> (r: (String, Json))
    ensures
        r.0@ == k@,
        r.1@ == v@,
{
    (k.to_string(), v)
}

pub(crate) fn jobject(fs: Vec<(String, Json)>) -> (r: Json)
    ensures
        r@ == JsonV::Object(fields_view(fs@)),
{
    Json::Object(fs)
}

fn chunk_object_json(st: &StreamEncodeState, ctx: &ReqCtx, now: u64, delta: Json, finish: Json) -> (r: Json)
    ensures
        r@ == chunk_object(response_id(st.ev(), ctx.request_id@), ctx.model_alias@, now, delta@, finish@),
{
    let id = if st.message_id.unicode_len() == 0 {
        concat_str("chatcmpl-", ctx.request_id.as_str())
    } else {
        st.message_id.clone()
    };
    let mut choice: Vec<(String, Json)> = Vec::new();
    choice.push(jfield("index", Json::Num(JsonNum::PosInt(0))));
    choice.push(jfield("delta", delta));
    choice.push(jfield("finish_reason", finish));
    proof {
        lemma_fields_view(choice@);
        assert(fields_view(choice@) =~= seq![("index"@, JsonV::PosInt(0)), ("delta"@, delta@), ("finish_reason"@, finish@)]);
    }
    let c = jobject(choice);
    let mut choices: Vec<Json> = Vec::new();
    choices.push(c);
    proof {
        lemma_items_view(choices@);
    }
    let mut fs: Vec<(String, Json)> = Vec::new();
    fs.push(jfield("id", Json::Str(id)));
    fs.push(jfield("object", Json::Str("chat.completion.chunk".to_string())));
    fs.push(jfield("created", Json::Num(JsonNum::PosInt(now))));
    fs.push(jfield("model", Json::Str(ctx.model_alias.clone())));
    fs.push(jfield("choices", Json::Array(choices)));
    proof {
        lemma_fields_view(fs@);
        let exp = chunk_object(response_id(st.ev(), ctx.request_id@), ctx.model_alias@, now, delta@, finish@);
        assert(c@ == exp->Object_0[4].1->Array_0[0]);
        assert(items_view(choices@) =~= exp->Object_0[4].1->Array_0);
        assert(fields_view(fs@) =~= exp->Object_0);
    }
    jobject(fs)
}

fn client_chunk(value: Json) -> (r: RawChunk)
    ensures
        chunk_view(r) == json_chunk(value@),
{
    RawChunk::json(ChunkStage::ClientChunk, Protocol::OpenAiChat, None, value)
}

fn chat_chunk(st: &StreamEncodeState, ctx: &ReqCtx, now: u64, delta: Json, finish: Json) -> (r: RawChunk)
    ensures
        chunk_view(r) == delta_chunk(st.ev(), *ctx, now, delta@, finish@),
{
    client_chunk(chunk_object_json(st, ctx, now, delta, finish))
}

fn tool_start_json(ordinal: usize, id: &String, name: &String) -> (r: Json)
    ensures
        r@ == tool_start_delta(ordinal, id@, name@),
{
    let mut f: Vec<(String, Json)> = Vec::new();
    f.push(jfield("name", Json::Str(name.clone())));
    f.push(jfield("arguments", Json::Str(String::new())));
    proof {
        lemma_fields_view(f@);
    }
    let fobj = jobject(f);
    let mut tc: Vec<(String, Json)> = Vec::new();
    tc.push(jfield("index", Json::Num(JsonNum::PosInt(ordinal as u64))));
    tc.push(jfield("id", Json::Str(id.clone())));
    tc.push(jfield("type", Json::Str("function".to_string())));
    tc.push(jfield("function", fobj));
    proof {
        lemma_fields_view(tc@);
    }
    let tco = jobject(tc);
    let mut arr: Vec<Json> = Vec::new();
    arr.push(tco);
    proof {
        lemma_items_view(arr@);
    }
    let mut outer: Vec<(String, Json)> = Vec::new();
    outer.push(jfield("tool_calls", Json::Array(arr)));
    proof {
        lemma_fields_view(outer@);
        let exp = tool_start_delta(ordinal, id@, name@);
        let t = exp->Object_0[0].1->Array_0[0];
        assert(fields_view(f@) =~= t->Object_0[3].1->Object_0);
        assert(fields_view(tc@) =~= t->Object_0);
        assert(items_view(arr@) =~= exp->Object_0[0].1->Array_0);
        assert(fields_view(outer@) =~= exp->Object_0);
    }
    jobject(outer)
}

fn tool_args_json(ordinal: usize, partial_json: &String) -> (r: Json)
    ensures
        r@ == tool_args_delta(ordinal, partial_json@),
{
    let mut f: Vec<(String, Json)> = Vec::new();
    f.push(jfield("arguments", Json::Str(partial_json.clone())));
    proof {
        lemma_fields_view(f@);
    }
    let fobj = jobject(f);
    let mut tc: Vec<(String, Json)> = Vec::new();
    tc.push(jfield("index", Json::Num(JsonNum::PosInt(ordinal as u64))));
    tc.push(jfield("function", fobj));
    proof {
        lemma_fields_view(tc@);
    }
    let tco = jobject(tc);
    let mut arr: Vec<Json> = Vec::new();
    arr.push(tco);
    proof {
        lemma_items_view(arr@);
    }
    let mut outer: Vec<(String, Json)> = Vec::new();
    outer.push(jfield("tool_calls", Json::Array(arr)));
    proof {
        lemma_fields_view(outer@);
        let exp = tool_args_delta(ordinal, partial_json@);
        let t = exp->Object_0[0].1->Array_0[0];
        assert(fields_view(f@) =~= t->Object_0[1].1->Object_0);
        assert(fields_view(tc@) =~= t->Object_0);
        assert(items_view(arr@) =~= exp->Object_0[0].1->Array_0);
        assert(fields_view(outer@) =~= exp->Object_0);
    }
    jobject(outer)
}

fn reasoning_json(text: &String) -> (r: Json)
    ensures
        r@ == reasoning_delta(text@),
{
    let mut fs: Vec<(String, Json)> = Vec::new();
    fs.push(jfield("reasoning_content", Json::Str(text.clone())));
    fs.push(jfield("reasoning", Json::Str(text.clone())));
    proof {
        lemma_fields_view(fs@);
        assert(fields_view(fs@) =~= reasoning_delta(text@)->Object_0);
    }
    jobject(fs)
}

pub(crate) fn one1(k: &str, v: Json) -> (r: Json)
    ensures
        r@ == JsonV::Object(seq![(k@, v@)]),
{
    let mut fs: Vec<(String, Json)> = Vec::new();
    fs.push(jfield(k, v));
    proof {
        lemma_fields_view(fs@);
        assert(fields_view(fs@) =~= seq![(k@, v@)]);
    }
    jobject(fs)
}

impl OpenAiChatAdapter {
    /// Encodes one core event for a Chat client at time `now` (seconds since
    /// the Unix epoch; see [`chat_encode`]).
    pub fn encode_at(&self, ctx: &ReqCtx, ev: &CoreStreamEvent, st: &mut StreamEncodeState, now: u64) -> (r: Vec<RawChunk>)
        requires
            chat_encode_fits(old(st).ev(), event_view(*ev)),
        ensures
            final(st).ev() == chat_encode(old(st).ev(), *ctx, event_view(*ev), now).0,
            chunks_view(r@) == chat_encode(old(st).ev(), *ctx, event_view(*ev), now).1,
    {
        let mut out: Vec<RawChunk> = Vec::new();
        match ev {
            CoreStreamEvent::MessageStart { id, .. } => {
                st.message_id = id.clone();
                let mut d: Vec<(String, Json)> = Vec::new();
                d.push(jfield("role", Json::Str("assistant".to_string())));
                d.push(jfield("content", Json::Str(String::new())));
                proof {
                    lemma_fields_view(d@);
                    assert(fields_view(d@) =~= seq![("role"@, JsonV::Str("assistant"@)), ("content"@, JsonV::Str(Seq::empty()))]);
                }
                out.push(chat_chunk(st, ctx, now, jobject(d), Json::Null));
            },
            CoreStreamEvent::BlockStart { index, block } => {
                st.note_start(*index, block);
                if let ContentBlock::ToolUse { id, name, .. } = block {
                    let ord = st.tool_ordinal(*index);
                    out.push(chat_chunk(st, ctx, now, tool_start_json(ord, id, name), Json::Null));
                }
            },
            CoreStreamEvent::BlockDelta { index, delta } => match delta {
                StreamDelta::Text { text } => {
                    st.push_delta(*index, text.as_str());
                    out.push(chat_chunk(st, ctx, now, one1("content", Json::Str(text.clone())), Json::Null));
                },
                StreamDelta::ToolInput { partial_json } => {
                    st.push_delta(*index, partial_json.as_str());
                    let ord = st.tool_ordinal(*index);
                    out.push(chat_chunk(st, ctx, now, tool_args_json(ord, partial_json), Json::Null));
                },
                StreamDelta::Reasoning { text } => {
                    out.push(chat_chunk(st, ctx, now, reasoning_json(text), Json::Null));
                },
                StreamDelta::ReasoningSignature { signature } => {
                    let a = concat_str("<mb-cot>", signature.as_str());
                    let marker = concat_str(a.as_str(), "</mb-cot>");
                    out.push(chat_chunk(st, ctx, now, reasoning_json(&marker), Json::Null));
                },
            },
            CoreStreamEvent::BlockStop { .. } => {},
            CoreStreamEvent::MessageDelta { stop_reason, usage } => {
                if let Some(u) = usage {
                    st.merge_usage(u);
                }
                let finish = match stop_reason {
                    Some(r) => Json::Str(unmap_stop_reason(Some(*r)).to_string()),
                    None => Json::Null,
                };
                let body = chunk_object_json(st, ctx, now, Json::Object(Vec::new()), finish);
                proof {
                    assert(fields_view(Seq::<(String, Json)>::empty()) =~= Seq::<(Seq<char>, JsonV)>::empty());
                }
                let raw = json_to_string(&body);
                let data = if st.usage_acc != Usage::zero() {
                    with_member(body, "usage".to_string(), usage_object(&st.usage_acc))
                } else {
                    body
                };
                out.push(RawChunk {
                    stage: ChunkStage::ClientChunk,
                    protocol: Protocol::OpenAiChat,
                    provider: None,
                    event: None,
                    data: RawBody::Json { value: data },
                    raw,
                });
            },
            CoreStreamEvent::MessageStop => {
                out.push(RawChunk {
                    stage: ChunkStage::ClientChunk,
                    protocol: Protocol::OpenAiChat,
                    provider: None,
                    event: None,
                    data: RawBody::Text { text: "[DONE]".to_string() },
                    raw: String::new(),
                });
            },
            CoreStreamEvent::Error { message } => {
                let inner = one1("message", Json::Str(message.clone()));
                out.push(client_chunk(one1("error", inner)));
            },
        }
        proof {
            assert(chunks_view(out@) =~= chat_encode(old(st).ev(), *ctx, event_view(*ev), now).1);
        }
        out
    }

    /// Encodes one core event for a Chat client, stamped with the current
    /// time (see [`OpenAiChatAdapter::encode_at`]).
    pub fn encode(&self, ctx: &ReqCtx, ev: &CoreStreamEvent, st: &mut StreamEncodeState) -> (r: Vec<RawChunk>)
        requires
            chat_encode_fits(old(st).ev(), event_view(*ev)),
        ensures
            exists|now: u64|
                final(st).ev() == chat_encode(old(st).ev(), *ctx, event_view(*ev), now).0 && chunks_view(r@)
                    == chat_encode(old(st).ev(), *ctx, event_view(*ev), now).1,
    {
        let now = now_unix();
        self.encode_at(ctx, ev, st, now)
    }
}
} // verus!
