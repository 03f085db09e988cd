//! Gemini streaming: upstream `streamGenerateContent?alt=sse` chunks → core
//! stream events, and core events → Gemini chunks for a client.
//!
//! Each Gemini chunk is a list of parts, with the model version on the first
//! chunk and the finish reason and usage on the last; there is no `[DONE]`.
//! Decoding synthesizes the message start from the first chunk, opens a text
//! or reasoning block lazily on the first part of its kind, gives each
//! function call (always whole) blocks of its own, and closes the open blocks
//! in index order at the finish reason.
use vstd::prelude::*;
use vstd::relations::{sorted_by, total_ordering};
use crate::json::{items_view, json_text, json_to_string, json_view, lemma_items_view, with_field, with_member, Json, JsonNum, JsonV};
use crate::protocol::adapters::GoogleGenAiAdapter;
use crate::protocol::chat::{str_field, str_or_empty};
use crate::protocol::chat_stream::{
    array_field_len, first_of_array, chunk_json, chunk_value, empty_reasoning, is_done, jfield, jobject, null_or, one1, slot_of, stop_event, take_slot,
    text_increment, text_step, usage_after, zero_usage,
};
use crate::protocol::context::ReqCtx;
use crate::protocol::google::{
    finish_reason_name as gemini_finish_name, finish_reason_of, gemini_usage, gemini_usage_value, map_finish_reason,
    unmap_stop_reason, usage_from_gemini, usage_object,
};
use crate::protocol::ir::{
    block_view, events_view, event_view, lemma_events_push, BlockV, ContentBlock, CoreStreamEvent, DeltaV, EventV,
    Protocol, StopReason, StreamDelta, Usage,
};
use crate::protocol::raw::{body_view, chunk_view, chunks_view, BodyV, ChunkStage, ChunkV, RawBody, RawChunk};
use crate::protocol::signature::{tag_signature, tag_spec, untag_signature, untag_spec, SIG_GEMINI};
use crate::protocol::stream_state::{map_get, opened, signed_block, DecodeV, EncodeV, StreamDecodeState, StreamEncodeState};
use crate::text::{concat_str, dec, str_eq, trim_str, u64_to_dec};

verus! {

/// `<=` on block indexes.
pub open spec fn index_leq() -> spec_fn(usize, usize) -> bool {
    |a: usize, b: usize| a <= b
}

/// The message start, on the first chunk with a model version.
pub open spec fn gem_start(st: DecodeV, data: JsonV) -> (DecodeV, Seq<EventV>) {
    if data.field("modelVersion"@) is Some && !st.started {
        (
            DecodeV { started: true, ..st },
            seq![EventV::MessageStart { id: str_or_empty(data, "responseId"@), model: str_or_empty(data, "modelVersion"@) }],
        )
    } else {
        (st, Seq::empty())
    }
}

/// A reasoning block carrying only a signature.
pub open spec fn carrier_block(sig: Seq<char>) -> BlockV {
    BlockV::Reasoning { text: Seq::empty(), signature: Some(sig), redacted: false }
}

/// A signature-only reasoning block at `i`, opened and closed at once.
pub open spec fn carrier_events(i: usize, sig: Seq<char>) -> Seq<EventV> {
    seq![
        EventV::BlockStart { index: i, block: carrier_block(sig) },
        EventV::BlockDelta { index: i, delta: DeltaV::ReasoningSignature { signature: sig } },
        EventV::BlockStop { index: i, block: Some(carrier_block(sig)) },
    ]
}

/// The state with the next block index taken.
pub open spec fn bump(st: DecodeV) -> DecodeV {
    DecodeV { next: (st.next + 1) as usize, ..st }
}

/// The id of a function call: its own when non-empty, else its name, `-call-`
/// and the next block index.
pub open spec fn call_id(fc: JsonV, next: usize) -> Seq<char> {
    match fc.field_str("id"@) {
        Some(i) => if i.len() > 0 {
            i
        } else {
            str_or_empty(fc, "name"@) + "-call-"@ + dec(next as nat)
        },
        None => str_or_empty(fc, "name"@) + "-call-"@ + dec(next as nat),
    }
}

/// The signature bound to a function call: the part's `thoughtSignature`,
/// or the call's when the part has none, tagged as Gemini's.
pub open spec fn call_signature(p: JsonV, fc: JsonV) -> Option<Seq<char>> {
    tag_spec(
        "gem:"@,
        match p.field("thoughtSignature"@) {
            Some(v) => v.str_of(),
            None => fc.field_str("thoughtSignature"@),
        },
    )
}

/// The tool use block of a function call with the given input.
pub open spec fn call_use(p: JsonV, fc: JsonV, next: usize, input: JsonV) -> BlockV {
    BlockV::ToolUse {
        id: call_id(fc, next),
        name: str_or_empty(fc, "name"@),
        namespace: None,
        input,
        signature: call_signature(p, fc),
    }
}

/// The arguments of a function call (an empty object when absent).
pub open spec fn call_args(fc: JsonV) -> JsonV {
    match fc.field("args"@) {
        Some(a) => a,
        None => JsonV::Object(Seq::empty()),
    }
}

/// A function call part: a signature carrier first when the call is signed,
/// then a tool use block opened, given its arguments and closed at once.
pub open spec fn fcall_step(st: DecodeV, p: JsonV, fc: JsonV) -> (DecodeV, Seq<EventV>) {
    let (s1, e1) = match call_signature(p, fc) {
        Some(s) => (bump(st), carrier_events(st.next, s)),
        None => (st, Seq::empty()),
    };
    let idx = s1.next;
    (
        bump(s1),
        e1 + seq![
            EventV::BlockStart { index: idx, block: call_use(p, fc, st.next, JsonV::Object(Seq::empty())) },
            EventV::BlockDelta { index: idx, delta: DeltaV::ToolInput { partial_json: json_text(call_args(fc)) } },
            EventV::BlockStop { index: idx, block: Some(call_use(p, fc, st.next, call_args(fc))) },
        ],
    )
}

/// A part signature: on a thought part it signs the reasoning block (opened
/// if needed); on another part it becomes a signature carrier.
pub open spec fn sig_step(st: DecodeV, sig: Option<Seq<char>>, thought: bool) -> (DecodeV, Seq<EventV>) {
    match sig {
        None => (st, Seq::empty()),
        Some(s) => if thought {
            let (s1, idx, new) = slot_of(st, "reasoning"@);
            let s2 = if new { DecodeV { open: opened(s1.open, idx), ..s1 } } else { s1 };
            let s3 = DecodeV { blocks: s2.blocks.insert(idx, signed_block(map_get(s2.blocks, idx), s)), ..s2 };
            let starts = if new {
                seq![EventV::BlockStart { index: idx, block: empty_reasoning() }]
            } else {
                Seq::empty()
            };
            (s3, starts.push(EventV::BlockDelta { index: idx, delta: DeltaV::ReasoningSignature { signature: s } }))
        } else {
            (bump(st), carrier_events(st.next, s))
        },
    }
}

/// Whether a part is a thought.
pub open spec fn is_thought(p: JsonV) -> bool {
    match p.field("thought"@) {
        Some(v) => match v.bool_of() {
            Some(b) => b,
            None => false,
        },
        None => false,
    }
}

/// A text or thought part: its text, then its signature; a part with neither
/// gives nothing.
pub open spec fn text_part_step(st: DecodeV, p: JsonV) -> (DecodeV, Seq<EventV>) {
    let text = str_or_empty(p, "text"@);
    let sig = tag_spec("gem:"@, p.field_str("thoughtSignature"@));
    if text.len() == 0 && sig is None {
        (st, Seq::empty())
    } else {
        let (s1, e1) = text_step(st, Some(text), is_thought(p));
        let (s2, e2) = sig_step(s1, sig, is_thought(p));
        (s2, e1 + e2)
    }
}

/// One part.
pub open spec fn part_step(st: DecodeV, p: JsonV) -> (DecodeV, Seq<EventV>) {
    match p.field("functionCall"@) {
        Some(fc) => fcall_step(st, p, fc),
        None => text_part_step(st, p),
    }
}

/// The parts, in order.
pub open spec fn parts_run(st: DecodeV, ps: Seq<JsonV>) -> (DecodeV, Seq<EventV>)
    decreases ps.len(),
{
    if ps.len() == 0 {
        (st, Seq::empty())
    } else {
        let (s1, es) = parts_run(st, ps.drop_last());
        let (s2, es2) = part_step(s1, ps.last());
        (s2, es + es2)
    }
}

/// A stop event for each of `idxs` with the block accumulated there.
pub open spec fn stops_of(blocks: Map<usize, BlockV>, idxs: Seq<usize>) -> Seq<EventV> {
    idxs.map_values(|i: usize| EventV::BlockStop { index: i, block: map_get(blocks, i) })
}

/// The chunk's usage, if it has any.
pub open spec fn opt_usage(data: JsonV) -> Option<crate::protocol::ir::Usage> {
    match data.field("usageMetadata"@) {
        Some(u) => Some(gemini_usage(u)),
        None => None,
    }
}

/// A finish reason closes every open block in index order, then reports
/// the stop reason and usage and stops the message; without one, a chunk's
/// usage is reported alone.
pub open spec fn gem_finish(st: DecodeV, data: JsonV, cand: JsonV) -> (DecodeV, Seq<EventV>) {
    match cand.field_str("finishReason"@) {
        Some(fr) => (
            DecodeV { open: Seq::empty(), ..st },
            stops_of(st.blocks, st.open.sort_by(index_leq())) + seq![
                EventV::MessageDelta { stop_reason: finish_reason_of(fr), usage: opt_usage(data) },
                EventV::MessageStop,
            ],
        ),
        None => match data.field("usageMetadata"@) {
            Some(u) => (st, seq![EventV::MessageDelta { stop_reason: None, usage: Some(gemini_usage(u)) }]),
            None => (st, Seq::empty()),
        },
    }
}

/// Whether a chunk has no candidates (absent, or an empty list).
pub open spec fn no_candidates(data: JsonV) -> bool {
    match data.field("candidates"@) {
        None => true,
        Some(c) => match c.array_of() {
            Some(a) => a.len() == 0,
            None => false,
        },
    }
}

/// A chunk without candidates: a blocked prompt ends the message as
/// filtered, with an error naming the reason; otherwise only its usage is
/// reported.
pub open spec fn blocked_events(data: JsonV) -> Seq<EventV> {
    let usage_only = match data.field("usageMetadata"@) {
        Some(u) => seq![EventV::MessageDelta { stop_reason: None, usage: Some(gemini_usage(u)) }],
        None => Seq::empty(),
    };
    match data.field("promptFeedback"@) {
        Some(pf) => match pf.field_str("blockReason"@) {
            Some(br) => seq![
                EventV::MessageDelta { stop_reason: Some(StopReason::ContentFilter), usage: opt_usage(data) },
                EventV::Error { message: "gemini prompt blocked: "@ + br },
                EventV::MessageStop,
            ],
            None => usage_only,
        },
        None => usage_only,
    }
}

/// The first candidate, or `null`.
pub open spec fn first_candidate(data: JsonV) -> JsonV {
    match data.field("candidates"@) {
        Some(c) => match c.array_of() {
            Some(a) => if a.len() > 0 {
                a[0]
            } else {
                JsonV::Null
            },
            None => JsonV::Null,
        },
        None => JsonV::Null,
    }
}

/// The parts of a candidate's content.
pub open spec fn candidate_parts(cand: JsonV) -> Seq<JsonV> {
    match cand.field("content"@) {
        Some(c) => match c.field("parts"@) {
            Some(p) => match p.array_of() {
                Some(a) => a,
                None => Seq::empty(),
            },
            None => Seq::empty(),
        },
        None => Seq::empty(),
    }
}

/// The events of one JSON chunk.
pub open spec fn gem_data_events(st: DecodeV, data: JsonV) -> (DecodeV, Seq<EventV>) {
    let (s1, e1) = gem_start(st, data);
    if no_candidates(data) {
        (s1, e1 + blocked_events(data))
    } else {
        let cand = first_candidate(data);
        let (s2, e2) = parts_run(s1, candidate_parts(cand));
        let (s3, e3) = gem_finish(s2, data, cand);
        (s3, e1 + e2 + e3)
    }
}

/// Decoding one Gemini chunk: a `[DONE]` some gateways add stops the
/// message; a chunk that is not JSON gives nothing.
pub open spec fn gemini_decode(st: DecodeV, data: BodyV, raw: Seq<char>) -> (DecodeV, Seq<EventV>) {
    if is_done(data) {
        (st, seq![EventV::MessageStop])
    } else {
        match chunk_value(data, raw) {
            Some(v) => gem_data_events(st, v),
            None => (st, Seq::empty()),
        }
    }
}

/// How many block indexes decoding a chunk may hand out: two per part.
pub open spec fn gemini_chunk_slots(data: BodyV, raw: Seq<char>) -> nat {
    match chunk_value(data, raw) {
        Some(v) => 2 * candidate_parts(first_candidate(v)).len(),
        None => 0,
    }
}

// ---- executable ----

pub proof fn lemma_index_leq_total()
    ensures
        total_ordering(index_leq()),
{
    let r = index_leq();
    assert(vstd::relations::reflexive(r));
    assert(vstd::relations::antisymmetric(r));
    assert(vstd::relations::transitive(r));
    assert(vstd::relations::strongly_connected(r));
}

/// `v` in increasing order.
pub(crate) fn sorted_indexes(v: &Vec<usize>) -> (r: Vec<usize>)
    ensures
        r@ == v@.sort_by(index_leq()),
{
    broadcast use vstd::seq_lib::group_to_multiset_ensures;
    let mut out: Vec<usize> = Vec::new();
    let mut k: usize = 0;
    proof {
        assert(v@.take(0) =~= Seq::<usize>::empty());
        assert(out@ =~= Seq::<usize>::empty());
    }
    while k < v.len()
        invariant
            k <= v@.len(),
            sorted_by(out@, index_leq()),
            out@.to_multiset() == v@.take(k as int).to_multiset(),
        decreases v@.len() - k,
    {
        let x = v[k];
        let mut p: usize = 0;
        while p < out.len() && out[p] <= x
            invariant
                p <= out@.len(),
                forall|j: int| 0 <= j < p ==> out@[j] <= x,
            decreases out@.len() - p,
        {
            p = p + 1;
        }
        let ghost before = out@;
        out.insert(p, x);
        proof {
            let after = out@;
            assert(after.remove(p as int) =~= before);
            assert(after[p as int] == x);
            vstd::seq_lib::to_multiset_remove(after, p as int);
            assert(after.to_multiset().remove(x) == before.to_multiset());
            after.to_multiset_ensures();
            assert(after.contains(x));
            assert(after.to_multiset().count(x) > 0);
            assert(after.to_multiset() =~= before.to_multiset().insert(x));
            assert(v@.take(k + 1) =~= v@.take(k as int).push(x));
            vstd::seq_lib::to_multiset_build(v@.take(k as int), x);
            assert(v@.take(k + 1).to_multiset() =~= v@.take(k as int).to_multiset().insert(x));
            assert forall|i: int, j: int| 0 <= i < j < after.len() implies #[trigger] index_leq()(after[i], after[j]) by {
                if p < before.len() {
                    assert(!(before[p as int] <= x) || false);
                }
                if i < p && j < p {
                    assert(after[i] == before[i] && after[j] == before[j]);
                } else if i < p && j == p {
                    assert(after[i] == before[i]);
                } else if i < p && j > p {
                    assert(after[i] == before[i] && after[j] == before[j - 1]);
                } else if i == p {
                    assert(after[j] == before[j - 1]);
                    assert(index_leq()(before[p as int], before[j - 1]));
                } else {
                    assert(after[i] == before[i - 1] && after[j] == before[j - 1]);
                }
            }
        }
        k = k + 1;
    }
    proof {
        assert(v@.take(v@.len() as int) == v@);
        lemma_index_leq_total();
        v@.lemma_sort_by_ensures(index_leq());
        vstd::seq_lib::lemma_sorted_unique(out@, v@.sort_by(index_leq()), index_leq());
    }
    out
}


fn push_event(out: &mut Vec<CoreStreamEvent>, e: CoreStreamEvent)
    ensures
        events_view(final(out)@) == events_view(old(out)@).push(event_view(e)),
{
    let ghost before = out@;
    out.push(e);
    proof {
        lemma_events_push(before, e);
    }
}

fn carrier_of(sig: &String) -> (r: ContentBlock)
    ensures
        block_view(r) == carrier_block(sig@),
{
    ContentBlock::Reasoning { text: String::new(), signature: Some(sig.clone()), redacted: false }
}

fn push_carrier(st: &mut StreamDecodeState, out: &mut Vec<CoreStreamEvent>, sig: &String)
    requires
        old(st).dv().next < usize::MAX,
    ensures
        final(st).dv() == bump(old(st).dv()),
        events_view(final(out)@) == events_view(old(out)@) + carrier_events(old(st).dv().next, sig@),
{
    let ghost out0 = events_view(out@);
    let c = st.next_block_index;
    st.next_block_index = c + 1;
    push_event(out, CoreStreamEvent::BlockStart { index: c, block: carrier_of(sig) });
    push_event(out, CoreStreamEvent::BlockDelta { index: c, delta: StreamDelta::ReasoningSignature { signature: sig.clone() } });
    push_event(out, CoreStreamEvent::BlockStop { index: c, block: Some(carrier_of(sig)) });
    proof {
        assert(events_view(out@) =~= out0 + carrier_events(c, sig@));
    }
}

fn call_use_of(id: &String, name: &String, input: Json, signature: &Option<String>) -> (r: ContentBlock)
    ensures
        block_view(r) == (BlockV::ToolUse {
            id: id@,
            name: name@,
            namespace: None,
            input: input@,
            signature: match *signature {
                Some(s) => Some(s@),
                None => None,
            },
        }),
{
    let sig = match signature {
        Some(s) => Some(s.clone()),
        None => None,
    };
    ContentBlock::ToolUse { id: id.clone(), name: name.clone(), namespace: None, input, signature: sig }
}

fn str_of_json(v: Option<&Json>) -> (r: Option<String>)
    ensures
        match r {
            Some(s) => match v {
                Some(j) => j@.str_of() == Some(s@),
                None => false,
            },
            None => match v {
                Some(j) => j@.str_of() is None,
                None => true,
            },
        },
{
    match v {
        Some(j) => match j.as_str() {
            Some(s) => Some(s.to_string()),
            None => None,
        },
        None => None,
    }
}

fn opt_chars_of(o: &Option<String>) -> (r: Option<String>)
    ensures
        match r {
            Some(s) => *o matches Some(t) && t@ == s@,
            None => o is None,
        },
{
    match o {
        Some(s) => Some(s.clone()),
        None => None,
    }
}

fn function_call(st: &mut StreamDecodeState, out: &mut Vec<CoreStreamEvent>, p: &Json, fc: &Json)
    requires
        old(st).dv().next + 2 <= usize::MAX,
    ensures
        final(st).dv() == fcall_step(old(st).dv(), p@, fc@).0,
        events_view(final(out)@) == events_view(old(out)@) + fcall_step(old(st).dv(), p@, fc@).1,
        final(st).dv().next <= old(st).dv().next + 2,
{
    let ghost s0 = st.dv();
    let ghost out0 = events_view(out@);
    let name = str_field(fc, "name");
    let id = match fc.get_str("id") {
        Some(i) => if i.unicode_len() > 0 {
            i.to_string()
        } else {
            let a = concat_str(name.as_str(), "-call-");
            concat_str(a.as_str(), u64_to_dec(st.next_block_index as u64).as_str())
        },
        None => {
            let a = concat_str(name.as_str(), "-call-");
            concat_str(a.as_str(), u64_to_dec(st.next_block_index as u64).as_str())
        },
    };
    proof {
        assert(id@ == call_id(fc@, s0.next));
    }
    let args = match fc.get("args") {
        Some(a) => a.deep_clone(),
        None => Json::Object(Vec::new()),
    };
    proof {
        assert(crate::json::fields_view(Seq::<(String, Json)>::empty()) =~= Seq::<(Seq<char>, JsonV)>::empty());
        assert(args@ == call_args(fc@));
    }
    let raw_sig = match p.get("thoughtSignature") {
        Some(v) => str_of_json(Some(v)),
        None => str_of_json(fc.get("thoughtSignature")),
    };
    let signature = tag_signature(SIG_GEMINI, raw_sig);
    proof {
        reveal_strlit("gem:");
        assert(SIG_GEMINI@ == "gem:"@);
        assert(match signature {
            Some(t) => call_signature(p@, fc@) == Some(t@),
            None => call_signature(p@, fc@) is None,
        });
    }
    if let Some(sig) = &signature {
        push_carrier(st, out, sig);
    } else {
        proof {
            assert(out0 + Seq::<EventV>::empty() == out0);
        }
    }
    let idx = st.next_block_index;
    st.next_block_index = idx + 1;
    let text = json_to_string(&args);
    push_event(out, CoreStreamEvent::BlockStart { index: idx, block: call_use_of(&id, &name, Json::Object(Vec::new()), &signature) });
    push_event(out, CoreStreamEvent::BlockDelta { index: idx, delta: StreamDelta::ToolInput { partial_json: text } });
    push_event(out, CoreStreamEvent::BlockStop { index: idx, block: Some(call_use_of(&id, &name, args, &signature)) });
    proof {
        let r = fcall_step(s0, p@, fc@);
        assert(st.dv() == r.0);
        assert(events_view(out@) =~= out0 + r.1);
    }
}

fn part_signature(st: &mut StreamDecodeState, out: &mut Vec<CoreStreamEvent>, sig: &Option<String>, thought: bool)
    requires
        old(st).dv().next < usize::MAX,
    ensures
        final(st).dv() == sig_step(old(st).dv(), match *sig {
            Some(s) => Some(s@),
            None => None,
        }, thought).0,
        events_view(final(out)@) == events_view(old(out)@) + sig_step(old(st).dv(), match *sig {
            Some(s) => Some(s@),
            None => None,
        }, thought).1,
        final(st).dv().next <= old(st).dv().next + 1,
{
    let ghost s0 = st.dv();
    let ghost out0 = events_view(out@);
    match sig {
        None => {
            proof {
                assert(out0 + Seq::<EventV>::empty() == out0);
            }
        },
        Some(s) => {
            if thought {
                let (idx, is_new) = take_slot(st, "reasoning");
                if is_new {
                    st.open_block(idx);
                    push_event(
                        out,
                        CoreStreamEvent::BlockStart {
                            index: idx,
                            block: ContentBlock::Reasoning { text: String::new(), signature: None, redacted: false },
                        },
                    );
                }
                st.push_signature(idx, s.as_str());
                push_event(out, CoreStreamEvent::BlockDelta { index: idx, delta: StreamDelta::ReasoningSignature { signature: s.clone() } });
                proof {
                    let starts = if is_new {
                        seq![EventV::BlockStart { index: idx, block: empty_reasoning() }]
                    } else {
                        Seq::empty()
                    };
                    let d = EventV::BlockDelta { index: idx, delta: DeltaV::ReasoningSignature { signature: s@ } };
                    assert(events_view(out@) =~= out0 + starts.push(d));
                }
            } else {
                push_carrier(st, out, s);
            }
        },
    }
}

fn text_part(st: &mut StreamDecodeState, out: &mut Vec<CoreStreamEvent>, p: &Json)
    requires
        old(st).dv().next + 2 <= usize::MAX,
    ensures
        final(st).dv() == text_part_step(old(st).dv(), p@).0,
        events_view(final(out)@) == events_view(old(out)@) + text_part_step(old(st).dv(), p@).1,
        final(st).dv().next <= old(st).dv().next + 2,
{
    let ghost s0 = st.dv();
    let ghost out0 = events_view(out@);
    let thought = match p.get("thought") {
        Some(v) => match v.as_bool() {
            Some(b) => b,
            None => false,
        },
        None => false,
    };
    let text = str_field(p, "text");
    let raw_sig = match p.get_str("thoughtSignature") {
        Some(x) => Some(x.to_string()),
        None => None,
    };
    let sig = tag_signature(SIG_GEMINI, raw_sig);
    proof {
        reveal_strlit("gem:");
        assert(SIG_GEMINI@ == "gem:"@);
        assert(thought == is_thought(p@));
    }
    if text.unicode_len() == 0 && sig.is_none() {
        proof {
            assert(out0 + Seq::<EventV>::empty() == out0);
        }
        return;
    }
    text_increment(st, out, Some(text.as_str()), thought);
    let ghost mid = events_view(out@);
    part_signature(st, out, &sig, thought);
    proof {
        let (s1, e1) = text_step(s0, Some(text@), thought);
        let (s2, e2) = sig_step(s1, match sig {
            Some(x) => Some(x@),
            None => None,
        }, thought);
        assert(events_view(out@) =~= out0 + (e1 + e2));
    }
}

fn one_part(st: &mut StreamDecodeState, out: &mut Vec<CoreStreamEvent>, p: &Json)
    requires
        old(st).dv().next + 2 <= usize::MAX,
    ensures
        final(st).dv() == part_step(old(st).dv(), p@).0,
        events_view(final(out)@) == events_view(old(out)@) + part_step(old(st).dv(), p@).1,
        final(st).dv().next <= old(st).dv().next + 2,
{
    match p.get("functionCall") {
        Some(fc) => function_call(st, out, p, fc),
        None => text_part(st, out, p),
    }
}

fn all_parts(st: &mut StreamDecodeState, out: &mut Vec<CoreStreamEvent>, ps: &Vec<Json>)
    requires
        old(st).dv().next + 2 * ps@.len() <= usize::MAX,
    ensures
        final(st).dv() == parts_run(old(st).dv(), items_view(ps@)).0,
        events_view(final(out)@) == events_view(old(out)@) + parts_run(old(st).dv(), items_view(ps@)).1,
{
    let ghost s0 = st.dv();
    let ghost out0 = events_view(out@);
    proof {
        lemma_items_view(ps@);
        assert(out0 + Seq::<EventV>::empty() == out0);
    }
    let ghost pv = items_view(ps@);
    let mut k: usize = 0;
    while k < ps.len()
        invariant
            k <= ps@.len() == pv.len(),
            pv == items_view(ps@),
            forall|j: int| 0 <= j < ps@.len() ==> #[trigger] pv[j] == json_view(ps@[j]),
            st.dv() == parts_run(s0, pv.take(k as int)).0,
            events_view(out@) == out0 + parts_run(s0, pv.take(k as int)).1,
            st.dv().next <= s0.next + 2 * k,
            s0.next + 2 * ps@.len() <= usize::MAX,
        decreases ps@.len() - k,
    {
        proof {
            assert(pv.take(k + 1).drop_last() == pv.take(k as int));
            assert(pv.take(k + 1).last() == pv[k as int]);
        }
        one_part(st, out, &ps[k]);
        proof {
            let prev = parts_run(s0, pv.take(k as int));
            assert(events_view(out@) =~= out0 + (prev.1 + part_step(prev.0, pv[k as int]).1));
        }
        k = k + 1;
    }
    proof {
        assert(pv.take(pv.len() as int) == pv);
    }
}

fn usage_event(data: &Json) -> (r: Option<crate::protocol::ir::Usage>)
    ensures
        r == opt_usage(data@),
{
    match data.get("usageMetadata") {
        Some(u) => Some(usage_from_gemini(u)),
        None => None,
    }
}

fn finish_chunk(st: &mut StreamDecodeState, out: &mut Vec<CoreStreamEvent>, data: &Json, cand: Option<&Json>)
    ensures
        final(st).dv() == gem_finish(old(st).dv(), data@, null_or(match cand {
            Some(c) => Some(c@),
            None => None,
        })).0,
        events_view(final(out)@) == events_view(old(out)@) + gem_finish(old(st).dv(), data@, null_or(match cand {
            Some(c) => Some(c@),
            None => None,
        })).1,
{
    let ghost s0 = st.dv();
    let ghost out0 = events_view(out@);
    let fr = match cand {
        Some(c) => c.get_str("finishReason"),
        None => None,
    };
    if let Some(f) = fr {
        let open = sorted_indexes(&st.open_blocks);
        st.open_blocks.clear();
        let mut k: usize = 0;
        proof {
            assert(open@.take(0).map_values(|i: usize| EventV::BlockStop { index: i, block: map_get(s0.blocks, i) })
                =~= Seq::<EventV>::empty());
            assert(out0 + Seq::<EventV>::empty() == out0);
        }
        while k < open.len()
            invariant
                k <= open@.len(),
                st.dv() == (DecodeV { open: Seq::empty(), ..s0 }),
                events_view(out@) == out0 + stops_of(s0.blocks, open@.take(k as int)),
            decreases open@.len() - k,
        {
            let i = open[k];
            let e = stop_event(st, i);
            push_event(out, e);
            proof {
                assert(stops_of(s0.blocks, open@.take(k + 1)) =~= stops_of(s0.blocks, open@.take(k as int)).push(
                    EventV::BlockStop { index: i, block: map_get(s0.blocks, i) },
                ));
            }
            k = k + 1;
        }
        proof {
            assert(open@.take(open@.len() as int) == open@);
        }
        let usage = usage_event(data);
        push_event(out, CoreStreamEvent::MessageDelta { stop_reason: map_finish_reason(f), usage });
        push_event(out, CoreStreamEvent::MessageStop);
        proof {
            let tail = seq![
                EventV::MessageDelta { stop_reason: finish_reason_of(f@), usage: opt_usage(data@) },
                EventV::MessageStop,
            ];
            assert(events_view(out@) =~= out0 + (stops_of(s0.blocks, open@) + tail));
        }
    } else {
        match data.get("usageMetadata") {
            Some(u) => {
                push_event(out, CoreStreamEvent::MessageDelta { stop_reason: None, usage: Some(usage_from_gemini(u)) });
                proof {
                    assert(events_view(out@) =~= out0 + seq![
                        EventV::MessageDelta { stop_reason: None, usage: Some(gemini_usage(u@)) },
                    ]);
                }
            },
            None => {
                proof {
                    assert(out0 + Seq::<EventV>::empty() == out0);
                }
            },
        }
    }
}

fn blocked(out: &mut Vec<CoreStreamEvent>, data: &Json)
    ensures
        events_view(final(out)@) == events_view(old(out)@) + blocked_events(data@),
{
    let ghost out0 = events_view(out@);
    let br = match data.get("promptFeedback") {
        Some(pf) => pf.get_str("blockReason"),
        None => None,
    };
    if let Some(b) = br {
        let usage = usage_event(data);
        push_event(out, CoreStreamEvent::MessageDelta { stop_reason: Some(StopReason::ContentFilter), usage });
        push_event(out, CoreStreamEvent::Error { message: concat_str("gemini prompt blocked: ", b) });
        push_event(out, CoreStreamEvent::MessageStop);
        proof {
            assert(events_view(out@) =~= out0 + blocked_events(data@));
        }
    } else {
        match data.get("usageMetadata") {
            Some(u) => {
                push_event(out, CoreStreamEvent::MessageDelta { stop_reason: None, usage: Some(usage_from_gemini(u)) });
                proof {
                    assert(events_view(out@) =~= out0 + blocked_events(data@));
                }
            },
            None => {
                proof {
                    assert(events_view(out@) =~= out0 + blocked_events(data@));
                }
            },
        }
    }
}

impl GoogleGenAiAdapter {
    /// Decodes one upstream Gemini chunk into core events (see
    /// [`gemini_decode`]).
    /// Decodes one upstream Gemini chunk when the block indexes it may hand
    /// out fit: `None`, with the state unchanged, when the next block index
    /// plus the slots the chunk may take would pass `usize::MAX`; otherwise
    /// what [`GoogleGenAiAdapter::decode`] gives.
    pub fn try_decode(&self, ctx: &ReqCtx, st: &mut StreamDecodeState, chunk: &RawChunk) -> (r: Option<
        Vec<CoreStreamEvent>,
    >)
        ensures
            match r {
                None => old(st).next_block_index + gemini_chunk_slots(body_view(chunk.data), chunk.raw@)
                    > usize::MAX && *final(st) == *old(st),
                Some(evs) => old(st).next_block_index + gemini_chunk_slots(body_view(chunk.data), chunk.raw@)
                    <= usize::MAX && final(st).dv() == gemini_decode(
                    old(st).dv(),
                    body_view(chunk.data),
                    chunk.raw@,
                ).0 && events_view(evs@) == gemini_decode(old(st).dv(), body_view(chunk.data), chunk.raw@).1,
            },
    {
        let slots: u128 = match chunk_json(chunk) {
            None => 0,
            Some(v) => match first_of_array(&v, "candidates") {
                None => 0,
                Some(cand) => match cand.get("content") {
                    None => 0,
                    Some(content) => 2 * (array_field_len(content, "parts") as u128),
                },
            },
        };
        assert(slots == gemini_chunk_slots(body_view(chunk.data), chunk.raw@));
        if (st.next_block_index as u128) + slots <= (usize::MAX as u128) {
            Some(self.decode(ctx, st, chunk))
        } else {
            None
        }
    }

    pub fn decode(&self, _ctx: &ReqCtx, st: &mut StreamDecodeState, chunk: &RawChunk) -> (r: Vec<CoreStreamEvent>)
        requires
            old(st).next_block_index + gemini_chunk_slots(body_view(chunk.data), chunk.raw@) <= usize::MAX,
        ensures
            final(st).dv() == gemini_decode(old(st).dv(), body_view(chunk.data), chunk.raw@).0,
            events_view(r@) == gemini_decode(old(st).dv(), body_view(chunk.data), chunk.raw@).1,
    {
        let mut out: Vec<CoreStreamEvent> = Vec::new();
        proof {
            assert(events_view(out@) =~= Seq::<EventV>::empty());
        }
        if let RawBody::Text { text } = &chunk.data {
            let t = trim_str(text.as_str());
            if str_eq(t.as_str(), "[DONE]") {
                push_event(&mut out, CoreStreamEvent::MessageStop);
                proof {
                    assert(events_view(out@) =~= seq![EventV::MessageStop]);
                }
                return out;
            }
        }
        let data = match chunk_json(chunk) {
            Some(d) => d,
            None => {
                return out;
            },
        };
        let ghost s0 = st.dv();
        if data.get("modelVersion").is_some() && !st.message_started {
            st.message_started = true;
            let id = str_field(&data, "responseId");
            let model = str_field(&data, "modelVersion");
            push_event(&mut out, CoreStreamEvent::MessageStart { id, model });
        }
        proof {
            assert(st.dv() == gem_start(s0, data@).0);
            assert(events_view(out@) =~= gem_start(s0, data@).1);
        }
        let ghost s1 = st.dv();
        let ghost e1 = events_view(out@);
        let cands: Option<&Vec<Json>> = match data.get("candidates") {
            Some(c) => c.as_array(),
            None => None,
        };
        let none = match data.get("candidates") {
            None => true,
            Some(c) => match c.as_array() {
                Some(a) => a.len() == 0,
                None => false,
            },
        };
        proof {
            if let Some(a) = cands {
                lemma_items_view(a@);
            }
            assert(none == no_candidates(data@));
        }
        if none {
            blocked(&mut out, &data);
            return out;
        }
        let cand: Option<&Json> = match cands {
            Some(a) => if a.len() > 0 {
                Some(&a[0])
            } else {
                None
            },
            None => None,
        };
        let ghost cv = null_or(match cand {
            Some(c) => Some(c@),
            None => None,
        });
        proof {
            assert(cv == first_candidate(data@));
        }
        let parts: Option<&Vec<Json>> = match cand {
            Some(c) => match c.get("content") {
                Some(ct) => match ct.get("parts") {
                    Some(p) => p.as_array(),
                    None => None,
                },
                None => None,
            },
            None => None,
        };
        if let Some(ps) = parts {
            proof {
                lemma_items_view(ps@);
                assert(items_view(ps@) == candidate_parts(cv));
                assert(gemini_chunk_slots(body_view(chunk.data), chunk.raw@) == 2 * ps@.len());
            }
            all_parts(st, &mut out, ps);
        } else {
            proof {
                assert(candidate_parts(cv) =~= Seq::<JsonV>::empty());
                assert(events_view(out@) + Seq::<EventV>::empty() == events_view(out@));
            }
        }
        let ghost e2s = events_view(out@);
        finish_chunk(st, &mut out, &data, cand);
        proof {
            let (t1, f1) = gem_start(s0, data@);
            let (t2, f2) = parts_run(t1, candidate_parts(cv));
            let (t3, f3) = gem_finish(t2, data@, cv);
            assert(events_view(out@) =~= f1 + f2 + f3);
        }
        out
    }
}

// ---- encoding for a client ----

/// A Gemini client chunk: one candidate with the given parts, its finish
/// reason when there is one, and the usage when there is one.
pub open spec fn gemini_chunk_value(parts: JsonV, finish: Option<Seq<char>>, usage: Option<JsonV>) -> JsonV {
    let cand0 = JsonV::Object(
        seq![
            ("content"@, JsonV::Object(seq![("role"@, JsonV::Str("model"@)), ("parts"@, parts)])),
            ("index"@, JsonV::PosInt(0)),
        ],
    );
    let cand = match finish {
        Some(fr) => with_field(cand0, "finishReason"@, JsonV::Str(fr)),
        None => cand0,
    };
    let data = JsonV::Object(seq![("candidates"@, JsonV::Array(seq![cand]))]);
    match usage {
        Some(u) => with_field(data, "usageMetadata"@, u),
        None => data,
    }
}

/// A client chunk carrying a JSON value, its raw line being the value's text.
pub open spec fn gem_json_chunk(v: JsonV) -> ChunkV {
    ChunkV {
        stage: ChunkStage::ClientChunk,
        protocol: Protocol::GoogleGenai,
        provider: None,
        event: None,
        data: BodyV::Json(v),
        raw: json_text(v),
    }
}

/// The `functionCall` of a tool use: name and arguments, and its signature
/// when the block carries a non-empty Gemini one.
pub open spec fn function_call_value(name: Seq<char>, input: JsonV, signature: Option<Seq<char>>) -> JsonV {
    let fc = JsonV::Object(seq![("name"@, JsonV::Str(name)), ("args"@, input)]);
    match untag_spec("gem:"@, signature) {
        Some(sig) => if sig.len() > 0 {
            with_field(fc, "thoughtSignature"@, JsonV::Str(sig))
        } else {
            fc
        },
        None => fc,
    }
}

/// Encoding one core event for a Gemini client. Gemini has no start or stop
/// events: a tool call goes out whole at its block start, text and reasoning
/// increments as text parts, and the message delta carries the finish reason
/// (when known) and the merged usage (once any was seen).
pub open spec fn gemini_encode(st: EncodeV, e: EventV) -> (EncodeV, Seq<ChunkV>) {
    match e {
        EventV::BlockStart { index: _, block } => match block {
            BlockV::ToolUse { id: _, name, namespace: _, input, signature } => (
                st,
                seq![gem_json_chunk(gemini_chunk_value(
                    JsonV::Array(seq![JsonV::Object(seq![("functionCall"@, function_call_value(name, input, signature))])]),
                    None,
                    None,
                ))],
            ),
            _ => (st, Seq::empty()),
        },
        EventV::BlockDelta { index: _, delta } => match delta {
            DeltaV::Text { text } => if text.len() > 0 {
                (st, seq![gem_json_chunk(gemini_chunk_value(JsonV::Array(seq![JsonV::Object(seq![("text"@, JsonV::Str(text))])]), None, None))])
            } else {
                (st, Seq::empty())
            },
            DeltaV::Reasoning { text } => if text.len() > 0 {
                (st, seq![gem_json_chunk(gemini_chunk_value(JsonV::Array(seq![JsonV::Object(seq![("text"@, JsonV::Str(text))])]), None, None))])
            } else {
                (st, Seq::empty())
            },
            _ => (st, Seq::empty()),
        },
        EventV::MessageDelta { stop_reason, usage } => {
            let s1 = EncodeV { usage: usage_after(st, usage), ..st };
            let fr = match stop_reason {
                Some(r) => Some(gemini_finish_name(Some(r))),
                None => None,
            };
            let u = if s1.usage == zero_usage() {
                None
            } else {
                Some(gemini_usage_value(s1.usage))
            };
            (s1, seq![gem_json_chunk(gemini_chunk_value(JsonV::Array(Seq::empty()), fr, u))])
        },
        EventV::Error { message } => (
            st,
            seq![gem_json_chunk(JsonV::Object(seq![("error"@, JsonV::Object(seq![("message"@, JsonV::Str(message))]))]))],
        ),
        _ => (st, Seq::empty()),
    }
}

/// What encoding an event needs: a usage total that fits a `u32`.
pub open spec fn gemini_encode_fits(st: EncodeV, e: EventV) -> bool {
    match e {
        EventV::MessageDelta { stop_reason: _, usage } => usage_after(st, usage).input_tokens + usage_after(
            st,
            usage,
        ).output_tokens <= u32::MAX,
        _ => true,
    }
}

fn gemini_chunk(parts: Json, finish: Option<&str>, usage: Option<Json>) -> (r: RawChunk)
    ensures
        chunk_view(r) == gem_json_chunk(gemini_chunk_value(parts@, match finish {
            Some(f) => Some(f@),
            None => None,
        }, match usage {
            Some(u) => Some(u@),
            None => None,
        })),
{
    let mut content: Vec<(String, Json)> = Vec::new();
    content.push(jfield("role", Json::Str("model".to_string())));
    content.push(jfield("parts", parts));
    proof {
        crate::json::lemma_fields_view(content@);
        assert(crate::json::fields_view(content@) =~= seq![("role"@, JsonV::Str("model"@)), ("parts"@, parts@)]);
    }
    let mut cfs: Vec<(String, Json)> = Vec::new();
    cfs.push(jfield("content", jobject(content)));
    cfs.push(jfield("index", Json::Num(JsonNum::PosInt(0))));
    proof {
        crate::json::lemma_fields_view(cfs@);
    }
    let mut cand = jobject(cfs);
    proof {
        let exp = gemini_chunk_value(parts@, None, None)->Object_0[0].1->Array_0[0];
        assert(crate::json::fields_view(cfs@) =~= exp->Object_0);
    }
    if let Some(fr) = finish {
        cand = with_member(cand, "finishReason".to_string(), Json::Str(fr.to_string()));
    }
    let mut arr: Vec<Json> = Vec::new();
    arr.push(cand);
    proof {
        lemma_items_view(arr@);
        assert(items_view(arr@) =~= seq![cand@]);
    }
    let mut data = one1("candidates", Json::Array(arr));
    if let Some(u) = usage {
        data = with_member(data, "usageMetadata".to_string(), u);
    }
    RawChunk::json(ChunkStage::ClientChunk, Protocol::GoogleGenai, None, data)
}

fn one_part_array(k: &str, v: Json) -> (r: Json)
    ensures
        r@ == JsonV::Array(seq![JsonV::Object(seq![(k@, v@)])]),
{
    let mut arr: Vec<Json> = Vec::new();
    arr.push(one1(k, v));
    proof {
        lemma_items_view(arr@);
        assert(items_view(arr@) =~= seq![arr@[0]@]);
    }
    Json::Array(arr)
}

fn function_call_json(name: &String, input: &Json, signature: &Option<String>) -> (r: Json)
    ensures
        r@ == function_call_value(name@, input@, match *signature {
            Some(s) => Some(s@),
            None => None,
        }),
{
    let mut fs: Vec<(String, Json)> = Vec::new();
    fs.push(jfield("name", Json::Str(name.clone())));
    fs.push(jfield("args", input.deep_clone()));
    proof {
        crate::json::lemma_fields_view(fs@);
        assert(crate::json::fields_view(fs@) =~= seq![("name"@, JsonV::Str(name@)), ("args"@, input@)]);
    }
    let fc = jobject(fs);
    let sig = match signature {
        Some(s) => untag_signature(SIG_GEMINI, Some(s.as_str())),
        None => untag_signature(SIG_GEMINI, None),
    };
    proof {
        reveal_strlit("gem:");
        assert(SIG_GEMINI@ == "gem:"@);
    }
    match sig {
        Some(x) => if x.unicode_len() > 0 {
            with_member(fc, "thoughtSignature".to_string(), Json::Str(x))
        } else {
            fc
        },
        None => fc,
    }
}

impl GoogleGenAiAdapter {
    /// Encodes one core event for a Gemini client (see [`gemini_encode`]).
    pub fn encode(&self, _ctx: &ReqCtx, ev: &CoreStreamEvent, st: &mut StreamEncodeState) -> (r: Vec<RawChunk>)
        requires
            gemini_encode_fits(old(st).ev(), event_view(*ev)),
        ensures
            final(st).ev() == gemini_encode(old(st).ev(), event_view(*ev)).0,
            chunks_view(r@) == gemini_encode(old(st).ev(), event_view(*ev)).1,
    {
        let mut out: Vec<RawChunk> = Vec::new();
        match ev {
            CoreStreamEvent::BlockStart { block, .. } => {
                if let ContentBlock::ToolUse { name, input, signature, .. } = block {
                    let fc = function_call_json(name, input, signature);
                    out.push(gemini_chunk(one_part_array("functionCall", fc), None, None));
                }
            },
            CoreStreamEvent::BlockDelta { delta, .. } => match delta {
                StreamDelta::Text { text } => {
                    if text.unicode_len() > 0 {
                        out.push(gemini_chunk(one_part_array("text", Json::Str(text.clone())), None, None));
                    }
                },
                StreamDelta::Reasoning { text } => {
                    if text.unicode_len() > 0 {
                        out.push(gemini_chunk(one_part_array("text", Json::Str(text.clone())), None, None));
                    }
                },
                _ => {},
            },
            CoreStreamEvent::MessageDelta { stop_reason, usage } => {
                if let Some(u) = usage {
                    st.merge_usage(u);
                }
                let fr = match stop_reason {
                    Some(r) => Some(unmap_stop_reason(Some(*r))),
                    None => None,
                };
                let u = if st.usage_acc == Usage::zero() {
                    None
                } else {
                    Some(usage_object(&st.usage_acc))
                };
                proof {
                    assert(items_view(Seq::<Json>::empty()) =~= Seq::<JsonV>::empty());
                }
                out.push(gemini_chunk(Json::Array(Vec::new()), fr, u));
            },
            CoreStreamEvent::Error { message } => {
                let inner = one1("message", Json::Str(message.clone()));
                out.push(RawChunk::json(ChunkStage::ClientChunk, Protocol::GoogleGenai, None, one1("error", inner)));
            },
            _ => {},
        }
        proof {
            assert(chunks_view(out@) =~= gemini_encode(old(st).ev(), event_view(*ev)).1);
        }
        out
    }
}
} // verus!
