//! Per-stream state of the stream adapters. An adapter is a shared singleton;
//! the gateway keeps one of these per streamed request, so encoding and
//! decoding stay re-entrant.
use vstd::prelude::*;
use crate::assoc::{IndexMap, StrMap};
use crate::protocol::ir::{clone_opt, BlockV, ContentBlock, Usage};
use crate::text::concat_str;

verus! {

/// State of encoding core events for a client.
#[derive(Debug)]
pub struct StreamEncodeState {
    /// Block indexes opened towards the client (their start was sent).
    pub open_blocks: Vec<usize>,
    /// Usage merged over all message deltas, field by field the largest:
    /// upstreams report in parts, and the final event must carry the total.
    pub usage_acc: Usage,
    /// Starting blocks recorded at block start (tool metadata and the like),
    /// read back when a closing event needs the whole item.
    pub blocks: IndexMap<ContentBlock>,
    /// Accumulated delta payloads per block (text, or partial JSON of tool
    /// input), for closing events that carry the whole content.
    pub delta_acc: IndexMap<String>,
    /// The response id from the message start.
    pub message_id: String,
    /// Core block index to client `tool_calls` ordinal.
    pub tool_ordinals: IndexMap<usize>,
    /// The next `tool_calls` ordinal to hand out.
    pub next_tool_ordinal: usize,
}

/// The larger of two counts.
pub open spec fn max_u32(a: u32, b: u32) -> u32 {
    if a >= b {
        a
    } else {
        b
    }
}

/// Field-wise maximum of two usages.
pub open spec fn merged_usage(a: Usage, b: Usage) -> Usage {
    Usage {
        input_tokens: max_u32(a.input_tokens, b.input_tokens),
        output_tokens: max_u32(a.output_tokens, b.output_tokens),
        cache_read_tokens: max_u32(a.cache_read_tokens, b.cache_read_tokens),
        cache_write_tokens: max_u32(a.cache_write_tokens, b.cache_write_tokens),
        reasoning_tokens: max_u32(a.reasoning_tokens, b.reasoning_tokens),
    }
}

fn max_of(a: u32, b: u32) -> (r: u32)
    ensures
        r == max_u32(a, b),
{
    if a >= b {
        a
    } else {
        b
    }
}

/// Whether some block has ordinal `o`.
pub open spec fn ordinal_taken(m: Map<usize, usize>, o: usize) -> bool {
    exists|k: usize| #[trigger] m.dom().contains(k) && m[k] == o
}

/// The ordinals handed out so far are exactly `0..next`, each to one block.
pub open spec fn ordinals_dense(m: Map<usize, usize>, next: usize) -> bool {
    &&& forall|k: usize| #[trigger] m.dom().contains(k) ==> m[k] < next
    &&& forall|o: usize| o < next ==> #[trigger] ordinal_taken(m, o)
    &&& forall|a: usize, b: usize|
        m.dom().contains(a) && m.dom().contains(b) && a != b ==> #[trigger] m[a] != #[trigger] m[b]
}

/// The encoding state as mathematical values.
pub struct EncodeV {
    pub open: Seq<usize>,
    pub usage: Usage,
    pub blocks: Map<usize, BlockV>,
    pub deltas: Map<usize, Seq<char>>,
    pub message_id: Seq<char>,
    pub ordinals: Map<usize, usize>,
    pub next_ordinal: usize,
}

impl StreamEncodeState {
    /// This state as values.
    pub open spec fn ev(&self) -> EncodeV {
        EncodeV {
            open: self.open_blocks@,
            usage: self.usage_acc,
            blocks: self.blocks.map(),
            deltas: self.delta_acc.map(),
            message_id: self.message_id@,
            ordinals: self.tool_ordinals.map(),
            next_ordinal: self.next_tool_ordinal,
        }
    }
}

impl StreamEncodeState {
    /// A fresh state: nothing open, zero usage, no ordinals handed out.
    pub fn new() -> (r: StreamEncodeState)
        ensures
            r.open_blocks@.len() == 0,
            r.usage_acc == (Usage {
                input_tokens: 0,
                output_tokens: 0,
                cache_read_tokens: 0,
                cache_write_tokens: 0,
                reasoning_tokens: 0,
            }),
            r.blocks.map() == Map::<usize, BlockV>::empty(),
            r.delta_acc.map() == Map::<usize, Seq<char>>::empty(),
            r.message_id@.len() == 0,
            r.tool_ordinals.map() == Map::<usize, usize>::empty(),
            r.next_tool_ordinal == 0,
            ordinals_dense(r.tool_ordinals.map(), r.next_tool_ordinal),
    {
        StreamEncodeState {
            open_blocks: Vec::new(),
            usage_acc: Usage::zero(),
            blocks: IndexMap::new(),
            delta_acc: IndexMap::new(),
            message_id: String::new(),
            tool_ordinals: IndexMap::new(),
            next_tool_ordinal: 0,
        }
    }

    /// Merges the usage of one message delta: each count becomes the larger of
    /// the two.
    pub fn merge_usage(&mut self, u: &Usage)
        ensures
            final(self).usage_acc == merged_usage(old(self).usage_acc, *u),
            final(self).open_blocks == old(self).open_blocks,
            final(self).blocks == old(self).blocks,
            final(self).delta_acc == old(self).delta_acc,
            final(self).tool_ordinals == old(self).tool_ordinals,
            final(self).next_tool_ordinal == old(self).next_tool_ordinal,
            final(self).message_id == old(self).message_id,
    {
        self.usage_acc = Usage {
            input_tokens: max_of(self.usage_acc.input_tokens, u.input_tokens),
            output_tokens: max_of(self.usage_acc.output_tokens, u.output_tokens),
            cache_read_tokens: max_of(self.usage_acc.cache_read_tokens, u.cache_read_tokens),
            cache_write_tokens: max_of(self.usage_acc.cache_write_tokens, u.cache_write_tokens),
            reasoning_tokens: max_of(self.usage_acc.reasoning_tokens, u.reasoning_tokens),
        };
    }

    /// Records the starting block of block `index`.
    pub fn note_start(&mut self, index: usize, block: &ContentBlock)
        ensures
            final(self).blocks.map() == old(self).blocks.map().insert(index, block@),
            final(self).open_blocks == old(self).open_blocks,
            final(self).message_id == old(self).message_id,
            final(self).usage_acc == old(self).usage_acc,
            final(self).delta_acc == old(self).delta_acc,
            final(self).tool_ordinals == old(self).tool_ordinals,
            final(self).next_tool_ordinal == old(self).next_tool_ordinal,
    {
        self.blocks.insert(index, block.deep_clone());
    }

    /// Appends a delta payload (text or JSON fragment) to block `index`.
    pub fn push_delta(&mut self, index: usize, text: &str)
        ensures
            final(self).delta_acc.map() == old(self).delta_acc.map().insert(
                index,
                (if old(self).delta_acc.map().dom().contains(index) {
                    old(self).delta_acc.map()[index]
                } else {
                    Seq::empty()
                }) + text@,
            ),
            final(self).open_blocks == old(self).open_blocks,
            final(self).message_id == old(self).message_id,
            final(self).usage_acc == old(self).usage_acc,
            final(self).blocks == old(self).blocks,
            final(self).tool_ordinals == old(self).tool_ordinals,
            final(self).next_tool_ordinal == old(self).next_tool_ordinal,
    {
        let joined = match self.delta_acc.get(index) {
            Some(cur) => concat_str(cur.as_str(), text),
            None => text.to_string(),
        };
        self.delta_acc.insert(index, joined);
    }

    /// The `tool_calls` ordinal of block `index`: the one it already has, or
    /// else the next one, which is handed out to it.
    pub fn tool_ordinal(&mut self, index: usize) -> (r: usize)
        requires
            old(self).tool_ordinals.map().dom().contains(index) || old(self).next_tool_ordinal
                < usize::MAX,
        ensures
            old(self).tool_ordinals.map().dom().contains(index) ==> {
                &&& r == old(self).tool_ordinals.map()[index]
                &&& final(self).tool_ordinals.map() == old(self).tool_ordinals.map()
                &&& final(self).next_tool_ordinal == old(self).next_tool_ordinal
            },
            !old(self).tool_ordinals.map().dom().contains(index) ==> {
                &&& r == old(self).next_tool_ordinal
                &&& final(self).tool_ordinals.map() == old(self).tool_ordinals.map().insert(index, r)
                &&& final(self).next_tool_ordinal == old(self).next_tool_ordinal + 1
            },
            ordinals_dense(old(self).tool_ordinals.map(), old(self).next_tool_ordinal)
                ==> ordinals_dense(final(self).tool_ordinals.map(), final(self).next_tool_ordinal),
            final(self).open_blocks == old(self).open_blocks,
            final(self).message_id == old(self).message_id,
            final(self).usage_acc == old(self).usage_acc,
            final(self).blocks == old(self).blocks,
            final(self).delta_acc == old(self).delta_acc,
    {
        if let Some(o) = self.tool_ordinals.get(index) {
            return *o;
        }
        let o = self.next_tool_ordinal;
        self.next_tool_ordinal = o + 1;
        let ghost m0 = self.tool_ordinals.map();
        self.tool_ordinals.insert(index, o);
        proof {
            let m1 = self.tool_ordinals.map();
            if ordinals_dense(m0, o) {
                assert forall|p: usize| p < o + 1 implies #[trigger] ordinal_taken(m1, p) by {
                    if p == o {
                        assert(m1.dom().contains(index) && m1[index] == p);
                    } else {
                        assert(ordinal_taken(m0, p));
                        let k = choose|k: usize| #[trigger] m0.dom().contains(k) && m0[k] == p;
                        assert(m1.dom().contains(k) && m1[k] == p);
                    }
                }
            }
        }
        o
    }
}

/// State of decoding an upstream stream into core events. Protocols without
/// explicit block boundaries (Gemini: each chunk is a list of parts) need
/// stable block indexes and accumulated block content across chunks.
#[derive(Debug)]
pub struct StreamDecodeState {
    /// Named slot (chosen by the adapter, such as "text") to block index.
    pub block_indexes: StrMap<usize>,
    /// The next block index to hand out.
    pub next_block_index: usize,
    /// Blocks being accumulated, by block index.
    pub blocks: IndexMap<ContentBlock>,
    /// Opened and not yet stopped block indexes, in opening order.
    pub open_blocks: Vec<usize>,
    /// Whether the message start was emitted.
    pub message_started: bool,
    /// Accumulated tool-call argument JSON per block.
    pub args_acc: IndexMap<String>,
}

/// The block a text push leaves at its index: the existing block (or a fresh
/// empty text or reasoning block) with `text` appended when it is a text or
/// reasoning block.
pub open spec fn pushed_text(prev: Option<BlockV>, reasoning: bool, text: Seq<char>) -> BlockV {
    let b = match prev {
        Some(b) => b,
        None => if reasoning {
            BlockV::Reasoning { text: Seq::empty(), signature: None, redacted: false }
        } else {
            BlockV::Text { text: Seq::empty() }
        },
    };
    match b {
        BlockV::Text { text: t } => BlockV::Text { text: t + text },
        BlockV::Reasoning { text: t, signature, redacted } => BlockV::Reasoning {
            text: t + text,
            signature,
            redacted,
        },
        other => other,
    }
}

/// The block a signature push leaves at its index: the existing block (or a
/// fresh empty reasoning block) with the signature set when it is a
/// reasoning block.
pub open spec fn signed_block(prev: Option<BlockV>, signature: Seq<char>) -> BlockV {
    let b = match prev {
        Some(b) => b,
        None => BlockV::Reasoning { text: Seq::empty(), signature: None, redacted: false },
    };
    match b {
        BlockV::Reasoning { text, signature: _, redacted } => BlockV::Reasoning {
            text,
            signature: Some(signature),
            redacted,
        },
        other => other,
    }
}

/// Lookup in a map as an `Option`.
pub open spec fn map_get<K, V>(m: Map<K, V>, k: K) -> Option<V> {
    if m.dom().contains(k) {
        Some(m[k])
    } else {
        None
    }
}

/// No element occurs twice.
pub open spec fn no_repeats(s: Seq<usize>) -> bool {
    forall|i: int, j: int| 0 <= i < j < s.len() ==> #[trigger] s[i] != #[trigger] s[j]
}

/// The slots handed out so far hold distinct indexes below `next`.
pub open spec fn slots_fresh(m: Map<Seq<char>, usize>, next: usize) -> bool {
    &&& forall|k: Seq<char>| #[trigger] m.dom().contains(k) ==> m[k] < next
    &&& forall|a: Seq<char>, b: Seq<char>|
        m.dom().contains(a) && m.dom().contains(b) && a != b ==> #[trigger] m[a] != #[trigger] m[b]
}

fn contains_index(v: &Vec<usize>, x: usize) -> (r: Option<usize>)
    ensures
        match r {
            Some(i) => i < v@.len() && v@[i as int] == x && forall|k: int| 0 <= k < i ==> #[trigger] v@[k] != x,
            None => !v@.contains(x),
        },
{
    let mut i: usize = 0;
    while i < v.len()
        invariant
            i <= v@.len(),
            forall|k: int| 0 <= k < i ==> #[trigger] v@[k] != x,
        decreases v@.len() - i,
    {
        if v[i] == x {
            return Some(i);
        }
        i = i + 1;
    }
    None
}

/// `s` without the first occurrence of `x` (unchanged when `x` is absent).
pub open spec fn remove_first(s: Seq<usize>, x: usize) -> Seq<usize>
    decreases s.len(),
{
    if s.len() == 0 {
        s
    } else if s[0] == x {
        s.drop_first()
    } else {
        seq![s[0]] + remove_first(s.drop_first(), x)
    }
}

proof fn lemma_remove_first_at(s: Seq<usize>, x: usize, pos: int)
    requires
        0 <= pos < s.len(),
        s[pos] == x,
        forall|k: int| 0 <= k < pos ==> #[trigger] s[k] != x,
    ensures
        remove_first(s, x) == s.remove(pos),
    decreases pos,
{
    if pos > 0 {
        let t = s.drop_first();
        assert forall|k: int| 0 <= k < pos - 1 implies #[trigger] t[k] != x by {
            assert(t[k] == s[k + 1]);
        }
        lemma_remove_first_at(t, x, pos - 1);
        assert(s[0] != x);
        assert(seq![s[0]] + t.remove(pos - 1) =~= s.remove(pos));
    } else {
        assert(s.drop_first() =~= s.remove(0));
    }
}

proof fn lemma_remove_first_absent(s: Seq<usize>, x: usize)
    requires
        !s.contains(x),
    ensures
        remove_first(s, x) == s,
    decreases s.len(),
{
    if s.len() > 0 {
        let t = s.drop_first();
        assert(!t.contains(x)) by {
            if t.contains(x) {
                let k = choose|k: int| 0 <= k < t.len() && t[k] == x;
                assert(s[k + 1] == x);
            }
        }
        lemma_remove_first_absent(t, x);
        assert(s[0] != x) by {
            if s[0] == x {
                assert(s.contains(x));
            }
        }
        assert(seq![s[0]] + t =~= s);
    }
}

/// The decoding state as mathematical values.
pub struct DecodeV {
    pub slots: Map<Seq<char>, usize>,
    pub next: usize,
    pub blocks: Map<usize, BlockV>,
    pub open: Seq<usize>,
    pub started: bool,
    pub args: Map<usize, Seq<char>>,
}

/// The open list after opening `i`: unchanged when already open.
pub open spec fn opened(open: Seq<usize>, i: usize) -> Seq<usize> {
    if open.contains(i) {
        open
    } else {
        open.push(i)
    }
}

impl StreamDecodeState {
    /// This state as values.
    pub open spec fn dv(&self) -> DecodeV {
        DecodeV {
            slots: self.block_indexes.map(),
            next: self.next_block_index,
            blocks: self.blocks.map(),
            open: self.open_blocks@,
            started: self.message_started,
            args: self.args_acc.map(),
        }
    }
}

impl StreamDecodeState {
    /// A fresh state.
    pub fn new() -> (r: StreamDecodeState)
        ensures
            r.block_indexes.map() == Map::<Seq<char>, usize>::empty(),
            r.next_block_index == 0,
            r.blocks.map() == Map::<usize, BlockV>::empty(),
            r.open_blocks@.len() == 0,
            !r.message_started,
            r.args_acc.map() == Map::<usize, Seq<char>>::empty(),
            slots_fresh(r.block_indexes.map(), r.next_block_index),
    {
        StreamDecodeState {
            block_indexes: StrMap::new(),
            next_block_index: 0,
            blocks: IndexMap::new(),
            open_blocks: Vec::new(),
            message_started: false,
            args_acc: IndexMap::new(),
        }
    }

    /// The block index of slot `key`, and whether it was handed out just now:
    /// a slot keeps its index; a new slot takes the next index.
    pub fn slot(&mut self, key: &str) -> (r: (usize, bool))
        requires
            old(self).block_indexes.map().dom().contains(key@) || old(self).next_block_index
                < usize::MAX,
        ensures
            old(self).block_indexes.map().dom().contains(key@) ==> {
                &&& r == (old(self).block_indexes.map()[key@], false)
                &&& final(self).block_indexes.map() == old(self).block_indexes.map()
                &&& final(self).next_block_index == old(self).next_block_index
            },
            !old(self).block_indexes.map().dom().contains(key@) ==> {
                &&& r == (old(self).next_block_index, true)
                &&& final(self).block_indexes.map() == old(self).block_indexes.map().insert(
                    key@,
                    r.0,
                )
                &&& final(self).next_block_index == old(self).next_block_index + 1
            },
            slots_fresh(old(self).block_indexes.map(), old(self).next_block_index) ==> slots_fresh(
                final(self).block_indexes.map(),
                final(self).next_block_index,
            ),
            final(self).blocks == old(self).blocks,
            final(self).open_blocks == old(self).open_blocks,
            final(self).message_started == old(self).message_started,
            final(self).args_acc == old(self).args_acc,
    {
        if let Some(i) = self.block_indexes.get(key) {
            return (*i, false);
        }
        let i = self.next_block_index;
        self.next_block_index = i + 1;
        self.block_indexes.insert(key.to_string(), i);
        (i, true)
    }

    /// Appends `text` to the block accumulated at `index` (see
    /// [`pushed_text`]).
    pub fn push_text(&mut self, index: usize, reasoning: bool, text: &str)
        ensures
            final(self).blocks.map() == old(self).blocks.map().insert(
                index,
                pushed_text(map_get(old(self).blocks.map(), index), reasoning, text@),
            ),
            final(self).block_indexes == old(self).block_indexes,
            final(self).next_block_index == old(self).next_block_index,
            final(self).open_blocks == old(self).open_blocks,
            final(self).message_started == old(self).message_started,
            final(self).args_acc == old(self).args_acc,
    {
        let next = match self.blocks.get(index) {
            Some(b) => match b {
                ContentBlock::Text { text: t } => ContentBlock::Text { text: concat_str(t.as_str(), text) },
                ContentBlock::Reasoning { text: t, signature, redacted } => ContentBlock::Reasoning {
                    text: concat_str(t.as_str(), text),
                    signature: clone_opt(signature),
                    redacted: *redacted,
                },
                other => other.deep_clone(),
            },
            None => if reasoning {
                ContentBlock::Reasoning { text: text.to_string(), signature: None, redacted: false }
            } else {
                ContentBlock::Text { text: text.to_string() }
            },
        };
        proof {
            assert(Seq::<char>::empty() + text@ == text@);
        }
        self.blocks.insert(index, next);
    }

    /// Records the reasoning signature of the block at `index` (see
    /// [`signed_block`]).
    pub fn push_signature(&mut self, index: usize, signature: &str)
        ensures
            final(self).blocks.map() == old(self).blocks.map().insert(
                index,
                signed_block(map_get(old(self).blocks.map(), index), signature@),
            ),
            final(self).block_indexes == old(self).block_indexes,
            final(self).next_block_index == old(self).next_block_index,
            final(self).open_blocks == old(self).open_blocks,
            final(self).message_started == old(self).message_started,
            final(self).args_acc == old(self).args_acc,
    {
        let next = match self.blocks.get(index) {
            Some(b) => match b {
                ContentBlock::Reasoning { text: t, signature: _, redacted } => ContentBlock::Reasoning {
                    text: t.clone(),
                    signature: Some(signature.to_string()),
                    redacted: *redacted,
                },
                other => other.deep_clone(),
            },
            None => ContentBlock::Reasoning {
                text: String::new(),
                signature: Some(signature.to_string()),
                redacted: false,
            },
        };
        self.blocks.insert(index, next);
    }

    /// Registers an opened block; opening an open block again changes nothing.
    pub fn open_block(&mut self, index: usize)
        ensures
            final(self).open_blocks@ == if old(self).open_blocks@.contains(index) {
                old(self).open_blocks@
            } else {
                old(self).open_blocks@.push(index)
            },
            no_repeats(old(self).open_blocks@) ==> no_repeats(final(self).open_blocks@),
            final(self).block_indexes == old(self).block_indexes,
            final(self).next_block_index == old(self).next_block_index,
            final(self).blocks == old(self).blocks,
            final(self).message_started == old(self).message_started,
            final(self).args_acc == old(self).args_acc,
    {
        if contains_index(&self.open_blocks, index).is_none() {
            self.open_blocks.push(index);
        }
    }

    /// Closes a block: removes it from the open list, keeping the order of the
    /// others, and tells whether it was open.
    pub fn close_block(&mut self, index: usize) -> (r: bool)
        ensures
            r == old(self).open_blocks@.contains(index),
            final(self).open_blocks@ == remove_first(old(self).open_blocks@, index),
            r ==> exists|pos: int|
                0 <= pos < old(self).open_blocks@.len() && old(self).open_blocks@[pos] == index
                    && final(self).open_blocks@ == old(self).open_blocks@.remove(pos),
            !r ==> final(self).open_blocks@ == old(self).open_blocks@,
            no_repeats(old(self).open_blocks@) ==> !final(self).open_blocks@.contains(index),
            no_repeats(old(self).open_blocks@) ==> no_repeats(final(self).open_blocks@),
            final(self).block_indexes == old(self).block_indexes,
            final(self).next_block_index == old(self).next_block_index,
            final(self).blocks == old(self).blocks,
            final(self).message_started == old(self).message_started,
            final(self).args_acc == old(self).args_acc,
    {
        match contains_index(&self.open_blocks, index) {
            Some(pos) => {
                let ghost before = self.open_blocks@;
                self.open_blocks.remove(pos);
                proof {
                    lemma_remove_first_at(before, index, pos as int);
                    let after = self.open_blocks@;
                    assert(after == before.remove(pos as int));
                    if no_repeats(before) {
                        assert forall|k: int| 0 <= k < after.len() implies after[k] != index by {
                            if k < pos {
                                assert(after[k] == before[k]);
                            } else {
                                assert(after[k] == before[k + 1]);
                            }
                        }
                        assert forall|a: int, b: int| 0 <= a < b < after.len() implies #[trigger] after[a] != #[trigger] after[b] by {
                            let a1 = if a < pos { a } else { a + 1 };
                            let b1 = if b < pos { b } else { b + 1 };
                            assert(after[a] == before[a1]);
                            assert(after[b] == before[b1]);
                        }
                    }
                }
                true
            },
            None => {
                proof {
                    lemma_remove_first_absent(self.open_blocks@, index);
                }
                false
            },
        }
    }
}


/// Adds `i` to a list of indexes kept as a set; tells whether it was new.
pub(crate) fn index_set_insert(v: &mut Vec<usize>, i: usize) -> (r: bool)
    ensures
        final(v)@ == opened(old(v)@, i),
        r == !old(v)@.contains(i),
{
    if contains_index(v, i).is_none() {
        v.push(i);
        true
    } else {
        false
    }
}

/// Takes `i` out of a list of indexes kept as a set; tells whether it was
/// there.
pub(crate) fn index_set_remove(v: &mut Vec<usize>, i: usize) -> (r: bool)
    ensures
        final(v)@ == remove_first(old(v)@, i),
        r == old(v)@.contains(i),
        !r ==> final(v)@ == old(v)@,
{
    match contains_index(v, i) {
        Some(pos) => {
            proof {
                lemma_remove_first_at(v@, i, pos as int);
            }
            v.remove(pos);
            true
        },
        None => {
            proof {
                lemma_remove_first_absent(v@, i);
            }
            false
        },
    }
}
} // verus!
