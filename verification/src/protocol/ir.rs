//! The protocol-neutral core representation (Core IR) that every adapter
//! converts to and from.
use vstd::prelude::*;
use crate::json::{Json, JsonNum, JsonV};

verus! {

/// A wire protocol.
#[derive(Debug, Clone, Copy, PartialEq, Eq, Structural, Hash)]
pub enum Protocol {
    OpenAiResponse,
    Anthropic,
    OpenAiChat,
    GoogleGenai,
}

impl Protocol {
    pub open spec fn name(self) -> Seq<char> {
        match self {
            Protocol::OpenAiResponse => "openai-response"@,
            Protocol::Anthropic => "anthropic"@,
            Protocol::OpenAiChat => "openai-chat"@,
            Protocol::GoogleGenai => "google-genai"@,
        }
    }

    /// The protocol's name as plugins see it.
    pub fn as_str(&self) -> (r: &'static str)
        ensures
            r@ == self.name(),
    {
        match self {
            Protocol::OpenAiResponse => "openai-response",
            Protocol::Anthropic => "anthropic",
            Protocol::OpenAiChat => "openai-chat",
            Protocol::GoogleGenai => "google-genai",
        }
    }

    /// All four protocols.
    pub fn all() -> (r: Vec<Protocol>)
        ensures
            r@ == seq![
                Protocol::OpenAiResponse,
                Protocol::Anthropic,
                Protocol::OpenAiChat,
                Protocol::GoogleGenai,
            ],
    {
        let mut v = Vec::new();
        v.push(Protocol::OpenAiResponse);
        v.push(Protocol::Anthropic);
        v.push(Protocol::OpenAiChat);
        v.push(Protocol::GoogleGenai);
        v
    }
}

/// The author of a message.
#[derive(Debug, Clone, Copy, PartialEq, Eq, Structural)]
pub enum Role {
    System,
    User,
    Assistant,
    Tool,
}

/// Why generation stopped.
#[derive(Debug, Clone, Copy, PartialEq, Eq, Structural)]
pub enum StopReason {
    EndTurn,
    MaxTokens,
    StopSequence,
    ToolUse,
    ContentFilter,
    Refusal,
}

/// Where a document's data lives.
#[derive(Debug, Clone, Copy, PartialEq, Eq, Structural)]
pub enum DocSource {
    Base64,
    Url,
    File,
    Text,
}

/// One block of message content.
#[derive(Debug, PartialEq)]
pub enum ContentBlock {
    Text { text: String },
    /// `media_type` is `"url"` when `data` is a URL and `"file"` when it is a
    /// file id; otherwise `data` is base64 of that media type.
    Image { data: String, media_type: String },
    Document { source: DocSource, media_type: String, data: String, name: Option<String> },
    ToolUse {
        id: String,
        name: String,
        namespace: Option<String>,
        input: Json,
        signature: Option<String>,
    },
    ToolResult { tool_use_id: String, content: Vec<ContentBlock>, is_error: bool },
    Reasoning { text: String, signature: Option<String>, redacted: bool },
}

/// The value of an optional string.
pub open spec fn opt_view(o: Option<String>) -> Option<Seq<char>> {
    match o {
        Some(s) => Some(s@),
        None => None,
    }
}

/// The mathematical value of a [`ContentBlock`].
pub enum BlockV {
    Text { text: Seq<char> },
    Image { data: Seq<char>, media_type: Seq<char> },
    Document {
        source: DocSource,
        media_type: Seq<char>,
        data: Seq<char>,
        name: Option<Seq<char>>,
    },
    ToolUse {
        id: Seq<char>,
        name: Seq<char>,
        namespace: Option<Seq<char>>,
        input: JsonV,
        signature: Option<Seq<char>>,
    },
    ToolResult { tool_use_id: Seq<char>, content: Seq<BlockV>, is_error: bool },
    Reasoning { text: Seq<char>, signature: Option<Seq<char>>, redacted: bool },
}

pub open spec fn block_view(b: ContentBlock) -> BlockV
    decreases b, 0int,
{
    match b {
        ContentBlock::Text { text } => BlockV::Text { text: text@ },
        ContentBlock::Image { data, media_type } => BlockV::Image {
            data: data@,
            media_type: media_type@,
        },
        ContentBlock::Document { source, media_type, data, name } => BlockV::Document {
            source,
            media_type: media_type@,
            data: data@,
            name: opt_view(name),
        },
        ContentBlock::ToolUse { id, name, namespace, input, signature } => BlockV::ToolUse {
            id: id@,
            name: name@,
            namespace: opt_view(namespace),
            input: input@,
            signature: opt_view(signature),
        },
        ContentBlock::ToolResult { tool_use_id, content, is_error } => BlockV::ToolResult {
            tool_use_id: tool_use_id@,
            content: blocks_view(content@),
            is_error,
        },
        ContentBlock::Reasoning { text, signature, redacted } => BlockV::Reasoning {
            text: text@,
            signature: opt_view(signature),
            redacted,
        },
    }
}

pub open spec fn blocks_view(s: Seq<ContentBlock>) -> Seq<BlockV>
    decreases s, 1int,
{
    if s.len() == 0 {
        Seq::empty()
    } else {
        seq![block_view(s[0])] + blocks_view(s.drop_first())
    }
}

impl View for ContentBlock {
    type V = BlockV;

    open spec fn view(&self) -> BlockV {
        block_view(*self)
    }
}

pub proof fn lemma_blocks_view(s: Seq<ContentBlock>)
    ensures
        blocks_view(s).len() == s.len(),
        forall|k: int| 0 <= k < s.len() ==> #[trigger] blocks_view(s)[k] == block_view(s[k]),
    decreases s.len(),
{
    if s.len() > 0 {
        lemma_blocks_view(s.drop_first());
        assert forall|k: int| 0 <= k < s.len() implies #[trigger] blocks_view(s)[k] == block_view(
            s[k],
        ) by {
            if k > 0 {
                assert(s.drop_first()[k - 1] == s[k]);
            }
        }
    }
}

/// The view of a sequence is determined elementwise.
pub proof fn lemma_blocks_view_ext(s: Seq<ContentBlock>, t: Seq<BlockV>)
    requires
        s.len() == t.len(),
        forall|k: int| 0 <= k < s.len() ==> #[trigger] t[k] == block_view(s[k]),
    ensures
        blocks_view(s) == t,
{
    lemma_blocks_view(s);
    assert(blocks_view(s) =~= t);
}

pub proof fn lemma_blocks_view_push(s: Seq<ContentBlock>, b: ContentBlock)
    ensures
        blocks_view(s.push(b)) == blocks_view(s).push(block_view(b)),
{
    lemma_blocks_view(s);
    lemma_blocks_view(s.push(b));
    assert(blocks_view(s.push(b)) =~= blocks_view(s).push(block_view(b)));
}

pub proof fn lemma_blocks_view_concat(s: Seq<ContentBlock>, t: Seq<ContentBlock>)
    ensures
        blocks_view(s + t) == blocks_view(s) + blocks_view(t),
{
    lemma_blocks_view(s);
    lemma_blocks_view(t);
    lemma_blocks_view(s + t);
    assert(blocks_view(s + t) =~= blocks_view(s) + blocks_view(t));
}

impl ContentBlock {
    /// A text block.
    pub fn text(s: &str) -> (r: ContentBlock)
        ensures
            r@ == (BlockV::Text { text: s@ }),
    {
        ContentBlock::Text { text: s.to_string() }
    }

    /// Deep copy.
    pub fn deep_clone(&self) -> (r: ContentBlock)
        ensures
            r@ == self@,
        decreases self@,
    {
        match self {
            ContentBlock::Text { text } => ContentBlock::Text { text: text.clone() },
            ContentBlock::Image { data, media_type } => ContentBlock::Image {
                data: data.clone(),
                media_type: media_type.clone(),
            },
            ContentBlock::Document { source, media_type, data, name } => ContentBlock::Document {
                source: *source,
                media_type: media_type.clone(),
                data: data.clone(),
                name: clone_opt(name),
            },
            ContentBlock::ToolUse { id, name, namespace, input, signature } => {
                ContentBlock::ToolUse {
                    id: id.clone(),
                    name: name.clone(),
                    namespace: clone_opt(namespace),
                    input: input.deep_clone(),
                    signature: clone_opt(signature),
                }
            },
            ContentBlock::ToolResult { tool_use_id, content, is_error } => {
                let mut out: Vec<ContentBlock> = Vec::new();
                let mut i: usize = 0;
                while i < content.len()
                    invariant
                        i <= content@.len(),
                        self@ == (BlockV::ToolResult {
                            tool_use_id: tool_use_id@,
                            content: blocks_view(content@),
                            is_error: *is_error,
                        }),
                        out@.len() == i,
                        forall|k: int| 0 <= k < i ==> #[trigger] block_view(out@[k]) == block_view(
                            content@[k],
                        ),
                    decreases content@.len() - i,
                {
                    proof {
                        lemma_blocks_view(content@);
                        assert(decreases_to!(self@ => (self@)->ToolResult_content));
                        assert(decreases_to!(self@ => blocks_view(content@)[i as int]));
                    }
                    let c = content[i].deep_clone();
                    out.push(c);
                    i = i + 1;
                }
                proof {
                    lemma_blocks_view(out@);
                    lemma_blocks_view_ext(content@, blocks_view(out@));
                }
                ContentBlock::ToolResult {
                    tool_use_id: tool_use_id.clone(),
                    content: out,
                    is_error: *is_error,
                }
            },
            ContentBlock::Reasoning { text, signature, redacted } => ContentBlock::Reasoning {
                text: text.clone(),
                signature: clone_opt(signature),
                redacted: *redacted,
            },
        }
    }
}

/// Copy of an optional string.
pub fn clone_opt(o: &Option<String>) -> (r: Option<String>)
    ensures
        opt_view(r) == opt_view(*o),
{
    match o {
        Some(s) => Some(s.clone()),
        None => None,
    }
}

/// Deep copy of a block list.
pub fn clone_blocks(bs: &Vec<ContentBlock>) -> (r: Vec<ContentBlock>)
    ensures
        blocks_view(r@) == blocks_view(bs@),
{
    let mut out: Vec<ContentBlock> = Vec::new();
    let mut i: usize = 0;
    while i < bs.len()
        invariant
            i <= bs@.len(),
            out@.len() == i,
            forall|k: int| 0 <= k < i ==> #[trigger] block_view(out@[k]) == block_view(bs@[k]),
        decreases bs@.len() - i,
    {
        out.push(bs[i].deep_clone());
        i = i + 1;
    }
    proof {
        lemma_blocks_view(out@);
        lemma_blocks_view_ext(bs@, blocks_view(out@));
    }
    out
}

/// One message of a conversation.
#[derive(Debug, PartialEq)]
pub struct Message {
    pub role: Role,
    pub content: Vec<ContentBlock>,
}

/// A message as its role and the views of its blocks.
pub open spec fn message_view(m: Message) -> (Role, Seq<BlockV>) {
    (m.role, blocks_view(m.content@))
}

/// A tool the model may call.
#[derive(Debug, PartialEq)]
pub struct Tool {
    pub name: String,
    pub description: Option<String>,
    pub input_schema: Json,
}

/// Which tools the model may call.
#[derive(Debug, Clone, PartialEq)]
pub enum ToolChoice {
    Auto,
    NoTools,
    Required,
    Tool { name: String },
}

/// The mathematical value of a [`ToolChoice`].
pub enum ToolChoiceV {
    Auto,
    NoTools,
    Required,
    Tool { name: Seq<char> },
}

pub open spec fn tool_choice_view(t: ToolChoice) -> ToolChoiceV {
    match t {
        ToolChoice::Auto => ToolChoiceV::Auto,
        ToolChoice::NoTools => ToolChoiceV::NoTools,
        ToolChoice::Required => ToolChoiceV::Required,
        ToolChoice::Tool { name } => ToolChoiceV::Tool { name: name@ },
    }
}

/// The mathematical value of a [`Tool`].
pub struct ToolV {
    pub name: Seq<char>,
    pub description: Option<Seq<char>>,
    pub input_schema: JsonV,
}

pub open spec fn tool_view(t: Tool) -> ToolV {
    ToolV { name: t.name@, description: opt_view(t.description), input_schema: t.input_schema@ }
}

/// Requested reasoning effort and summary mode.
#[derive(Debug, PartialEq)]
pub struct Reasoning {
    pub effort: Option<String>,
    /// The summary mode, as the client gave it.
    pub summary: Option<Json>,
}

/// Token counts. `input_tokens` includes cached input; `output_tokens` includes
/// reasoning.
#[derive(Debug, Clone, Copy, PartialEq, Eq, Structural, Default)]
pub struct Usage {
    pub input_tokens: u32,
    pub output_tokens: u32,
    pub cache_read_tokens: u32,
    pub cache_write_tokens: u32,
    pub reasoning_tokens: u32,
}

impl Usage {
    /// All counts zero.
    pub fn zero() -> (r: Usage)
        ensures
            r == (Usage {
                input_tokens: 0,
                output_tokens: 0,
                cache_read_tokens: 0,
                cache_write_tokens: 0,
                reasoning_tokens: 0,
            }),
    {
        Usage {
            input_tokens: 0,
            output_tokens: 0,
            cache_read_tokens: 0,
            cache_write_tokens: 0,
            reasoning_tokens: 0,
        }
    }
}

/// A request in core form.
#[derive(Debug, PartialEq)]
pub struct CoreRequest {
    /// Upstream model name (after routing).
    pub model: String,
    /// Model name as the client sent it.
    pub model_alias: String,
    pub system: Vec<ContentBlock>,
    pub messages: Vec<Message>,
    pub tools: Vec<Tool>,
    pub tool_choice: Option<ToolChoice>,
    pub max_tokens: Option<u32>,
    /// Sampling temperature, as the number the client sent.
    pub temperature: Option<JsonNum>,
    pub top_p: Option<JsonNum>,
    pub stop: Vec<String>,
    pub stream: bool,
    pub reasoning: Option<Reasoning>,
    /// Request members no core field holds, by protocol-specific key.
    pub meta: Vec<(String, Json)>,
}

impl CoreRequest {
    /// An empty request for `model`.
    pub fn new(model: &str) -> (r: CoreRequest)
        ensures
            r.model@ == model@,
            r.model_alias@ == Seq::<char>::empty(),
            r.system@.len() == 0,
            r.messages@.len() == 0,
            r.tools@.len() == 0,
            r.tool_choice is None,
            r.max_tokens is None,
            r.temperature is None,
            r.top_p is None,
            r.stop@.len() == 0,
            !r.stream,
            r.reasoning is None,
            r.meta@.len() == 0,
    {
        CoreRequest {
            model: model.to_string(),
            model_alias: String::new(),
            system: Vec::new(),
            messages: Vec::new(),
            tools: Vec::new(),
            tool_choice: None,
            max_tokens: None,
            temperature: None,
            top_p: None,
            stop: Vec::new(),
            stream: false,
            reasoning: None,
            meta: Vec::new(),
        }
    }
}

/// A complete (non-streamed) response in core form.
#[derive(Debug, PartialEq)]
pub struct CoreResponse {
    pub id: String,
    pub model: String,
    pub content: Vec<ContentBlock>,
    pub stop_reason: Option<StopReason>,
    pub usage: Usage,
}

/// An increment inside a streamed block.
#[derive(Debug, Clone, PartialEq)]
pub enum StreamDelta {
    Text { text: String },
    ToolInput { partial_json: String },
    Reasoning { text: String },
    ReasoningSignature { signature: String },
}

/// One event of a streamed response.
#[derive(Debug, PartialEq)]
pub enum CoreStreamEvent {
    MessageStart { id: String, model: String },
    BlockStart { index: usize, block: ContentBlock },
    BlockDelta { index: usize, delta: StreamDelta },
    BlockStop { index: usize, block: Option<ContentBlock> },
    MessageDelta { stop_reason: Option<StopReason>, usage: Option<Usage> },
    MessageStop,
    Error { message: String },
}


/// The mathematical value of a [`StreamDelta`].
pub enum DeltaV {
    Text { text: Seq<char> },
    ToolInput { partial_json: Seq<char> },
    Reasoning { text: Seq<char> },
    ReasoningSignature { signature: Seq<char> },
}

pub open spec fn delta_view(d: StreamDelta) -> DeltaV {
    match d {
        StreamDelta::Text { text } => DeltaV::Text { text: text@ },
        StreamDelta::ToolInput { partial_json } => DeltaV::ToolInput { partial_json: partial_json@ },
        StreamDelta::Reasoning { text } => DeltaV::Reasoning { text: text@ },
        StreamDelta::ReasoningSignature { signature } => DeltaV::ReasoningSignature {
            signature: signature@,
        },
    }
}

/// The mathematical value of a [`CoreStreamEvent`].
pub enum EventV {
    MessageStart { id: Seq<char>, model: Seq<char> },
    BlockStart { index: usize, block: BlockV },
    BlockDelta { index: usize, delta: DeltaV },
    BlockStop { index: usize, block: Option<BlockV> },
    MessageDelta { stop_reason: Option<StopReason>, usage: Option<Usage> },
    MessageStop,
    Error { message: Seq<char> },
}

pub open spec fn opt_block_view(b: Option<ContentBlock>) -> Option<BlockV> {
    match b {
        Some(x) => Some(block_view(x)),
        None => None,
    }
}

pub open spec fn event_view(e: CoreStreamEvent) -> EventV {
    match e {
        CoreStreamEvent::MessageStart { id, model } => EventV::MessageStart { id: id@, model: model@ },
        CoreStreamEvent::BlockStart { index, block } => EventV::BlockStart { index, block: block_view(block) },
        CoreStreamEvent::BlockDelta { index, delta } => EventV::BlockDelta { index, delta: delta_view(delta) },
        CoreStreamEvent::BlockStop { index, block } => EventV::BlockStop { index, block: opt_block_view(block) },
        CoreStreamEvent::MessageDelta { stop_reason, usage } => EventV::MessageDelta { stop_reason, usage },
        CoreStreamEvent::MessageStop => EventV::MessageStop,
        CoreStreamEvent::Error { message } => EventV::Error { message: message@ },
    }
}

/// The views of a list of events.
pub open spec fn events_view(s: Seq<CoreStreamEvent>) -> Seq<EventV> {
    s.map_values(|e: CoreStreamEvent| event_view(e))
}

/// Appending an event appends its view.
pub proof fn lemma_events_push(s: Seq<CoreStreamEvent>, e: CoreStreamEvent)
    ensures
        events_view(s.push(e)) == events_view(s).push(event_view(e)),
{
    assert(events_view(s.push(e)) =~= events_view(s).push(event_view(e)));
}

/// Concatenating event lists concatenates their views.
pub proof fn lemma_events_concat(a: Seq<CoreStreamEvent>, b: Seq<CoreStreamEvent>)
    ensures
        events_view(a + b) == events_view(a) + events_view(b),
{
    assert(events_view(a + b) =~= events_view(a) + events_view(b));
}
} // verus!
