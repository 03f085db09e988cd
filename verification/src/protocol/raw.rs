//! Raw HTTP messages and SSE chunks as plugins read and rewrite them, and the
//! verdicts a raw hook returns.
use vstd::prelude::*;
use crate::json::{json_text, json_to_string, Json, JsonV};
use crate::protocol::ir::Protocol;
use crate::text::{eq_ignore_case, str_eq_ignore_case, str_len, utf8_len};

verus! {

/// A raw body.
#[derive(Debug, PartialEq)]
pub enum RawBody {
    Json { value: Json },
    Text { text: String },
    /// Binary data (shown to Lua as base64 text).
    Binary { data: Vec<u8> },
    Empty,
}

impl RawBody {
    pub fn json(value: Json) -> (r: RawBody)
        ensures
            r matches RawBody::Json { value: v } && v@ == value@,
    {
        RawBody::Json { value }
    }

    pub fn text(text: &str) -> (r: RawBody)
        ensures
            r matches RawBody::Text { text: t } && t@ == text@,
    {
        RawBody::Text { text: text.to_string() }
    }

    pub fn as_json(&self) -> (r: Option<&Json>)
        ensures
            match r {
                Some(v) => *self == RawBody::Json { value: *v },
                None => !(*self is Json),
            },
    {
        match self {
            RawBody::Json { value } => Some(value),
            _ => None,
        }
    }

    /// Estimated size in bytes, for sandbox quotas: the compact JSON text of
    /// a JSON body, the bytes of text or binary, nothing for an empty body.
    pub fn approx_len(&self) -> (r: usize)
        ensures
            r == match *self {
                RawBody::Json { value } => utf8_len(json_text(value@)),
                RawBody::Text { text } => utf8_len(text@),
                RawBody::Binary { data } => data@.len(),
                RawBody::Empty => 0,
            },
    {
        match self {
            RawBody::Json { value } => str_len(json_to_string(value).as_str()),
            RawBody::Text { text } => str_len(text.as_str()),
            RawBody::Binary { data } => data.len(),
            RawBody::Empty => 0,
        }
    }

    pub fn as_text(&self) -> (r: Option<&str>)
        ensures
            match r {
                Some(t) => *self matches RawBody::Text { text } && text@ == t@,
                None => !(*self is Text),
            },
    {
        match self {
            RawBody::Text { text } => Some(text.as_str()),
            _ => None,
        }
    }
}

/// The mathematical value of a [`RawBody`].
pub enum BodyV {
    Json(JsonV),
    Text(Seq<char>),
    Binary(Seq<u8>),
    Empty,
}

pub open spec fn body_view(b: RawBody) -> BodyV {
    match b {
        RawBody::Json { value } => BodyV::Json(value@),
        RawBody::Text { text } => BodyV::Text(text@),
        RawBody::Binary { data } => BodyV::Binary(data@),
        RawBody::Empty => BodyV::Empty,
    }
}

/// Stage of a whole-message hook.
#[derive(Debug, Clone, Copy, PartialEq, Eq, Structural)]
pub enum RawStage {
    ClientRequest,
    UpstreamRequest,
    UpstreamResponse,
    ClientResponse,
}

/// Stage of a streamed-chunk hook.
#[derive(Debug, Clone, Copy, PartialEq, Eq, Structural)]
pub enum ChunkStage {
    UpstreamChunk,
    ClientChunk,
}

/// Header list as pairs of character sequences.
pub open spec fn headers_view(hs: Seq<(String, String)>) -> Seq<(Seq<char>, Seq<char>)> {
    hs.map_values(|h: (String, String)| (h.0@, h.1@))
}

/// Value of the first header named `name`, ignoring ASCII case.
pub open spec fn header_lookup(hs: Seq<(Seq<char>, Seq<char>)>, name: Seq<char>) -> Option<
    Seq<char>,
>
    decreases hs.len(),
{
    if hs.len() == 0 {
        None
    } else if eq_ignore_case(hs[0].0, name) {
        Some(hs[0].1)
    } else {
        header_lookup(hs.drop_first(), name)
    }
}

/// The header list after setting `name` to `value`: the first match keeps its
/// spelling and gets the new value; without a match the header is appended.
pub open spec fn header_set(hs: Seq<(Seq<char>, Seq<char>)>, name: Seq<char>, value: Seq<char>) -> Seq<
    (Seq<char>, Seq<char>),
>
    decreases hs.len(),
{
    if hs.len() == 0 {
        seq![(name, value)]
    } else if eq_ignore_case(hs[0].0, name) {
        hs.update(0, (hs[0].0, value))
    } else {
        seq![hs[0]] + header_set(hs.drop_first(), name, value)
    }
}

/// The header list without any header named `name`, order kept.
pub open spec fn header_remove(hs: Seq<(Seq<char>, Seq<char>)>, name: Seq<char>) -> Seq<
    (Seq<char>, Seq<char>),
> {
    hs.filter(|h: (Seq<char>, Seq<char>)| !eq_ignore_case(h.0, name))
}

/// A whole HTTP message at one of the four non-streamed stages.
#[derive(Debug, PartialEq)]
pub struct RawMessage {
    pub stage: RawStage,
    pub protocol: Protocol,
    pub provider: Option<String>,
    pub method: Option<String>,
    pub url: Option<String>,
    pub status: Option<u16>,
    /// Headers in order; names compare case-insensitively.
    pub headers: Vec<(String, String)>,
    pub body: RawBody,
    /// Session identity channel: at the client-request stage a hook may set it
    /// (or clear it) to override the session the host resolved; elsewhere it
    /// only reports the resolved session.
    pub session_id: Option<String>,
}

proof fn lemma_headers_view(hs: Seq<(String, String)>)
    ensures
        headers_view(hs).len() == hs.len(),
        forall|k: int| 0 <= k < hs.len() ==> #[trigger] headers_view(hs)[k] == (hs[k].0@, hs[k].1@),
{
}

proof fn lemma_lookup_at(hs: Seq<(Seq<char>, Seq<char>)>, name: Seq<char>, i: int)
    requires
        0 <= i < hs.len(),
        eq_ignore_case(hs[i].0, name),
        forall|k: int| 0 <= k < i ==> !eq_ignore_case(#[trigger] hs[k].0, name),
    ensures
        header_lookup(hs, name) == Some(hs[i].1),
        header_set(hs, name, hs[i].1) == hs,
    decreases i,
{
    if i > 0 {
        let t = hs.drop_first();
        assert forall|k: int| 0 <= k < i - 1 implies !eq_ignore_case(#[trigger] t[k].0, name) by {
            assert(t[k] == hs[k + 1]);
        }
        lemma_lookup_at(t, name, i - 1);
        assert(seq![hs[0]] + t =~= hs);
    } else {
        assert(hs.update(0, (hs[0].0, hs[0].1)) =~= hs);
    }
}

proof fn lemma_lookup_absent(hs: Seq<(Seq<char>, Seq<char>)>, name: Seq<char>)
    requires
        forall|k: int| 0 <= k < hs.len() ==> !eq_ignore_case(#[trigger] hs[k].0, name),
    ensures
        header_lookup(hs, name) is None,
    decreases hs.len(),
{
    if hs.len() > 0 {
        let t = hs.drop_first();
        assert forall|k: int| 0 <= k < t.len() implies !eq_ignore_case(#[trigger] t[k].0, name) by {
            assert(t[k] == hs[k + 1]);
        }
        lemma_lookup_absent(t, name);
    }
}

proof fn lemma_set_at(
    hs: Seq<(Seq<char>, Seq<char>)>,
    name: Seq<char>,
    value: Seq<char>,
    i: int,
)
    requires
        0 <= i < hs.len(),
        eq_ignore_case(hs[i].0, name),
        forall|k: int| 0 <= k < i ==> !eq_ignore_case(#[trigger] hs[k].0, name),
    ensures
        header_set(hs, name, value) == hs.update(i, (hs[i].0, value)),
    decreases i,
{
    if i > 0 {
        let t = hs.drop_first();
        assert forall|k: int| 0 <= k < i - 1 implies !eq_ignore_case(#[trigger] t[k].0, name) by {
            assert(t[k] == hs[k + 1]);
        }
        lemma_set_at(t, name, value, i - 1);
        assert(seq![hs[0]] + t.update(i - 1, (t[i - 1].0, value)) =~= hs.update(
            i,
            (hs[i].0, value),
        ));
    }
}

proof fn lemma_set_absent(hs: Seq<(Seq<char>, Seq<char>)>, name: Seq<char>, value: Seq<char>)
    requires
        forall|k: int| 0 <= k < hs.len() ==> !eq_ignore_case(#[trigger] hs[k].0, name),
    ensures
        header_set(hs, name, value) == hs.push((name, value)),
    decreases hs.len(),
{
    if hs.len() > 0 {
        let t = hs.drop_first();
        assert forall|k: int| 0 <= k < t.len() implies !eq_ignore_case(#[trigger] t[k].0, name) by {
            assert(t[k] == hs[k + 1]);
        }
        lemma_set_absent(t, name, value);
        assert(seq![hs[0]] + t.push((name, value)) =~= hs.push((name, value)));
    }
}

/// Position of the first header named `name`, ignoring ASCII case.
fn find_header(headers: &Vec<(String, String)>, name: &str) -> (r: Option<usize>)
    ensures
        match r {
            Some(i) => i < headers@.len() && eq_ignore_case(headers@[i as int].0@, name@) && forall|
                k: int,
            | 0 <= k < i ==> !eq_ignore_case(#[trigger] headers@[k].0@, name@),
            None => forall|k: int|
                0 <= k < headers@.len() ==> !eq_ignore_case(#[trigger] headers@[k].0@, name@),
        },
{
    let mut i: usize = 0;
    while i < headers.len()
        invariant
            i <= headers@.len(),
            forall|k: int| 0 <= k < i ==> !eq_ignore_case(#[trigger] headers@[k].0@, name@),
        decreases headers@.len() - i,
    {
        if str_eq_ignore_case(headers[i].0.as_str(), name) {
            return Some(i);
        }
        i = i + 1;
    }
    None
}

impl RawMessage {
    /// The first header named `name`, ignoring ASCII case.
    pub fn header(&self, name: &str) -> (r: Option<&str>)
        ensures
            match r {
                Some(v) => header_lookup(headers_view(self.headers@), name@) == Some(v@),
                None => header_lookup(headers_view(self.headers@), name@) is None,
            },
    {
        let ghost hv = headers_view(self.headers@);
        proof {
            lemma_headers_view(self.headers@);
        }
        match find_header(&self.headers, name) {
            Some(i) => {
                proof {
                    assert forall|k: int| 0 <= k < i implies !eq_ignore_case(#[trigger] hv[k].0, name@) by {
                        assert(hv[k].0 == self.headers@[k].0@);
                    }
                    lemma_lookup_at(hv, name@, i as int);
                }
                Some(self.headers[i].1.as_str())
            },
            None => {
                proof {
                    assert forall|k: int| 0 <= k < hv.len() implies !eq_ignore_case(#[trigger] hv[k].0, name@) by {
                        assert(hv[k].0 == self.headers@[k].0@);
                    }
                    lemma_lookup_absent(hv, name@);
                }
                None
            },
        }
    }

    /// Sets header `name` to `value`: overwrites the first match, else appends.
    pub fn set_header(&mut self, name: &str, value: String)
        ensures
            headers_view(final(self).headers@) == header_set(
                headers_view(old(self).headers@),
                name@,
                value@,
            ),
            final(self).stage == old(self).stage,
            final(self).protocol == old(self).protocol,
            final(self).provider == old(self).provider,
            final(self).method == old(self).method,
            final(self).url == old(self).url,
            final(self).status == old(self).status,
            final(self).body == old(self).body,
            final(self).session_id == old(self).session_id,
    {
        let ghost hv = headers_view(self.headers@);
        proof {
            lemma_headers_view(self.headers@);
        }
        match find_header(&self.headers, name) {
            Some(i) => {
                proof {
                    assert forall|k: int| 0 <= k < i implies !eq_ignore_case(#[trigger] hv[k].0, name@) by {
                        assert(hv[k].0 == self.headers@[k].0@);
                    }
                    lemma_set_at(hv, name@, value@, i as int);
                }
                let (k0, _v0) = self.headers.remove(i);
                self.headers.insert(i, (k0, value));
                proof {
                    lemma_headers_view(self.headers@);
                    assert(headers_view(self.headers@) =~= hv.update(i as int, (hv[i as int].0, value@)));
                }
            },
            None => {
                proof {
                    assert forall|k: int| 0 <= k < hv.len() implies !eq_ignore_case(#[trigger] hv[k].0, name@) by {
                        assert(hv[k].0 == self.headers@[k].0@);
                    }
                    lemma_set_absent(hv, name@, value@);
                }
                self.headers.push((name.to_string(), value));
                proof {
                    lemma_headers_view(self.headers@);
                    assert(headers_view(self.headers@) =~= hv.push((name@, value@)));
                }
            },
        }
    }

    /// Removes every header named `name`.
    pub fn remove_header(&mut self, name: &str)
        ensures
            headers_view(final(self).headers@) == header_remove(
                headers_view(old(self).headers@),
                name@,
            ),
            final(self).stage == old(self).stage,
            final(self).protocol == old(self).protocol,
            final(self).provider == old(self).provider,
            final(self).method == old(self).method,
            final(self).url == old(self).url,
            final(self).status == old(self).status,
            final(self).body == old(self).body,
            final(self).session_id == old(self).session_id,
    {
        let kept = kept_headers(&self.headers, name);
        self.headers = kept;
    }
}

/// The headers not named `name`, in order.
fn kept_headers(headers: &Vec<(String, String)>, name: &str) -> (r: Vec<(String, String)>)
    ensures
        headers_view(r@) == header_remove(headers_view(headers@), name@),
{
    let ghost hv = headers_view(headers@);
    proof {
        lemma_headers_view(headers@);
    }
    let mut kept: Vec<(String, String)> = Vec::new();
    let n = headers.len();
    let mut i: usize = 0;
    while i < n
        invariant
            i <= n == headers@.len() == hv.len(),
            hv == headers_view(headers@),
            forall|k: int| 0 <= k < n ==> #[trigger] hv[k] == (headers@[k].0@, headers@[k].1@),
            headers_view(kept@) == header_remove(hv.take(i as int), name@),
        decreases n - i,
    {
        proof {
            let pred = |h: (Seq<char>, Seq<char>)| !eq_ignore_case(h.0, name@);
            let t = hv.take(i + 1);
            assert(t.drop_last() == hv.take(i as int));
            assert(t.last() == hv[i as int]);
            reveal(Seq::filter);
            assert(header_remove(t, name@) == t.filter(pred));
        }
        if !str_eq_ignore_case(headers[i].0.as_str(), name) {
            let k = headers[i].0.clone();
            let v = headers[i].1.clone();
            let ghost before = kept@;
            kept.push((k, v));
            proof {
                assert(headers_view(kept@) =~= headers_view(before).push(hv[i as int]));
            }
        }
        i = i + 1;
    }
    proof {
        assert(hv.take(n as int) == hv);
    }
    kept
}

/// A streamed SSE chunk.
#[derive(Debug, PartialEq)]
pub struct RawChunk {
    pub stage: ChunkStage,
    pub protocol: Protocol,
    pub provider: Option<String>,
    /// The SSE `event:` field.
    pub event: Option<String>,
    /// The parsed `data:` field (usually JSON).
    pub data: RawBody,
    /// The `data:` line as text.
    pub raw: String,
}

impl RawChunk {
    /// A chunk carrying a JSON value, its raw line being the value's compact
    /// JSON text; no provider.
    pub fn json(stage: ChunkStage, protocol: Protocol, event: Option<String>, value: Json) -> (r: RawChunk)
        ensures
            r.stage == stage,
            r.protocol == protocol,
            r.provider is None,
            r.event == event,
            body_view(r.data) == BodyV::Json(value@),
            r.raw@ == json_text(value@),
    {
        let raw = json_to_string(&value);
        RawChunk { stage, protocol, provider: None, event, data: RawBody::Json { value }, raw }
    }
}

/// The mathematical value of a [`RawChunk`].
pub struct ChunkV {
    pub stage: ChunkStage,
    pub protocol: Protocol,
    pub provider: Option<Seq<char>>,
    pub event: Option<Seq<char>>,
    pub data: BodyV,
    pub raw: Seq<char>,
}

pub open spec fn opt_chars(o: Option<String>) -> Option<Seq<char>> {
    match o {
        Some(s) => Some(s@),
        None => None,
    }
}

pub open spec fn chunk_view(c: RawChunk) -> ChunkV {
    ChunkV {
        stage: c.stage,
        protocol: c.protocol,
        provider: opt_chars(c.provider),
        event: opt_chars(c.event),
        data: body_view(c.data),
        raw: c.raw@,
    }
}

/// The views of a list of chunks.
pub open spec fn chunks_view(s: Seq<RawChunk>) -> Seq<ChunkV> {
    s.map_values(|c: RawChunk| chunk_view(c))
}

/// Appending a chunk appends its view.
pub proof fn lemma_chunks_push(s: Seq<RawChunk>, c: RawChunk)
    ensures
        chunks_view(s.push(c)) == chunks_view(s).push(chunk_view(c)),
{
    assert(chunks_view(s.push(c)) =~= chunks_view(s).push(chunk_view(c)));
}

/// What a whole-message hook decided.
#[derive(Debug, PartialEq)]
pub enum RawVerdict {
    /// Continue with the (possibly rewritten) message.
    Pass,
    /// Answer the client directly, skipping the upstream.
    ShortCircuit { status: u16, headers: Vec<(String, String)>, body: RawBody },
    /// Fail the request with a message.
    Abort { message: String },
}

/// The mathematical value of a [`RawVerdict`].
pub enum VerdictV {
    Pass,
    ShortCircuit { status: u16, headers: Seq<(Seq<char>, Seq<char>)>, body: BodyV },
    Abort { message: Seq<char> },
}

pub open spec fn verdict_view(v: RawVerdict) -> VerdictV {
    match v {
        RawVerdict::Pass => VerdictV::Pass,
        RawVerdict::ShortCircuit { status, headers, body } => VerdictV::ShortCircuit {
            status,
            headers: headers_view(headers@),
            body: body_view(body),
        },
        RawVerdict::Abort { message } => VerdictV::Abort { message: message@ },
    }
}

/// What a chunk hook decided.
#[derive(Debug, Clone, Copy, PartialEq, Eq, Structural)]
pub enum ChunkVerdict {
    Forward,
    Drop,
}

/// Reading a header right after setting it gives the new value, whatever the
/// case of either name.
pub proof fn law_set_then_get(hs: Seq<(Seq<char>, Seq<char>)>, name: Seq<char>, value: Seq<char>)
    ensures
        header_lookup(header_set(hs, name, value), name) == Some(value),
    decreases hs.len(),
{
    if hs.len() == 0 {
        assert(eq_ignore_case(name, name));
    } else if eq_ignore_case(hs[0].0, name) {
    } else {
        law_set_then_get(hs.drop_first(), name, value);
        assert(header_set(hs, name, value).drop_first() == header_set(hs.drop_first(), name, value));
    }
}

/// Setting a header leaves every header of another name as it was, and keeps
/// the order of the list.
pub proof fn law_set_keeps_others(
    hs: Seq<(Seq<char>, Seq<char>)>,
    name: Seq<char>,
    value: Seq<char>,
    other: Seq<char>,
)
    requires
        !eq_ignore_case(other, name),
    ensures
        header_lookup(header_set(hs, name, value), other) == header_lookup(hs, other),
    decreases hs.len(),
{
    crate::text::lemma_eq_ignore_case_equiv();
    if hs.len() == 0 {
        if eq_ignore_case(name, other) {
            assert(eq_ignore_case(other, name));
        }
        let u = header_set(hs, name, value);
        assert(u == seq![(name, value)]);
        assert(u[0].0 == name);
        assert(!eq_ignore_case(u[0].0, other));
        assert(u.drop_first().len() == 0);
        assert(header_lookup(u.drop_first(), other) is None);
    } else if eq_ignore_case(hs[0].0, name) {
        if eq_ignore_case(hs[0].0, other) {
            assert(eq_ignore_case(other, hs[0].0));
            assert(eq_ignore_case(other, name));
        }
        let u = header_set(hs, name, value);
        assert(u == hs.update(0, (hs[0].0, value)));
        assert(u[0].0 == hs[0].0);
        assert(u.drop_first() == hs.drop_first());
        assert(!eq_ignore_case(u[0].0, other));
        assert(header_lookup(u, other) == header_lookup(u.drop_first(), other));
        assert(header_lookup(hs, other) == header_lookup(hs.drop_first(), other));
    } else {
        law_set_keeps_others(hs.drop_first(), name, value, other);
        let u = header_set(hs, name, value);
        assert(u[0] == hs[0]);
        assert(u.drop_first() == header_set(hs.drop_first(), name, value));
    }
}

/// After removing a header no header of that name (in any case) remains.
pub proof fn law_remove_then_absent(hs: Seq<(Seq<char>, Seq<char>)>, name: Seq<char>)
    ensures
        header_lookup(header_remove(hs, name), name) is None,
{
    let pred = |h: (Seq<char>, Seq<char>)| !eq_ignore_case(h.0, name);
    let r = header_remove(hs, name);
    assert(r == hs.filter(pred));
    assert forall|k: int| 0 <= k < r.len() implies !eq_ignore_case(#[trigger] r[k].0, name) by {
        hs.lemma_filter_pred(pred, k);
    }
    lemma_lookup_absent(r, name);
}

} // verus!
