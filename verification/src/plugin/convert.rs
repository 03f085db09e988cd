//! What passes between the host and a plugin's hooks: the context table, the
//! stage names, the size estimate that decides whether a raw body is expanded
//! into a Lua table, and how a hook's returned table reads as a verdict.
use vstd::prelude::*;
use crate::json::{find_field, items_view, fields_view, json_view, lemma_fields_view, lemma_find_field_absent, lemma_find_field_concat, lemma_items_view, Json, JsonNum, JsonV};
use crate::protocol::context::ReqCtx;
use crate::protocol::ir::Protocol;
use crate::protocol::raw::{body_view, headers_view, verdict_view, BodyV, ChunkStage, ChunkVerdict, RawBody, RawChunk, RawMessage, RawStage, RawVerdict, VerdictV};
use crate::text::str_eq;
use crate::plugin::crypto::{base64_std_encode, base64_std_of};
use crate::text::{dec, str_len, u64_to_dec, utf8_len};

verus! {

/// The context table handed to every hook (read-only).
#[derive(Debug)]
pub struct LuaCtx<'a> {
    pub request_id: &'a str,
    pub session_id: Option<&'a str>,
    pub model_alias: &'a str,
    pub client_protocol: &'a str,
    pub upstream_protocol: Option<&'a str>,
    pub provider: Option<&'a str>,
    pub stream: bool,
}

pub open spec fn opt_string_view(o: Option<String>) -> Option<Seq<char>> {
    match o {
        Some(s) => Some(s@),
        None => None,
    }
}

pub open spec fn opt_str_view(o: Option<&str>) -> Option<Seq<char>> {
    match o {
        Some(s) => Some(s@),
        None => None,
    }
}

fn opt_as_str(o: &Option<String>) -> (r: Option<&str>)
    ensures
        opt_str_view(r) == opt_string_view(*o),
{
    match o {
        Some(s) => Some(s.as_str()),
        None => None,
    }
}

impl<'a> LuaCtx<'a> {
    /// The context table of `c`: ids, alias, protocol names, provider and the
    /// streaming flag.
    pub fn of(c: &'a ReqCtx) -> (r: LuaCtx<'a>)
        ensures
            r.request_id@ == c.request_id@,
            opt_str_view(r.session_id) == opt_string_view(c.session_id),
            r.model_alias@ == c.model_alias@,
            r.client_protocol@ == c.client_protocol.name(),
            opt_str_view(r.upstream_protocol) == match c.upstream_protocol {
                Some(p) => Some(p.name()),
                None => None,
            },
            opt_str_view(r.provider) == opt_string_view(c.provider_key),
            r.stream == c.stream,
    {
        LuaCtx {
            request_id: c.request_id.as_str(),
            session_id: opt_as_str(&c.session_id),
            model_alias: c.model_alias.as_str(),
            client_protocol: c.client_protocol.as_str(),
            upstream_protocol: match c.upstream_protocol {
                Some(p) => Some(p.as_str()),
                None => None,
            },
            provider: opt_as_str(&c.provider_key),
            stream: c.stream,
        }
    }
}

/// The name Lua sees for a message stage.
pub open spec fn stage_name(s: RawStage) -> Seq<char> {
    match s {
        RawStage::ClientRequest => "client_request"@,
        RawStage::UpstreamRequest => "upstream_request"@,
        RawStage::UpstreamResponse => "upstream_response"@,
        RawStage::ClientResponse => "client_response"@,
    }
}

pub fn stage_str(s: RawStage) -> (r: &'static str)
    ensures
        r@ == stage_name(s),
{
    match s {
        RawStage::ClientRequest => "client_request",
        RawStage::UpstreamRequest => "upstream_request",
        RawStage::UpstreamResponse => "upstream_response",
        RawStage::ClientResponse => "client_response",
    }
}

/// The name Lua sees for a chunk stage.
pub open spec fn chunk_stage_name(s: ChunkStage) -> Seq<char> {
    match s {
        ChunkStage::UpstreamChunk => "upstream_chunk"@,
        ChunkStage::ClientChunk => "client_chunk"@,
    }
}

pub fn chunk_stage_str(s: ChunkStage) -> (r: &'static str)
    ensures
        r@ == chunk_stage_name(s),
{
    match s {
        ChunkStage::UpstreamChunk => "upstream_chunk",
        ChunkStage::ClientChunk => "client_chunk",
    }
}

/// The protocol name shared with the gateway.
pub fn protocol_str(p: Protocol) -> (r: &'static str)
    ensures
        r@ == p.name(),
{
    p.as_str()
}

/// Estimated serialized size of a JSON value in bytes: literals and numbers
/// by their text, strings plus two quotes, arrays plus brackets and one
/// separator per item, objects plus braces and `"key":` plus a separator per
/// member. Escapes are not counted.
pub open spec fn size_of_json(v: JsonV) -> nat
    decreases v, 0int,
{
    match v {
        JsonV::Null => 4,
        JsonV::Bool(b) => if b {
            4
        } else {
            5
        },
        JsonV::PosInt(u) => utf8_len(dec(u as nat)),
        JsonV::NegInt(i) => if i < 0 {
            1 + utf8_len(dec((-i) as nat))
        } else {
            utf8_len(dec(i as nat))
        },
        JsonV::Float(s) => utf8_len(s),
        JsonV::Str(s) => utf8_len(s) + 2,
        JsonV::Array(items) => size_of_items(items) + items.len() + 2,
        JsonV::Object(fs) => size_of_fields(fs) + 2,
    }
}

pub open spec fn size_of_items(s: Seq<JsonV>) -> nat
    decreases s, 1int,
{
    if s.len() == 0 {
        0
    } else {
        size_of_items(s.drop_last()) + size_of_json(s.last())
    }
}

pub open spec fn size_of_fields(s: Seq<(Seq<char>, JsonV)>) -> nat
    decreases s, 1int,
{
    if s.len() == 0 {
        0
    } else {
        size_of_fields(s.drop_last()) + utf8_len(s.last().0) + 3 + size_of_json(s.last().1)
    }
}

/// `x`, capped at `usize::MAX`.
pub open spec fn capped(x: int) -> int {
    if x > usize::MAX {
        usize::MAX as int
    } else {
        x
    }
}

fn text_len(s: &str) -> (r: usize)
    ensures
        r == utf8_len(s@),
{
    str_len(s)
}

/// The size estimate of `v` (see [`size_of_json`]), capped at `usize::MAX`.
pub fn json_size(v: &Json) -> (r: usize)
    ensures
        r == capped(size_of_json(v@) as int),
    decreases v@,
{
    match v {
        Json::Null => 4,
        Json::Bool(b) => if *b {
            4
        } else {
            5
        },
        Json::Num(JsonNum::PosInt(u)) => text_len(u64_to_dec(*u).as_str()),
        Json::Num(JsonNum::NegInt(i)) => {
            if *i < 0 {
                let m: u64 = if *i == i64::MIN {
                    0x8000_0000_0000_0000u64
                } else {
                    (-*i) as u64
                };
                let n = text_len(u64_to_dec(m).as_str());
                proof {
                    assert(m as nat == (-*i) as nat);
                }
                n.saturating_add(1)
            } else {
                text_len(u64_to_dec(*i as u64).as_str())
            }
        },
        Json::Num(JsonNum::Float(s)) => text_len(s.as_str()),
        Json::Str(s) => text_len(s.as_str()).saturating_add(2),
        Json::Array(items) => {
            let ghost vs = items_view(items@);
            proof {
                lemma_items_view(items@);
            }
            let mut acc: usize = 0;
            let mut i: usize = 0;
            while i < items.len()
                invariant
                    i <= items@.len() == vs.len(),
                    *v == Json::Array(*items),
                    vs == items_view(items@),
                    forall|k: int| 0 <= k < items@.len() ==> #[trigger] vs[k] == json_view(items@[k]),
                    acc == capped(size_of_items(vs.take(i as int)) as int),
                decreases items@.len() - i,
            {
                proof {
                    assert(v@ == JsonV::Array(vs));
                    assert(decreases_to!(v@ => (v@)->Array_0));
                    assert(decreases_to!(v@ => vs[i as int]));
                    assert(vs.take(i + 1).drop_last() == vs.take(i as int));
                    assert(vs.take(i + 1).last() == vs[i as int]);
                }
                let s = json_size(&items[i]);
                acc = acc.saturating_add(s);
                i = i + 1;
            }
            proof {
                assert(vs.take(vs.len() as int) == vs);
            }
            acc.saturating_add(items.len()).saturating_add(2)
        },
        Json::Object(fs) => {
            let ghost vs = fields_view(fs@);
            proof {
                lemma_fields_view(fs@);
            }
            let mut acc: usize = 0;
            let mut i: usize = 0;
            while i < fs.len()
                invariant
                    i <= fs@.len() == vs.len(),
                    *v == Json::Object(*fs),
                    vs == fields_view(fs@),
                    forall|k: int|
                        0 <= k < fs@.len() ==> #[trigger] vs[k] == (fs@[k].0@, json_view(fs@[k].1)),
                    acc == capped(size_of_fields(vs.take(i as int)) as int),
                decreases fs@.len() - i,
            {
                proof {
                    assert(v@ == JsonV::Object(vs));
                    assert(decreases_to!(v@ => (v@)->Object_0));
                    assert(decreases_to!(v@ => vs[i as int]));
                    assert(decreases_to!(v@ => vs[i as int].1));
                    assert(vs.take(i + 1).drop_last() == vs.take(i as int));
                    assert(vs.take(i + 1).last() == vs[i as int]);
                }
                let s = json_size(&fs[i].1);
                let k = text_len(fs[i].0.as_str());
                acc = acc.saturating_add(k).saturating_add(3).saturating_add(s);
                i = i + 1;
            }
            proof {
                assert(vs.take(vs.len() as int) == vs);
            }
            acc.saturating_add(2)
        },
    }
}

/// The size a raw body is judged by: its JSON estimate, text bytes, binary
/// length, or nothing.
pub open spec fn body_size(b: RawBody) -> nat {
    match b {
        RawBody::Json { value } => size_of_json(value@),
        RawBody::Text { text } => utf8_len(text@),
        RawBody::Binary { data } => data@.len(),
        RawBody::Empty => 0,
    }
}

/// Whether a raw body is larger than `limit` bytes and so is not expanded
/// into a Lua table (the hook sees it as absent and truncated).
pub fn body_exceeds(body: &RawBody, limit: usize) -> (r: bool)
    ensures
        r == (capped(body_size(*body) as int) > limit),
{
    match body {
        RawBody::Json { value } => json_size(value) > limit,
        RawBody::Text { text } => text_len(text.as_str()) > limit,
        RawBody::Binary { data } => data.len() > limit,
        RawBody::Empty => false,
    }
}

/// A hook returned a table whose field could not be read as the expected
/// type.
#[derive(Debug)]
pub enum HookValueError {
    /// The field and what it should have been.
    BadField { field: String },
}

/// The field named by an error, by its characters.
pub open spec fn error_field(e: HookValueError) -> Seq<char> {
    match e {
        HookValueError::BadField { field } => field@,
    }
}

/// The text of an integer, with a leading `-` when negative.
pub open spec fn int_text(i: int) -> Seq<char> {
    if i < 0 {
        "-"@ + dec((-i) as nat)
    } else {
        dec(i as nat)
    }
}

/// A table field read as an optional string, as Lua reads one: absent or
/// `null` is `None`, a string is itself, a number is its text; anything else
/// fails.
pub open spec fn opt_string_field(t: JsonV, key: Seq<char>) -> Result<Option<Seq<char>>, ()> {
    match t.field(key) {
        None => Ok(None),
        Some(JsonV::Null) => Ok(None),
        Some(JsonV::Str(s)) => Ok(Some(s)),
        Some(JsonV::PosInt(u)) => Ok(Some(dec(u as nat))),
        Some(JsonV::NegInt(i)) => Ok(Some(int_text(i as int))),
        Some(JsonV::Float(f)) => Ok(Some(f)),
        _ => Err(()),
    }
}

/// Whether a character is an ASCII decimal digit.
pub open spec fn is_digit(c: char) -> bool {
    '0' <= c && c <= '9'
}

/// Whether every character is a decimal digit.
pub open spec fn all_digits(s: Seq<char>) -> bool {
    forall|k: int| 0 <= k < s.len() ==> is_digit(#[trigger] s[k])
}

/// The value of a string of decimal digits.
pub open spec fn digits_val(s: Seq<char>) -> nat
    decreases s.len(),
{
    if s.len() == 0 {
        0
    } else {
        digits_val(s.drop_last()) * 10 + ((s.last() as u32) - 48) as nat
    }
}

/// `s` is digits, one `.`, digits (neither side empty), the `.` at `p`.
pub open spec fn dot_split(s: Seq<char>, p: int) -> bool {
    &&& 0 < p < s.len() - 1
    &&& s[p] == '.'
    &&& forall|k: int| 0 <= k < s.len() && k != p ==> is_digit(#[trigger] s[k])
}

/// The whole number a text gives when read as a non-negative number: digits,
/// or digits with a fraction (which is dropped).
pub open spec fn text_number(s: Seq<char>) -> Option<nat> {
    if s.len() > 0 && all_digits(s) {
        Some(digits_val(s))
    } else if exists|p: int| dot_split(s, p) {
        Some(digits_val(s.take(choose|p: int| dot_split(s, p))))
    } else {
        None
    }
}

/// A whole number as a status code, when it is one.
pub open spec fn status_of(v: Option<nat>) -> Result<Option<u16>, ()> {
    match v {
        Some(n) => if n <= 65535 {
            Ok(Some(n as u16))
        } else {
            Err(())
        },
        None => Err(()),
    }
}

/// A table field read as an optional status code (0 to 65535), as Lua reads
/// one: absent or `null` is `None`; a whole number is itself; a string of
/// digits, or a number or string with a fraction, is its whole part; anything
/// else, or a value out of range, fails.
pub open spec fn opt_u16_field(t: JsonV, key: Seq<char>) -> Result<Option<u16>, ()> {
    match t.field(key) {
        None => Ok(None),
        Some(JsonV::Null) => Ok(None),
        Some(JsonV::PosInt(u)) => status_of(Some(u as nat)),
        Some(JsonV::Float(f)) => status_of(text_number(f)),
        Some(JsonV::Str(x)) => status_of(text_number(x)),
        _ => Err(()),
    }
}

/// A table field read as an optional boolean, by Lua truthiness: absent or
/// `null` is `None`, a boolean is itself, any other value is true. Never
/// fails.
pub open spec fn opt_bool_field(t: JsonV, key: Seq<char>) -> Result<Option<bool>, ()> {
    match t.field(key) {
        None => Ok(None),
        Some(JsonV::Null) => Ok(None),
        Some(JsonV::Bool(b)) => Ok(Some(b)),
        Some(_) => Ok(Some(true)),
    }
}

/// A header pair: a two-element array of strings.
pub open spec fn header_pair(v: JsonV) -> Option<(Seq<char>, Seq<char>)> {
    match v {
        JsonV::Array(kv) => if kv.len() == 2 && kv[0] is Str && kv[1] is Str {
            Some((kv[0]->Str_0, kv[1]->Str_0))
        } else {
            None
        },
        _ => None,
    }
}

/// A header list: an array of header pairs, in order.
pub open spec fn header_list(v: JsonV) -> Option<Seq<(Seq<char>, Seq<char>)>> {
    match v {
        JsonV::Array(items) => if forall|k: int| 0 <= k < items.len() ==> #[trigger] header_pair(items[k]) is Some {
            Some(Seq::new(items.len(), |k: int| header_pair(items[k])->0))
        } else {
            None
        },
        _ => None,
    }
}

/// A Lua value read back as a raw body: nothing is the empty body, a string is
/// text, anything else is JSON.
pub open spec fn body_of_value(v: Option<JsonV>) -> BodyV {
    match v {
        None => BodyV::Empty,
        Some(JsonV::Null) => BodyV::Empty,
        Some(JsonV::Str(s)) => BodyV::Text(s),
        Some(j) => BodyV::Json(j),
    }
}

/// How a whole-message hook's return value reads: only a table with an
/// `action` string acts. `short_circuit` answers with `status` (200 when
/// absent), `headers` (none when absent) and `body`; `abort` fails with
/// `message` (`aborted by plugin` when absent); any other action, or any other
/// value, passes. A field of the wrong type fails with that field's name.
pub open spec fn raw_action(ret: JsonV) -> Result<Option<VerdictV>, Seq<char>> {
    if !(ret is Object) {
        Ok(None)
    } else {
        match opt_string_field(ret, "action"@) {
            Err(()) => Ok(None),
            Ok(None) => Ok(None),
            Ok(Some(a)) => if a == "short_circuit"@ {
                match opt_u16_field(ret, "status"@) {
                    Err(()) => Err("status"@),
                    Ok(st) => {
                        let status: u16 = match st {
                            Some(c) => c,
                            None => 200,
                        };
                        let hv = match ret.field("headers"@) {
                            None => Some(Seq::empty()),
                            Some(JsonV::Null) => Some(Seq::empty()),
                            Some(h) => header_list(h),
                        };
                        match hv {
                            None => Err("headers"@),
                            Some(headers) => Ok(
                                Some(
                                    VerdictV::ShortCircuit {
                                        status,
                                        headers,
                                        body: body_of_value(ret.field("body"@)),
                                    },
                                ),
                            ),
                        }
                    },
                }
            } else if a == "abort"@ {
                match opt_string_field(ret, "message"@) {
                    Err(()) => Err("message"@),
                    Ok(Some(m)) => Ok(Some(VerdictV::Abort { message: m })),
                    Ok(None) => Ok(Some(VerdictV::Abort { message: "aborted by plugin"@ })),
                }
            } else {
                Ok(None)
            }
        }
    }
}

/// A parsed action, by value.
pub open spec fn action_view(r: Result<Option<RawVerdict>, HookValueError>) -> Result<
    Option<VerdictV>,
    Seq<char>,
> {
    match r {
        Ok(None) => Ok(None),
        Ok(Some(v)) => Ok(Some(verdict_view(v))),
        Err(e) => Err(error_field(e)),
    }
}

fn i64_text(i: i64) -> (r: String)
    ensures
        r@ == int_text(i as int),
{
    if i < 0 {
        let m: u64 = if i == i64::MIN {
            9_223_372_036_854_775_808u64
        } else {
            (-i) as u64
        };
        crate::text::concat_str("-", u64_to_dec(m).as_str())
    } else {
        u64_to_dec(i as u64)
    }
}

fn read_opt_string(t: &Json, key: &str) -> (r: Result<Option<String>, ()>)
    ensures
        match r {
            Ok(Some(s)) => opt_string_field(t@, key@) == Ok::<Option<Seq<char>>, ()>(Some(s@)),
            Ok(None) => opt_string_field(t@, key@) == Ok::<Option<Seq<char>>, ()>(None),
            Err(()) => opt_string_field(t@, key@) == Err::<Option<Seq<char>>, ()>(()),
        },
{
    match t.get(key) {
        None => Ok(None),
        Some(Json::Null) => Ok(None),
        Some(Json::Str(s)) => Ok(Some(s.clone())),
        Some(Json::Num(JsonNum::PosInt(u))) => Ok(Some(u64_to_dec(*u))),
        Some(Json::Num(JsonNum::NegInt(i))) => Ok(Some(i64_text(*i))),
        Some(Json::Num(JsonNum::Float(f))) => Ok(Some(f.clone())),
        Some(_) => Err(()),
    }
}

fn is_digit_char(c: char) -> (r: bool)
    ensures
        r == is_digit(c),
{
    '0' <= c && c <= '9'
}

proof fn lemma_digits_step(v: nat, d: nat)
    requires
        d <= 9,
    ensures
        (if v >= 65536 { 65536 } else { v }) * 10 + d >= 65536 ==> v * 10 + d >= 65536,
        v >= 65536 ==> v * 10 + d >= 65536,
{
}

/// The value of the digits `cs[0..hi]`, capped at 65536.
fn capped_digits(cs: &Vec<char>, hi: usize) -> (r: u32)
    requires
        hi <= cs@.len(),
        all_digits(cs@.take(hi as int)),
    ensures
        r == if digits_val(cs@.take(hi as int)) >= 65536 {
            65536
        } else {
            digits_val(cs@.take(hi as int))
        },
{
    let mut acc: u32 = 0;
    let mut k: usize = 0;
    while k < hi
        invariant
            k <= hi <= cs@.len(),
            all_digits(cs@.take(hi as int)),
            acc == if digits_val(cs@.take(k as int)) >= 65536 {
                65536
            } else {
                digits_val(cs@.take(k as int))
            },
        decreases hi - k,
    {
        let c = cs[k];
        assert(cs@.take(hi as int)[k as int] == c);
        assert(is_digit(c));
        let d: u32 = (c as u32) - 48;
        let ghost v = digits_val(cs@.take(k as int));
        assert(cs@.take(k + 1).drop_last() == cs@.take(k as int));
        assert(cs@.take(k + 1).last() == c);
        assert(digits_val(cs@.take(k + 1)) == v * 10 + d);
        proof {
            lemma_digits_step(v, d as nat);
        }
        let next: u32 = acc * 10 + d;
        acc = if next >= 65536 {
            65536
        } else {
            next
        };
        k = k + 1;
    }
    acc
}

/// A text read as a status code (see [`opt_u16_field`]).
fn text_status(s: &str) -> (r: Result<Option<u16>, ()>)
    ensures
        r == status_of(text_number(s@)),
{
    let cs = crate::text::chars_of(s);
    let n = cs.len();
    let mut dot: Option<usize> = None;
    let mut k: usize = 0;
    while k < n
        invariant
            k <= n == cs@.len(),
            cs@ == s@,
            match dot {
                None => forall|j: int| 0 <= j < k ==> is_digit(#[trigger] cs@[j]),
                Some(p) => p < k && cs@[p as int] == '.' && forall|j: int|
                    0 <= j < k && j != p ==> is_digit(#[trigger] cs@[j]),
            },
        decreases n - k,
    {
        let c = cs[k];
        if is_digit_char(c) {
        } else if c == '.' && dot.is_none() {
            dot = Some(k);
        } else {
            proof {
                assert(!is_digit(s@[k as int]));
                assert(!all_digits(s@));
                assert forall|p: int| !dot_split(s@, p) by {
                    if dot_split(s@, p) {
                        assert(p == k);
                        assert(c == '.');
                        let q = dot->0;
                        assert(q != p);
                        assert(is_digit(s@[q as int]));
                    }
                }
            }
            return Err(());
        }
        k = k + 1;
    }
    match dot {
        None => {
            if n == 0 {
                return Err(());
            }
            proof {
                assert(all_digits(s@));
                assert(cs@.take(n as int) == cs@);
            }
            let v = capped_digits(&cs, n);
            if v <= 65535 {
                Ok(Some(v as u16))
            } else {
                Err(())
            }
        },
        Some(p) => {
            proof {
                assert(!is_digit(s@[p as int]));
                assert(!all_digits(s@));
                assert forall|q: int| dot_split(s@, q) implies q == p by {
                    if q != p {
                        assert(is_digit(s@[p as int]));
                    }
                }
            }
            if p == 0 || p + 1 == n {
                proof {
                    assert forall|q: int| !dot_split(s@, q) by {
                        if dot_split(s@, q) {
                            assert(q == p);
                        }
                    }
                }
                return Err(());
            }
            proof {
                assert(dot_split(s@, p as int));
                let c = choose|q: int| dot_split(s@, q);
                assert(c == p);
                assert(all_digits(cs@.take(p as int)));
            }
            let v = capped_digits(&cs, p);
            if v <= 65535 {
                Ok(Some(v as u16))
            } else {
                Err(())
            }
        },
    }
}

fn read_opt_u16(t: &Json, key: &str) -> (r: Result<Option<u16>, ()>)
    ensures
        r == opt_u16_field(t@, key@),
{
    match t.get(key) {
        None => Ok(None),
        Some(Json::Null) => Ok(None),
        Some(Json::Num(JsonNum::PosInt(u))) => if *u <= 65535 {
            Ok(Some(*u as u16))
        } else {
            Err(())
        },
        Some(Json::Num(JsonNum::Float(f))) => text_status(f.as_str()),
        Some(Json::Str(x)) => text_status(x.as_str()),
        Some(_) => Err(()),
    }
}

fn read_opt_bool(t: &Json, key: &str) -> (r: Result<Option<bool>, ()>)
    ensures
        r == opt_bool_field(t@, key@),
{
    match t.get(key) {
        None => Ok(None),
        Some(Json::Null) => Ok(None),
        Some(Json::Bool(b)) => Ok(Some(*b)),
        Some(_) => Ok(Some(true)),
    }
}

/// Reads a header list value (an array of `[name, value]` string pairs).
fn read_headers(v: &Json) -> (r: Option<Vec<(String, String)>>)
    ensures
        match r {
            Some(hs) => header_list(v@) == Some(headers_view(hs@)),
            None => header_list(v@) is None,
        },
{
    match v {
        Json::Array(items) => {
            let ghost iv = items_view(items@);
            proof {
                lemma_items_view(items@);
            }
            let mut out: Vec<(String, String)> = Vec::new();
            let mut i: usize = 0;
            while i < items.len()
                invariant
                    i <= items@.len() == iv.len(),
                    *v == Json::Array(*items),
                    iv == items_view(items@),
                    forall|k: int| 0 <= k < items@.len() ==> #[trigger] iv[k] == json_view(items@[k]),
                    out@.len() == i,
                    forall|k: int| 0 <= k < i ==> #[trigger] header_pair(iv[k]) == Some(
                        (out@[k].0@, out@[k].1@),
                    ),
                decreases items@.len() - i,
            {
                let item = &items[i];
                let pair = match item {
                    Json::Array(kv) => {
                        proof {
                            lemma_items_view(kv@);
                        }
                        if kv.len() == 2 {
                            match (&kv[0], &kv[1]) {
                                (Json::Str(a), Json::Str(b)) => Some((a.clone(), b.clone())),
                                _ => None,
                            }
                        } else {
                            None
                        }
                    },
                    _ => None,
                };
                match pair {
                    Some(p) => {
                        out.push(p);
                    },
                    None => {
                        proof {
                            assert(header_pair(iv[i as int]) is None);
                            assert(!(forall|k: int| 0 <= k < iv.len() ==> #[trigger] header_pair(iv[k]) is Some));
                        }
                        return None;
                    },
                }
                i = i + 1;
            }
            proof {
                assert(headers_view(out@) =~= Seq::new(iv.len(), |k: int| header_pair(iv[k])->0));
            }
            Some(out)
        },
        _ => None,
    }
}

/// Reads a Lua value back as a raw body (see [`body_of_value`]).
pub fn body_from_value(v: Option<&Json>) -> (r: RawBody)
    ensures
        body_view(r) == body_of_value(
            match v {
                Some(j) => Some(j@),
                None => None,
            },
        ),
{
    match v {
        None => RawBody::Empty,
        Some(Json::Null) => RawBody::Empty,
        Some(Json::Str(s)) => RawBody::Text { text: s.clone() },
        Some(j) => RawBody::Json { value: j.deep_clone() },
    }
}

/// Reads a whole-message hook's return value as an action (see
/// [`raw_action`]); `None` passes, the message having been rewritten in place.
pub fn parse_raw_action(ret: &Json) -> (r: Result<Option<RawVerdict>, HookValueError>)
    ensures
        action_view(r) == raw_action(ret@),
{
    proof {
        reveal_strlit("short_circuit");
        reveal_strlit("abort");
    }
    let is_table = match ret {
        Json::Object(_) => true,
        _ => false,
    };
    if !is_table {
        return Ok(None);
    }
    let action = match read_opt_string(ret, "action") {
        Err(()) => {
            return Ok(None);
        },
        Ok(None) => {
            return Ok(None);
        },
        Ok(Some(a)) => a,
    };
    if str_eq(action.as_str(), "short_circuit") {
        let status = match read_opt_u16(ret, "status") {
            Err(()) => {
                return Err(HookValueError::BadField { field: "status".to_string() });
            },
            Ok(Some(c)) => c,
            Ok(None) => 200,
        };
        let headers = match ret.get("headers") {
            None => Vec::new(),
            Some(Json::Null) => Vec::new(),
            Some(h) => match read_headers(h) {
                Some(hs) => hs,
                None => {
                    return Err(HookValueError::BadField { field: "headers".to_string() });
                },
            },
        };
        proof {
            assert(headers_view(headers@) =~= (match ret@.field("headers"@) {
                None => Some(Seq::empty()),
                Some(JsonV::Null) => Some(Seq::empty()),
                Some(h) => header_list(h),
            })->0);
        }
        let body = body_from_value(ret.get("body"));
        Ok(Some(RawVerdict::ShortCircuit { status, headers, body }))
    } else if str_eq(action.as_str(), "abort") {
        match read_opt_string(ret, "message") {
            Err(()) => Err(HookValueError::BadField { field: "message".to_string() }),
            Ok(Some(m)) => Ok(Some(RawVerdict::Abort { message: m })),
            Ok(None) => Ok(Some(RawVerdict::Abort { message: "aborted by plugin".to_string() })),
        }
    } else {
        Ok(None)
    }
}

/// How a chunk hook's return value reads: a table whose `action` is `drop`
/// drops the chunk; anything else forwards it.
pub open spec fn chunk_action(ret: JsonV) -> ChunkVerdict {
    if ret.field_str("action"@) == Some("drop"@) {
        ChunkVerdict::Drop
    } else {
        ChunkVerdict::Forward
    }
}

/// Reads a chunk hook's return value (see [`chunk_action`]).
pub fn parse_chunk_action(ret: &Json) -> (r: ChunkVerdict)
    ensures
        r == chunk_action(ret@),
{
    match ret.get_str("action") {
        Some(a) => if str_eq(a, "drop") {
            ChunkVerdict::Drop
        } else {
            ChunkVerdict::Forward
        },
        None => ChunkVerdict::Forward,
    }
}

/// The headers a hook left in its table, when it left a readable list.
pub open spec fn table_headers(t: JsonV) -> Option<Seq<(Seq<char>, Seq<char>)>> {
    match t.field("headers"@) {
        None => None,
        Some(JsonV::Null) => None,
        Some(h) => header_list(h),
    }
}

/// Whether the hook's table keeps the original body: the body was withheld
/// as too large (`truncated`) and the hook did not put one in.
pub open spec fn keeps_body(t: JsonV, flag: Seq<char>, field: Seq<char>) -> bool {
    opt_bool_field(t, flag) == Ok::<Option<bool>, ()>(Some(true)) && (t.field(field) is None
        || t.field(field) == Some(JsonV::Null))
}

/// Writes back what a whole-message hook changed in its table: headers (when
/// the table holds a readable list), the body (unless it was withheld as too
/// large and not replaced), and url, status and method (each when readable;
/// absent clears it). At the client-request stage the session id is taken
/// from the table too (when readable; absent or nil clears it); at every
/// other stage it stays. Fields read as Lua reads them (numbers as strings,
/// numeric strings as status codes, `body_truncated` by truthiness), so the
/// write-back always succeeds.
pub fn apply_table_to_message(t: &Json, m: &mut RawMessage) -> (r: Result<(), HookValueError>)
    ensures
        headers_view(final(m).headers@) == match table_headers(t@) {
            Some(hs) => hs,
            None => headers_view(old(m).headers@),
        },
        final(m).stage == old(m).stage,
        final(m).protocol == old(m).protocol,
        final(m).provider == old(m).provider,
        old(m).stage == RawStage::ClientRequest ==> opt_string_view(final(m).session_id) == match opt_string_field(
            t@,
            "session_id"@,
        ) {
            Ok(sid) => sid,
            Err(()) => opt_string_view(old(m).session_id),
        },
        old(m).stage != RawStage::ClientRequest ==> final(m).session_id == old(m).session_id,
        r is Ok,
        opt_bool_field(t@, "body_truncated"@) is Err <==> r is Err,
        r is Err ==> error_field(r->Err_0) == "body_truncated"@ && body_view(final(m).body)
            == body_view(old(m).body) && final(m).url == old(m).url && final(m).status == old(
            m,
        ).status && final(m).method == old(m).method,
        r is Ok ==> {
            &&& body_view(final(m).body) == if keeps_body(t@, "body_truncated"@, "body"@) {
                body_view(old(m).body)
            } else {
                body_of_value(t@.field("body"@))
            }
            &&& opt_string_view(final(m).url) == match opt_string_field(t@, "url"@) {
                Ok(u) => u,
                Err(()) => opt_string_view(old(m).url),
            }
            &&& final(m).status == match opt_u16_field(t@, "status"@) {
                Ok(s) => s,
                Err(()) => old(m).status,
            }
            &&& opt_string_view(final(m).method) == match opt_string_field(t@, "method"@) {
                Ok(x) => x,
                Err(()) => opt_string_view(old(m).method),
            }
        },
{
    match t.get("headers") {
        None => {},
        Some(Json::Null) => {},
        Some(h) => {
            if let Some(hs) = read_headers(h) {
                m.headers = hs;
            }
        },
    }
    match m.stage {
        RawStage::ClientRequest => {
            if let Ok(sid) = read_opt_string(t, "session_id") {
                m.session_id = sid;
            }
        },
        _ => {},
    }
    let truncated = match read_opt_bool(t, "body_truncated") {
        Err(()) => {
            return Err(HookValueError::BadField { field: "body_truncated".to_string() });
        },
        Ok(Some(b)) => b,
        Ok(None) => false,
    };
    let body_v = t.get("body");
    let absent = match body_v {
        None => true,
        Some(Json::Null) => true,
        Some(_) => false,
    };
    if !(truncated && absent) {
        m.body = body_from_value(body_v);
    }
    if let Ok(u) = read_opt_string(t, "url") {
        m.url = u;
    }
    if let Ok(st) = read_opt_u16(t, "status") {
        m.status = st;
    }
    if let Ok(x) = read_opt_string(t, "method") {
        m.method = x;
    }
    Ok(())
}

/// Writes back what a chunk hook changed in its table: the event (when
/// readable; absent clears it), the data (unless withheld as too large and not
/// replaced), and the raw line (when the table holds one). Fields read as Lua
/// reads them (`data_truncated` by truthiness), so the write-back always
/// succeeds.
pub fn apply_table_to_chunk(t: &Json, c: &mut RawChunk) -> (r: Result<(), HookValueError>)
    ensures
        opt_string_view(final(c).event) == match opt_string_field(t@, "event"@) {
            Ok(e) => e,
            Err(()) => opt_string_view(old(c).event),
        },
        final(c).stage == old(c).stage,
        final(c).protocol == old(c).protocol,
        final(c).provider == old(c).provider,
        r is Ok,
        opt_bool_field(t@, "data_truncated"@) is Err <==> r is Err,
        r is Err ==> error_field(r->Err_0) == "data_truncated"@ && body_view(final(c).data)
            == body_view(old(c).data) && final(c).raw == old(c).raw,
        r is Ok ==> {
            &&& body_view(final(c).data) == if keeps_body(t@, "data_truncated"@, "data"@) {
                body_view(old(c).data)
            } else {
                body_of_value(t@.field("data"@))
            }
            &&& final(c).raw@ == match opt_string_field(t@, "raw"@) {
                Ok(Some(x)) => x,
                _ => old(c).raw@,
            }
        },
{
    if let Ok(e) = read_opt_string(t, "event") {
        c.event = e;
    }
    let truncated = match read_opt_bool(t, "data_truncated") {
        Err(()) => {
            return Err(HookValueError::BadField { field: "data_truncated".to_string() });
        },
        Ok(Some(b)) => b,
        Ok(None) => false,
    };
    let data_v = t.get("data");
    let absent = match data_v {
        None => true,
        Some(Json::Null) => true,
        Some(_) => false,
    };
    if !(truncated && absent) {
        c.data = body_from_value(data_v);
    }
    if let Ok(Some(x)) = read_opt_string(t, "raw") {
        c.raw = x;
    }
    Ok(())
}

/// A member that is present only when it has a value (Lua drops nil fields).
pub open spec fn opt_member(key: Seq<char>, v: Option<JsonV>) -> Seq<(Seq<char>, JsonV)> {
    match v {
        Some(x) => seq![(key, x)],
        None => Seq::empty(),
    }
}

/// The Lua value of a raw body: JSON as itself, text as a string, binary as
/// its standard base64 text, nothing as nil.
pub open spec fn body_value(b: BodyV) -> Option<JsonV> {
    match b {
        BodyV::Json(v) => Some(v),
        BodyV::Text(t) => Some(JsonV::Str(t)),
        BodyV::Binary(d) => Some(JsonV::Str(base64_std_of(d))),
        BodyV::Empty => None,
    }
}

/// The Lua value of a header list: an array of `[name, value]` pairs.
pub open spec fn headers_value(hs: Seq<(Seq<char>, Seq<char>)>) -> JsonV {
    JsonV::Array(hs.map_values(|h: (Seq<char>, Seq<char>)| JsonV::Array(seq![JsonV::Str(h.0), JsonV::Str(h.1)])))
}

/// The body members of a table: the body, or, when it is larger than
/// `limit`, no body and a `truncated` flag.
pub open spec fn body_members(b: RawBody, field: Seq<char>, flag: Seq<char>, limit: usize) -> Seq<(Seq<char>, JsonV)> {
    if capped(body_size(b) as int) > limit {
        seq![(flag, JsonV::Bool(true))]
    } else {
        opt_member(field, body_value(body_view(b)))
    }
}

/// The table a whole-message hook receives.
pub open spec fn message_table(m: RawMessage, limit: usize) -> JsonV {
    JsonV::Object(
        seq![("stage"@, JsonV::Str(stage_name(m.stage))), ("protocol"@, JsonV::Str(m.protocol.name()))]
            + opt_member("provider"@, opt_str_json(m.provider))
            + opt_member("method"@, opt_str_json(m.method))
            + opt_member("url"@, opt_str_json(m.url))
            + opt_member("status"@, match m.status {
                Some(s) => Some(JsonV::PosInt(s as u64)),
                None => None,
            })
            + opt_member("session_id"@, opt_str_json(m.session_id))
            + seq![("headers"@, headers_value(headers_view(m.headers@)))]
            + body_members(m.body, "body"@, "body_truncated"@, limit),
    )
}

/// The table a chunk hook receives.
pub open spec fn chunk_table(c: RawChunk, limit: usize) -> JsonV {
    JsonV::Object(
        seq![("stage"@, JsonV::Str(chunk_stage_name(c.stage))), ("protocol"@, JsonV::Str(c.protocol.name()))]
            + opt_member("provider"@, opt_str_json(c.provider))
            + opt_member("event"@, opt_str_json(c.event))
            + body_members(c.data, "data"@, "data_truncated"@, limit)
            + seq![("raw"@, JsonV::Str(c.raw@))],
    )
}

pub open spec fn opt_str_json(o: Option<String>) -> Option<JsonV> {
    match o {
        Some(s) => Some(JsonV::Str(s@)),
        None => None,
    }
}

fn push_opt_str(fs: &mut Vec<(String, Json)>, key: &str, v: &Option<String>)
    ensures
        fields_view(final(fs)@) == fields_view(old(fs)@) + opt_member(key@, opt_str_json(*v)),
{
    proof {
        lemma_fields_view(old(fs)@);
    }
    let ghost before = fields_view(fs@);
    match v {
        Some(s) => {
            fs.push((key.to_string(), Json::Str(s.clone())));
            proof {
                lemma_fields_view(fs@);
                assert(fields_view(fs@) =~= before + opt_member(key@, opt_str_json(*v)));
            }
        },
        None => {
            assert(before + opt_member(key@, opt_str_json(*v)) =~= before);
        },
    }
}

fn headers_json(hs: &Vec<(String, String)>) -> (r: Json)
    ensures
        r@ == headers_value(headers_view(hs@)),
{
    let mut items: Vec<Json> = Vec::new();
    let mut i: usize = 0;
    while i < hs.len()
        invariant
            i <= hs@.len(),
            items@.len() == i,
            forall|k: int| 0 <= k < i ==> json_view(#[trigger] items@[k]) == JsonV::Array(
                seq![JsonV::Str(hs@[k].0@), JsonV::Str(hs@[k].1@)],
            ),
        decreases hs@.len() - i,
    {
        let mut pair: Vec<Json> = Vec::new();
        pair.push(Json::Str(hs[i].0.clone()));
        pair.push(Json::Str(hs[i].1.clone()));
        proof {
            lemma_items_view(pair@);
            assert(items_view(pair@) =~= seq![JsonV::Str(hs@[i as int].0@), JsonV::Str(hs@[i as int].1@)]);
        }
        items.push(Json::Array(pair));
        i = i + 1;
    }
    proof {
        lemma_items_view(items@);
        assert(items_view(items@) =~= headers_view(hs@).map_values(
            |h: (Seq<char>, Seq<char>)| JsonV::Array(seq![JsonV::Str(h.0), JsonV::Str(h.1)]),
        ));
    }
    Json::Array(items)
}

fn push_body(fs: &mut Vec<(String, Json)>, b: &RawBody, field: &str, flag: &str, limit: usize)
    requires
        match *b {
            RawBody::Binary { data } => data@.len() < usize::MAX / 2,
            _ => true,
        },
    ensures
        fields_view(final(fs)@) == fields_view(old(fs)@) + body_members(*b, field@, flag@, limit),
{
    proof {
        lemma_fields_view(old(fs)@);
    }
    let ghost before = fields_view(fs@);
    if body_exceeds(b, limit) {
        fs.push((flag.to_string(), Json::Bool(true)));
    } else {
        match b {
            RawBody::Json { value } => fs.push((field.to_string(), value.deep_clone())),
            RawBody::Text { text } => fs.push((field.to_string(), Json::Str(text.clone()))),
            RawBody::Binary { data } => fs.push(
                (field.to_string(), Json::Str(base64_std_encode(data.as_slice()))),
            ),
            RawBody::Empty => {},
        }
    }
    proof {
        lemma_fields_view(fs@);
        assert(fields_view(fs@) =~= before + body_members(*b, field@, flag@, limit));
    }
}

/// The table handed to a whole-message hook: stage, protocol, provider,
/// method, url, status, session id, headers, and the body, which is withheld (with
/// `body_truncated = true`) when it is larger than `max_body_bytes`.
pub fn message_table_of(m: &RawMessage, max_body_bytes: usize) -> (r: Json)
    requires
        match m.body {
            RawBody::Binary { data } => data@.len() < usize::MAX / 2,
            _ => true,
        },
    ensures
        r@ == message_table(*m, max_body_bytes),
{
    let mut fs: Vec<(String, Json)> = Vec::new();
    fs.push(("stage".to_string(), Json::Str(stage_str(m.stage).to_string())));
    fs.push(("protocol".to_string(), Json::Str(m.protocol.as_str().to_string())));
    proof {
        lemma_fields_view(fs@);
        assert(fields_view(fs@) =~= seq![("stage"@, JsonV::Str(stage_name(m.stage))), ("protocol"@, JsonV::Str(m.protocol.name()))]);
    }
    push_opt_str(&mut fs, "provider", &m.provider);
    push_opt_str(&mut fs, "method", &m.method);
    push_opt_str(&mut fs, "url", &m.url);
    proof {
        lemma_fields_view(fs@);
    }
    let ghost before = fields_view(fs@);
    match m.status {
        Some(st) => {
            fs.push(("status".to_string(), Json::Num(JsonNum::PosInt(st as u64))));
        },
        None => {},
    }
    proof {
        lemma_fields_view(fs@);
        assert(fields_view(fs@) =~= before + opt_member("status"@, match m.status {
            Some(s) => Some(JsonV::PosInt(s as u64)),
            None => None,
        }));
    }
    push_opt_str(&mut fs, "session_id", &m.session_id);
    proof {
        lemma_fields_view(fs@);
    }
    let ghost pre = fs@;
    let ghost before_h = fields_view(fs@);
    let h = headers_json(&m.headers);
    fs.push(("headers".to_string(), h));
    proof {
        lemma_fields_view(fs@);
        assert(fs@ == pre.push(fs@.last()));
        assert(fields_view(fs@) =~= before_h + seq![("headers"@, headers_value(headers_view(m.headers@)))]);
    }
    push_body(&mut fs, &m.body, "body", "body_truncated", max_body_bytes);
    Json::Object(fs)
}

/// The table handed to a chunk hook: stage, protocol, provider, event, the
/// data (withheld, with `data_truncated = true`, when larger than
/// `max_body_bytes`), and the raw line.
pub fn chunk_table_of(c: &RawChunk, max_body_bytes: usize) -> (r: Json)
    requires
        match c.data {
            RawBody::Binary { data } => data@.len() < usize::MAX / 2,
            _ => true,
        },
    ensures
        r@ == chunk_table(*c, max_body_bytes),
{
    let mut fs: Vec<(String, Json)> = Vec::new();
    fs.push(("stage".to_string(), Json::Str(chunk_stage_str(c.stage).to_string())));
    fs.push(("protocol".to_string(), Json::Str(c.protocol.as_str().to_string())));
    proof {
        lemma_fields_view(fs@);
        assert(fields_view(fs@) =~= seq![("stage"@, JsonV::Str(chunk_stage_name(c.stage))), ("protocol"@, JsonV::Str(c.protocol.name()))]);
    }
    push_opt_str(&mut fs, "provider", &c.provider);
    push_opt_str(&mut fs, "event", &c.event);
    push_body(&mut fs, &c.data, "data", "data_truncated", max_body_bytes);
    proof {
        lemma_fields_view(fs@);
    }
    let ghost before = fields_view(fs@);
    fs.push(("raw".to_string(), Json::Str(c.raw.clone())));
    proof {
        lemma_fields_view(fs@);
        assert(fields_view(fs@) =~= before + seq![("raw"@, JsonV::Str(c.raw@))]);
    }
    Json::Object(fs)
}

proof fn lemma_opt_member_lookup(key: Seq<char>, v: Option<JsonV>, k: Seq<char>)
    ensures
        find_field(opt_member(key, v), k) == if key == k {
            v
        } else {
            None
        },
{
    let s = opt_member(key, v);
    if s.len() > 0 {
        assert(s[0] == (key, v->0));
        assert(s.drop_first().len() == 0);
        assert(find_field(s.drop_first(), k) is None);
    }
}

proof fn lemma_body_members_lookup(b: RawBody, field: Seq<char>, flag: Seq<char>, limit: usize, k: Seq<char>)
    requires
        field != flag,
    ensures
        find_field(body_members(b, field, flag, limit), k) == if capped(body_size(b) as int) > limit {
            if k == flag {
                Some(JsonV::Bool(true))
            } else {
                None
            }
        } else if k == field {
            body_value(body_view(b))
        } else {
            None
        },
{
    if capped(body_size(b) as int) > limit {
        let s = body_members(b, field, flag, limit);
        assert(s[0] == (flag, JsonV::Bool(true)));
        assert(s.drop_first().len() == 0);
        assert(find_field(s.drop_first(), k) is None);
    } else {
        lemma_opt_member_lookup(field, body_value(body_view(b)), k);
    }
}

/// Member lookup in a message table, for keys other than `stage` and
/// `protocol`: the first of provider, method, url, status, headers and body
/// members that has the key.
proof fn lemma_message_table_lookup(m: RawMessage, limit: usize, k: Seq<char>)
    requires
        k != "stage"@,
        k != "protocol"@,
    ensures
        ({
            let status_v = match m.status {
                Some(s) => Some(JsonV::PosInt(s as u64)),
                None => None,
            };
            message_table(m, limit).field(k) == if k == "provider"@ {
                opt_str_json(m.provider)
            } else if k == "method"@ {
                opt_str_json(m.method)
            } else if k == "url"@ {
                opt_str_json(m.url)
            } else if k == "status"@ {
                status_v
            } else if k == "session_id"@ {
                opt_str_json(m.session_id)
            } else if k == "headers"@ {
                Some(headers_value(headers_view(m.headers@)))
            } else {
                find_field(body_members(m.body, "body"@, "body_truncated"@, limit), k)
            }
        }),
{
    let status_v = match m.status {
        Some(s) => Some(JsonV::PosInt(s as u64)),
        None => None,
    };
    let a = seq![("stage"@, JsonV::Str(stage_name(m.stage))), ("protocol"@, JsonV::Str(m.protocol.name()))];
    let p = opt_member("provider"@, opt_str_json(m.provider));
    let me = opt_member("method"@, opt_str_json(m.method));
    let u = opt_member("url"@, opt_str_json(m.url));
    let st = opt_member("status"@, status_v);
    let sid = opt_member("session_id"@, opt_str_json(m.session_id));
    let h = seq![("headers"@, headers_value(headers_view(m.headers@)))];
    let b = body_members(m.body, "body"@, "body_truncated"@, limit);
    reveal_strlit("provider");
    reveal_strlit("method");
    reveal_strlit("url");
    reveal_strlit("status");
    reveal_strlit("headers");
    reveal_strlit("session_id");
    assert("session_id"@.len() == 10);
    assert("provider"@.len() == 8 && "method"@.len() == 6 && "url"@.len() == 3);
    assert("status"@.len() == 6 && "headers"@.len() == 7);
    assert("status"@[0] != "method"@[0]);
    reveal_strlit("body");
    reveal_strlit("body_truncated");
    assert("body"@.len() == 4 && "body_truncated"@.len() == 14);
    lemma_body_members_lookup(m.body, "body"@, "body_truncated"@, limit, k);
    assert forall|i: int| 0 <= i < a.len() implies (#[trigger] a[i]).0 != k by {}
    lemma_find_field_absent(a, k);
    lemma_find_field_concat(a, p, k);
    lemma_find_field_concat(a + p, me, k);
    lemma_find_field_concat(a + p + me, u, k);
    lemma_find_field_concat(a + p + me + u, st, k);
    lemma_find_field_concat(a + p + me + u + st, sid, k);
    lemma_find_field_concat(a + p + me + u + st + sid, h, k);
    lemma_find_field_concat(a + p + me + u + st + sid + h, b, k);
    lemma_opt_member_lookup("provider"@, opt_str_json(m.provider), k);
    lemma_opt_member_lookup("method"@, opt_str_json(m.method), k);
    lemma_opt_member_lookup("url"@, opt_str_json(m.url), k);
    lemma_opt_member_lookup("status"@, status_v, k);
    lemma_opt_member_lookup("session_id"@, opt_str_json(m.session_id), k);
    assert(h[0].0 == "headers"@);
    assert(h.drop_first().len() == 0);
    assert(find_field(h.drop_first(), k) is None);
    assert(message_table(m, limit) == JsonV::Object(a + p + me + u + st + sid + h + b));
    assert(find_field(h, k) == if k == "headers"@ { Some(headers_value(headers_view(m.headers@))) } else { None });
    assert(find_field(a + p + me + u + st + sid + h + b, k) == if k == "provider"@ {
                opt_str_json(m.provider)
            } else if k == "method"@ {
                opt_str_json(m.method)
            } else if k == "url"@ {
                opt_str_json(m.url)
            } else if k == "status"@ {
                status_v
            } else if k == "session_id"@ {
                opt_str_json(m.session_id)
            } else if k == "headers"@ {
                Some(headers_value(headers_view(m.headers@)))
            } else {
                find_field(b, k)
            });
}

/// Writing back a message table that the hook left as it was gives the
/// message back: the same headers, url, method, status and session id, and
/// the same body.
/// A body withheld as too large is kept as it was; a body that was handed over
/// reads back the same when it is text, empty, or JSON other than `null` or a
/// string (those, and binary bodies shown as base64 text, come back as text
/// or empty).
pub proof fn law_unchanged_table_writes_back_unchanged(m: RawMessage, limit: usize)
    ensures
        ({
            let t = message_table(m, limit);
            &&& table_headers(t) == Some(headers_view(m.headers@))
            &&& opt_string_field(t, "url"@) == Ok::<Option<Seq<char>>, ()>(opt_string_view(m.url))
            &&& opt_string_field(t, "method"@) == Ok::<Option<Seq<char>>, ()>(opt_string_view(m.method))
            &&& opt_u16_field(t, "status"@) == Ok::<Option<u16>, ()>(m.status)
            &&& opt_string_field(t, "session_id"@) == Ok::<Option<Seq<char>>, ()>(opt_string_view(m.session_id))
            &&& opt_bool_field(t, "body_truncated"@) is Ok
            &&& (capped(body_size(m.body) as int) > limit ==> keeps_body(t, "body_truncated"@, "body"@))
            &&& (capped(body_size(m.body) as int) <= limit && !(m.body is Binary) && !(m.body matches RawBody::Json { value } && (value@ is Null || value@ is Str)) ==> !keeps_body(t, "body_truncated"@, "body"@) && body_of_value(t.field("body"@)) == body_view(m.body))
        }),
{
    reveal_strlit("stage");
    reveal_strlit("protocol");
    reveal_strlit("provider");
    reveal_strlit("method");
    reveal_strlit("url");
    reveal_strlit("status");
    reveal_strlit("headers");
    reveal_strlit("session_id");
    reveal_strlit("body");
    reveal_strlit("body_truncated");
    assert("session_id"@.len() == 10);
    assert("body"@.len() == 4 && "body_truncated"@.len() == 14);
    assert("stage"@.len() == 5 && "protocol"@.len() == 8 && "provider"@.len() == 8);
    assert("method"@.len() == 6 && "url"@.len() == 3 && "status"@.len() == 6 && "headers"@.len() == 7);
    assert("status"@[0] != "method"@[0]);
    lemma_message_table_lookup(m, limit, "url"@);
    lemma_message_table_lookup(m, limit, "method"@);
    lemma_message_table_lookup(m, limit, "status"@);
    lemma_message_table_lookup(m, limit, "session_id"@);
    lemma_message_table_lookup(m, limit, "headers"@);
    lemma_message_table_lookup(m, limit, "body"@);
    lemma_message_table_lookup(m, limit, "body_truncated"@);
    lemma_body_members_lookup(m.body, "body"@, "body_truncated"@, limit, "body"@);
    lemma_body_members_lookup(m.body, "body"@, "body_truncated"@, limit, "body_truncated"@);
    // The header list reads back pair by pair.
    let hv = headers_view(m.headers@);
    let items = hv.map_values(|x: (Seq<char>, Seq<char>)| JsonV::Array(seq![JsonV::Str(x.0), JsonV::Str(x.1)]));
    assert forall|k: int| 0 <= k < items.len() implies #[trigger] header_pair(items[k]) == Some(hv[k]) by {
        let kv = seq![JsonV::Str(hv[k].0), JsonV::Str(hv[k].1)];
        assert(items[k] == JsonV::Array(kv));
    }
    assert(Seq::new(items.len(), |k: int| header_pair(items[k])->0) =~= hv);
}

} // verus!
