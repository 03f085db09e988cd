//! A JSON document model owned by the library.
//!
//! Objects keep their members in order as a list of `(key, value)` pairs; a key
//! is looked up by its first occurrence, and [`set_member`] replaces the value of
//! an existing key in place or appends a new member.
use vstd::prelude::*;
use serde_json::Value;

verus! {

/// A JSON number as it appeared: non-negative integer, negative integer, or any
/// other number kept in its textual form.
#[derive(Debug, Clone, PartialEq)]
pub enum JsonNum {
    PosInt(u64),
    NegInt(i64),
    Float(String),
}

/// A JSON value. Copies are made with [`Json::deep_clone`].
#[derive(Debug, PartialEq)]
pub enum Json {
    Null,
    Bool(bool),
    Num(JsonNum),
    Str(String),
    Array(Vec<Json>),
    Object(Vec<(String, Json)>),
}

/// The mathematical value of a [`Json`].
pub enum JsonV {
    Null,
    Bool(bool),
    PosInt(u64),
    NegInt(i64),
    Float(Seq<char>),
    Str(Seq<char>),
    Array(Seq<JsonV>),
    Object(Seq<(Seq<char>, JsonV)>),
}

pub open spec fn json_view(j: Json) -> JsonV
    decreases j, 0int,
{
    match j {
        Json::Null => JsonV::Null,
        Json::Bool(b) => JsonV::Bool(b),
        Json::Num(JsonNum::PosInt(u)) => JsonV::PosInt(u),
        Json::Num(JsonNum::NegInt(i)) => JsonV::NegInt(i),
        Json::Num(JsonNum::Float(s)) => JsonV::Float(s@),
        Json::Str(s) => JsonV::Str(s@),
        Json::Array(items) => JsonV::Array(items_view(items@)),
        Json::Object(fs) => JsonV::Object(fields_view(fs@)),
    }
}

pub open spec fn items_view(s: Seq<Json>) -> Seq<JsonV>
    decreases s, 1int,
{
    if s.len() == 0 {
        Seq::empty()
    } else {
        seq![json_view(s[0])] + items_view(s.drop_first())
    }
}

pub open spec fn fields_view(s: Seq<(String, Json)>) -> Seq<(Seq<char>, JsonV)>
    decreases s, 1int,
{
    if s.len() == 0 {
        Seq::empty()
    } else {
        seq![(s[0].0@, json_view(s[0].1))] + fields_view(s.drop_first())
    }
}

impl View for Json {
    type V = JsonV;

    open spec fn view(&self) -> JsonV {
        json_view(*self)
    }
}

pub proof fn lemma_items_view(s: Seq<Json>)
    ensures
        items_view(s).len() == s.len(),
        forall|k: int| 0 <= k < s.len() ==> #[trigger] items_view(s)[k] == json_view(s[k]),
    decreases s.len(),
{
    if s.len() > 0 {
        lemma_items_view(s.drop_first());
        assert forall|k: int| 0 <= k < s.len() implies #[trigger] items_view(s)[k] == json_view(
            s[k],
        ) by {
            if k > 0 {
                assert(s.drop_first()[k - 1] == s[k]);
            }
        }
    }
}

pub proof fn lemma_fields_view(s: Seq<(String, Json)>)
    ensures
        fields_view(s).len() == s.len(),
        forall|k: int|
            0 <= k < s.len() ==> #[trigger] fields_view(s)[k] == (s[k].0@, json_view(s[k].1)),
    decreases s.len(),
{
    if s.len() > 0 {
        lemma_fields_view(s.drop_first());
        assert forall|k: int| 0 <= k < s.len() implies #[trigger] fields_view(s)[k] == (
            s[k].0@,
            json_view(s[k].1),
        ) by {
            if k > 0 {
                assert(s.drop_first()[k - 1] == s[k]);
            }
        }
    }
}

/// A sequence is the items view of `s` when it has the same length and every
/// element is the view of the corresponding element.
pub proof fn lemma_items_view_ext(s: Seq<Json>, t: Seq<JsonV>)
    requires
        s.len() == t.len(),
        forall|k: int| 0 <= k < s.len() ==> #[trigger] t[k] == json_view(s[k]),
    ensures
        items_view(s) == t,
{
    lemma_items_view(s);
    assert(items_view(s) =~= t);
}

pub proof fn lemma_fields_view_ext(s: Seq<(String, Json)>, t: Seq<(Seq<char>, JsonV)>)
    requires
        s.len() == t.len(),
        forall|k: int| 0 <= k < s.len() ==> #[trigger] t[k] == (s[k].0@, json_view(s[k].1)),
    ensures
        fields_view(s) == t,
{
    lemma_fields_view(s);
    assert(fields_view(s) =~= t);
}

/// First member of `fs` named `key`.
pub open spec fn find_field(fs: Seq<(Seq<char>, JsonV)>, key: Seq<char>) -> Option<JsonV>
    decreases fs.len(),
{
    if fs.len() == 0 {
        None
    } else if fs[0].0 == key {
        Some(fs[0].1)
    } else {
        find_field(fs.drop_first(), key)
    }
}

/// The first member named `key` of an object's members.
pub fn lookup<'a>(fs: &'a Vec<(String, Json)>, key: &str) -> (r: Option<&'a Json>)
    ensures
        match r {
            Some(v) => find_field(fields_view(fs@), key@) == Some(v@),
            None => find_field(fields_view(fs@), key@) is None,
        },
{
    proof {
        lemma_fields_view(fs@);
    }
    let ghost fv = fields_view(fs@);
    let mut i: usize = 0;
    while i < fs.len()
        invariant
            i <= fs@.len() == fv.len(),
            fv == fields_view(fs@),
            forall|k: int| 0 <= k < fs@.len() ==> #[trigger] fv[k] == (fs@[k].0@, json_view(fs@[k].1)),
            forall|k: int| 0 <= k < i ==> (#[trigger] fv[k]).0 != key@,
        decreases fs@.len() - i,
    {
        if crate::text::str_eq(fs[i].0.as_str(), key) {
            proof {
                lemma_find_field_at(fv, key@, i as int);
            }
            return Some(&fs[i].1);
        }
        i = i + 1;
    }
    proof {
        lemma_find_field_absent(fv, key@);
    }
    None
}

/// `find_field` at the first matching index.
pub proof fn lemma_find_field_at(fs: Seq<(Seq<char>, JsonV)>, key: Seq<char>, i: int)
    requires
        0 <= i < fs.len(),
        fs[i].0 == key,
        forall|k: int| 0 <= k < i ==> (#[trigger] fs[k]).0 != key,
    ensures
        find_field(fs, key) == Some(fs[i].1),
    decreases i,
{
    if i > 0 {
        let t = fs.drop_first();
        assert forall|k: int| 0 <= k < i - 1 implies (#[trigger] t[k]).0 != key by {
            assert(t[k] == fs[k + 1]);
        }
        lemma_find_field_at(t, key, i - 1);
    }
}

/// A member found by `find_field` is one of the members.
pub proof fn lemma_find_field_index(fs: Seq<(Seq<char>, JsonV)>, key: Seq<char>)
    ensures
        find_field(fs, key) matches Some(x) ==> exists|i: int| 0 <= i < fs.len() && #[trigger] fs[i].1 == x,
    decreases fs.len(),
{
    if fs.len() > 0 && fs[0].0 != key {
        lemma_find_field_index(fs.drop_first(), key);
        if let Some(x) = find_field(fs, key) {
            let j = choose|j: int| 0 <= j < fs.drop_first().len() && #[trigger] fs.drop_first()[j].1 == x;
            assert(fs[j + 1].1 == x);
        }
    } else if fs.len() > 0 {
        assert(fs[0].1 == fs[0].1);
    }
}

/// `find_field` when no member matches.
pub proof fn lemma_find_field_absent(fs: Seq<(Seq<char>, JsonV)>, key: Seq<char>)
    requires
        forall|k: int| 0 <= k < fs.len() ==> (#[trigger] fs[k]).0 != key,
    ensures
        find_field(fs, key) is None,
    decreases fs.len(),
{
    if fs.len() > 0 {
        let t = fs.drop_first();
        assert forall|k: int| 0 <= k < t.len() implies (#[trigger] t[k]).0 != key by {
            assert(t[k] == fs[k + 1]);
        }
        lemma_find_field_absent(t, key);
    }
}

/// Looking a key up in two member lists one after the other.
pub proof fn lemma_find_field_concat(a: Seq<(Seq<char>, JsonV)>, b: Seq<(Seq<char>, JsonV)>, key: Seq<char>)
    ensures
        find_field(a + b, key) == match find_field(a, key) {
            Some(v) => Some(v),
            None => find_field(b, key),
        },
    decreases a.len(),
{
    if a.len() > 0 {
        assert((a + b).drop_first() == a.drop_first() + b);
        assert((a + b)[0] == a[0]);
        lemma_find_field_concat(a.drop_first(), b, key);
    } else {
        assert(a + b == b);
    }
}

impl JsonV {
    /// `self[key]` for an object, `None` otherwise (`Value::get`).
    pub open spec fn field(self, key: Seq<char>) -> Option<JsonV> {
        match self {
            JsonV::Object(fs) => find_field(fs, key),
            _ => None,
        }
    }

    /// The string of a `Str`.
    pub open spec fn str_of(self) -> Option<Seq<char>> {
        match self {
            JsonV::Str(s) => Some(s),
            _ => None,
        }
    }

    /// The field `key` when it is a string.
    pub open spec fn field_str(self, key: Seq<char>) -> Option<Seq<char>> {
        match self.field(key) {
            Some(v) => v.str_of(),
            None => None,
        }
    }

    /// The number when it is a non-negative integer (`Value::as_u64`).
    pub open spec fn u64_of(self) -> Option<u64> {
        match self {
            JsonV::PosInt(u) => Some(u),
            _ => None,
        }
    }

    /// The field `key` when it is a non-negative integer.
    pub open spec fn field_u64(self, key: Seq<char>) -> Option<u64> {
        match self.field(key) {
            Some(v) => v.u64_of(),
            None => None,
        }
    }

    /// The boolean of a `Bool`.
    pub open spec fn bool_of(self) -> Option<bool> {
        match self {
            JsonV::Bool(b) => Some(b),
            _ => None,
        }
    }

    /// The items of an `Array`.
    pub open spec fn array_of(self) -> Option<Seq<JsonV>> {
        match self {
            JsonV::Array(items) => Some(items),
            _ => None,
        }
    }
}

impl Json {
    /// Deep copy.
    pub fn deep_clone(&self) -> (r: Json)
        ensures
            r@ == self@,
        decreases self@,
    {
        match self {
            Json::Null => Json::Null,
            Json::Bool(b) => Json::Bool(*b),
            Json::Num(n) => Json::Num(
                match n {
                    JsonNum::PosInt(u) => JsonNum::PosInt(*u),
                    JsonNum::NegInt(i) => JsonNum::NegInt(*i),
                    JsonNum::Float(s) => JsonNum::Float(s.clone()),
                },
            ),
            Json::Str(s) => Json::Str(s.clone()),
            Json::Array(items) => {
                let mut out: Vec<Json> = Vec::new();
                let mut i: usize = 0;
                while i < items.len()
                    invariant
                        i <= items@.len(),
                        *self == Json::Array(*items),
                        out@.len() == i,
                        forall|k: int| 0 <= k < i ==> #[trigger] json_view(out@[k]) == json_view(
                            items@[k],
                        ),
                    decreases items@.len() - i,
                {
                    proof {
                        lemma_items_view(items@);
                        assert(self@ == JsonV::Array(items_view(items@)));
                        assert(decreases_to!(self@ => (self@)->Array_0));
                        assert((self@)->Array_0 == items_view(items@));
                        assert(decreases_to!(self@ => items_view(items@)[i as int]));
                    }
                    let c = items[i].deep_clone();
                    out.push(c);
                    i = i + 1;
                }
                proof {
                    lemma_items_view(out@);
                    lemma_items_view_ext(items@, items_view(out@));
                }
                Json::Array(out)
            },
            Json::Object(fs) => {
                let mut out: Vec<(String, Json)> = Vec::new();
                let mut i: usize = 0;
                while i < fs.len()
                    invariant
                        i <= fs@.len(),
                        *self == Json::Object(*fs),
                        out@.len() == i,
                        forall|k: int|
                            0 <= k < i ==> (#[trigger] out@[k]).0@ == fs@[k].0@ && json_view(
                                out@[k].1,
                            ) == json_view(fs@[k].1),
                    decreases fs@.len() - i,
                {
                    proof {
                        lemma_fields_view(fs@);
                        assert(self@ == JsonV::Object(fields_view(fs@)));
                        assert(decreases_to!(self@ => (self@)->Object_0));
                        assert((self@)->Object_0 == fields_view(fs@));
                        assert(decreases_to!(self@ => fields_view(fs@)[i as int]));
                        assert(decreases_to!(self@ => fields_view(fs@)[i as int].1));
                    }
                    let c = fs[i].1.deep_clone();
                    let k = fs[i].0.clone();
                    out.push((k, c));
                    i = i + 1;
                }
                proof {
                    lemma_fields_view(out@);
                    assert forall|k: int| 0 <= k < fs@.len() implies #[trigger] fields_view(
                        out@,
                    )[k] == (fs@[k].0@, json_view(fs@[k].1)) by {
                        assert(out@[k].0@ == fs@[k].0@);
                    }
                    lemma_fields_view_ext(fs@, fields_view(out@));
                }
                Json::Object(out)
            },
        }
    }

    /// `self[key]` (`Value::get`).
    pub fn get(&self, key: &str) -> (r: Option<&Json>)
        ensures
            match r {
                Some(v) => self@.field(key@) == Some(v@),
                None => self@.field(key@) is None,
            },
    {
        match self {
            Json::Object(fs) => {
                proof {
                    lemma_fields_view(fs@);
                }
                lookup(fs, key)
            },
            _ => None,
        }
    }

    /// The string of a `Str` (`Value::as_str`).
    pub fn as_str(&self) -> (r: Option<&str>)
        ensures
            match r {
                Some(s) => self@.str_of() == Some(s@),
                None => self@.str_of() is None,
            },
    {
        match self {
            Json::Str(s) => Some(s.as_str()),
            _ => None,
        }
    }

    /// The number when it is a non-negative integer (`Value::as_u64`).
    pub fn as_u64(&self) -> (r: Option<u64>)
        ensures
            r == self@.u64_of(),
    {
        match self {
            Json::Num(JsonNum::PosInt(u)) => Some(*u),
            _ => None,
        }
    }

    /// The boolean of a `Bool` (`Value::as_bool`).
    pub fn as_bool(&self) -> (r: Option<bool>)
        ensures
            r == self@.bool_of(),
    {
        match self {
            Json::Bool(b) => Some(*b),
            _ => None,
        }
    }

    /// The items of an `Array` (`Value::as_array`).
    pub fn as_array(&self) -> (r: Option<&Vec<Json>>)
        ensures
            match r {
                Some(items) => self@.array_of() == Some(items_view(items@)),
                None => self@.array_of() is None,
            },
    {
        match self {
            Json::Array(items) => Some(items),
            _ => None,
        }
    }

    /// The field `key` when it is a string.
    pub fn get_str(&self, key: &str) -> (r: Option<&str>)
        ensures
            match r {
                Some(s) => self@.field_str(key@) == Some(s@),
                None => self@.field_str(key@) is None,
            },
    {
        match self.get(key) {
            Some(v) => v.as_str(),
            None => None,
        }
    }

    /// The field `key` when it is a non-negative integer.
    pub fn get_u64(&self, key: &str) -> (r: Option<u64>)
        ensures
            r == self@.field_u64(key@),
    {
        match self.get(key) {
            Some(v) => v.as_u64(),
            None => None,
        }
    }
}

/// Members after setting `key` to `v`: the first member named `key` gets the new
/// value in place, otherwise the member is appended (`Map::insert`).
pub open spec fn set_field(fs: Seq<(Seq<char>, JsonV)>, key: Seq<char>, v: JsonV) -> Seq<
    (Seq<char>, JsonV),
>
    decreases fs.len(),
{
    if fs.len() == 0 {
        seq![(key, v)]
    } else if fs[0].0 == key {
        fs.update(0, (key, v))
    } else {
        seq![fs[0]] + set_field(fs.drop_first(), key, v)
    }
}

pub proof fn lemma_find_set_field(
    fs: Seq<(Seq<char>, JsonV)>,
    key: Seq<char>,
    v: JsonV,
    other: Seq<char>,
)
    ensures
        find_field(set_field(fs, key, v), other) == if other == key {
            Some(v)
        } else {
            find_field(fs, other)
        },
    decreases fs.len(),
{
    let r = set_field(fs, key, v);
    if fs.len() == 0 {
        assert(r == seq![(key, v)]);
        assert(r[0].0 == key);
        assert(r.drop_first().len() == 0);
        if other == key {
            assert(find_field(r, other) == Some(v));
        } else {
            assert(find_field(r, other) == find_field(r.drop_first(), other));
        }
    } else {
        if fs[0].0 != key {
            lemma_find_set_field(fs.drop_first(), key, v, other);
            assert(r[0] == fs[0]);
            assert(r.drop_first() == set_field(fs.drop_first(), key, v));
        } else {
            assert(r[0] == (key, v));
            assert(r.drop_first() == fs.drop_first());
        }
    }
}

proof fn lemma_set_field_at(fs: Seq<(Seq<char>, JsonV)>, key: Seq<char>, v: JsonV, i: int)
    requires
        0 <= i < fs.len(),
        fs[i].0 == key,
        forall|k: int| 0 <= k < i ==> (#[trigger] fs[k]).0 != key,
    ensures
        set_field(fs, key, v) == fs.update(i, (key, v)),
    decreases i,
{
    if i > 0 {
        let t = fs.drop_first();
        assert forall|k: int| 0 <= k < i - 1 implies (#[trigger] t[k]).0 != key by {
            assert(t[k] == fs[k + 1]);
        }
        lemma_set_field_at(t, key, v, i - 1);
        assert(seq![fs[0]] + t.update(i - 1, (key, v)) =~= fs.update(i, (key, v)));
    }
}

proof fn lemma_set_field_absent(fs: Seq<(Seq<char>, JsonV)>, key: Seq<char>, v: JsonV)
    requires
        forall|k: int| 0 <= k < fs.len() ==> (#[trigger] fs[k]).0 != key,
    ensures
        set_field(fs, key, v) == fs.push((key, v)),
    decreases fs.len(),
{
    if fs.len() > 0 {
        let t = fs.drop_first();
        assert forall|k: int| 0 <= k < t.len() implies (#[trigger] t[k]).0 != key by {
            assert(t[k] == fs[k + 1]);
        }
        lemma_set_field_absent(t, key, v);
        assert(seq![fs[0]] + t.push((key, v)) =~= fs.push((key, v)));
    }
}

/// The value of an object after `obj[key] = v`; anything else is unchanged.
pub open spec fn with_field(obj: JsonV, key: Seq<char>, v: JsonV) -> JsonV {
    match obj {
        JsonV::Object(fs) => JsonV::Object(set_field(fs, key, v)),
        _ => obj,
    }
}

/// Sets member `key` of an object to `v` (`map.insert(key, v)`); a non-object is
/// returned unchanged.
pub fn with_member(obj: Json, key: String, v: Json) -> (r: Json)
    ensures
        r@ == with_field(obj@, key@, v@),
{
    let ghost ov = obj@;
    match obj {
        Json::Object(fs0) => {
            let mut fs = fs0;
            proof {
                lemma_fields_view(fs@);
            }
            assert(ov == JsonV::Object(fields_view(fs@)));
            let ghost old_fs = fs@;
            let ghost fv = fields_view(fs@);
            let mut i: usize = 0;
            while i < fs.len()
                invariant
                    i <= fs@.len() == fv.len(),
                    fs@ == old_fs,
                    fv == fields_view(old_fs),
                    ov == JsonV::Object(fv),
                    ov == obj@,
                    forall|k: int| 0 <= k < fs@.len() ==> #[trigger] fv[k] == (
                        fs@[k].0@,
                        json_view(fs@[k].1),
                    ),
                    forall|k: int| 0 <= k < i ==> (#[trigger] fv[k]).0 != key@,
                decreases fs@.len() - i,
            {
                if crate::text::str_eq(fs[i].0.as_str(), key.as_str()) {
                    proof {
                        lemma_set_field_at(fv, key@, v@, i as int);
                    }
                    let (k0, _old_v) = fs.remove(i);
                    fs.insert(i, (k0, v));
                    assert(fs@ =~= old_fs.update(i as int, (old_fs[i as int].0, v)));
                    proof {
                        assert forall|k: int| 0 <= k < fs@.len() implies #[trigger] fv.update(
                            i as int,
                            (key@, v@),
                        )[k] == (fs@[k].0@, json_view(fs@[k].1)) by {
                            if k != i {
                                assert(fs@[k] == old_fs[k]);
                            }
                        }
                        lemma_fields_view_ext(fs@, fv.update(i as int, (key@, v@)));
                    }
                    let r = Json::Object(fs);
                    assert(r@ == JsonV::Object(fv.update(i as int, (key@, v@))));
                    assert(with_field(ov, key@, v@) == JsonV::Object(set_field(fv, key@, v@)));
                    return r;
                }
                i = i + 1;
            }
            proof {
                lemma_set_field_absent(fv, key@, v@);
            }
            fs.push((key, v));
            proof {
                assert forall|k: int| 0 <= k < fs@.len() implies #[trigger] fv.push((key@, v@))[k]
                    == (fs@[k].0@, json_view(fs@[k].1)) by {
                    if k < old_fs.len() {
                        assert(fs@[k] == old_fs[k]);
                    }
                }
                lemma_fields_view_ext(fs@, fv.push((key@, v@)));
            }
            Json::Object(fs)
        },
        other => other,
    }
}

/// An empty object.
pub fn empty_object() -> (r: Json)
    ensures
        r@ == JsonV::Object(Seq::empty()),
{
    let fs: Vec<(String, Json)> = Vec::new();
    proof {
        assert(fields_view(fs@) =~= Seq::empty());
    }
    Json::Object(fs)
}

/// A string value.
pub fn jstr(s: &str) -> (r: Json)
    ensures
        r@ == JsonV::Str(s@),
{
    Json::Str(s.to_string())
}

/// A non-negative integer value.
pub fn jnum(u: u64) -> (r: Json)
    ensures
        r@ == JsonV::PosInt(u),
{
    Json::Num(JsonNum::PosInt(u))
}

/// An array of the given values.
pub fn jarray(items: Vec<Json>) -> (r: Json)
    ensures
        r@ == JsonV::Array(items_view(items@)),
{
    Json::Array(items)
}

} // verus!

verus! {

#[verifier::external_type_specification]
#[verifier::external_body]
pub struct ExJsonValue(serde_json::Value);

/// Converts to a `serde_json::Value`, member by member (numbers by their text).
#[verifier::external_body]
pub(crate) fn to_serde(v: &Json) -> serde_json::Value {
    match v {
        Json::Null => Value::Null,
        Json::Bool(b) => (*b).into(),
        Json::Num(JsonNum::PosInt(u)) => (*u).into(),
        Json::Num(JsonNum::NegInt(i)) => (*i).into(),
        Json::Num(JsonNum::Float(s)) => serde_json::from_str(s).unwrap_or_default(),
        Json::Str(s) => s.clone().into(),
        Json::Array(items) => items.iter().map(to_serde).collect(),
        Json::Object(fs) => Value::Object(fs.iter().map(|(k, x)| (k.clone(), to_serde(x))).collect()),
    }
}

/// Converts from a `serde_json::Value`, member by member.
#[verifier::external_body]
pub(crate) fn from_serde(v: &serde_json::Value) -> Json {
    match v {
        Value::Null => Json::Null,
        Value::Bool(b) => Json::Bool(*b),
        Value::Number(n) => Json::Num(match (n.as_u64(), n.as_i64()) {
            (Some(u), _) => JsonNum::PosInt(u),
            (_, Some(i)) => JsonNum::NegInt(i),
            _ => JsonNum::Float(n.to_string()),
        }),
        Value::String(s) => Json::Str(s.clone()),
        Value::Array(a) => Json::Array(a.iter().map(from_serde).collect()),
        Value::Object(m) => Json::Object(m.iter().map(|(k, x)| (k.clone(), from_serde(x))).collect()),
    }
}

/// The compact JSON text `serde_json` writes for a value.
pub uninterp spec fn json_text(v: JsonV) -> Seq<char>;

/// `serde_json::Value::to_string` (compact JSON text) of the value.
#[verifier::external_body]
pub(crate) fn json_to_string(v: &Json) -> (r: String)
    ensures
        r@ == json_text(v@),
{
    to_serde(v).to_string()
}

/// What `serde_json` parses a text into, if it is valid JSON.
pub uninterp spec fn json_parsed(text: Seq<char>) -> Option<JsonV>;

/// `serde_json::from_str::<Value>`: the parsed value, or `None` when the
/// text is not valid JSON.
#[verifier::external_body]
pub(crate) fn parse_json(text: &str) -> (r: Option<Json>)
    ensures
        match r {
            Some(j) => json_parsed(text@) == Some(j@),
            None => json_parsed(text@) is None,
        },
{
    match serde_json::from_str::<serde_json::Value>(text) {
        Ok(v) => Some(from_serde(&v)),
        Err(_) => None,
    }
}

} // verus!
