//! Character-level text helpers shared by the protocol and plugin modules.
//!
//! Strings are handled as `Seq<char>` in specifications. The executable helpers
//! convert a `&str` to a `Vec<char>` once and then work on indexes.
use vstd::prelude::*;

verus! {

/// Appends one character to a `String` (`String::push`).
#[verifier::external_body]
pub(crate) fn push_char(s: &mut String, c: char)
    ensures
        final(s)@ == old(s)@.push(c),
{
    s.push(c);
}

/// String equality (`<str as PartialEq>::eq`).
#[verifier::external_body]
pub(crate) fn str_eq(a: &str, b: &str) -> (r: bool)
    ensures
        r == (a@ == b@),
{
    a == b
}

/// The characters of a string, in order.
pub fn chars_of(s: &str) -> (r: Vec<char>)
    ensures
        r@ == s@,
{
    let mut out: Vec<char> = Vec::new();
    for c in it: s.chars()
        invariant
            it.seq() == s@,
            out@ == s@.take(it.index()),
    {
        out.push(c);
        assert(s@.take(it.index() + 1) == s@.take(it.index()).push(c));
    }
    assert(out@ =~= s@);
    out
}

/// Builds a `String` from characters.
pub fn string_of(cs: &[char]) -> (r: String)
    ensures
        r@ == cs@,
{
    let mut out = String::new();
    let mut i: usize = 0;
    while i < cs.len()
        invariant
            i <= cs@.len(),
            out@ == cs@.take(i as int),
        decreases cs@.len() - i,
    {
        push_char(&mut out, cs[i]);
        assert(cs@.take(i + 1) == cs@.take(i as int).push(cs@[i as int]));
        i = i + 1;
    }
    assert(cs@.take(cs@.len() as int) == cs@);
    out
}

} // verus!

verus! {

/// Unicode `White_Space` (the set `char::is_whitespace` tests).
pub open spec fn is_ws(c: char) -> bool {
    let x = c as u32;
    (9 <= x && x <= 13) || x == 32 || x == 0x85 || x == 0xa0 || x == 0x1680 || (0x2000 <= x
        && x <= 0x200a) || x == 0x2028 || x == 0x2029 || x == 0x202f || x == 0x205f || x == 0x3000
}

pub fn char_is_ws(c: char) -> (r: bool)
    ensures
        r == is_ws(c),
{
    let x = c as u32;
    (9 <= x && x <= 13) || x == 32 || x == 0x85 || x == 0xa0 || x == 0x1680 || (0x2000 <= x
        && x <= 0x200a) || x == 0x2028 || x == 0x2029 || x == 0x202f || x == 0x205f || x == 0x3000
}

/// `s` without its leading whitespace.
pub open spec fn trim_start(s: Seq<char>) -> Seq<char>
    decreases s.len(),
{
    if s.len() > 0 && is_ws(s[0]) {
        trim_start(s.drop_first())
    } else {
        s
    }
}

/// `s` without its trailing whitespace.
pub open spec fn trim_end(s: Seq<char>) -> Seq<char>
    decreases s.len(),
{
    if s.len() > 0 && is_ws(s.last()) {
        trim_end(s.drop_last())
    } else {
        s
    }
}

/// `s` without leading and trailing whitespace (`str::trim`).
pub open spec fn trim(s: Seq<char>) -> Seq<char> {
    trim_end(trim_start(s))
}

proof fn lemma_trim_start_skip(s: Seq<char>, i: int)
    requires
        0 <= i <= s.len(),
        forall|k: int| 0 <= k < i ==> is_ws(#[trigger] s[k]),
    ensures
        trim_start(s) == trim_start(s.skip(i)),
    decreases i,
{
    if i == 0 {
        assert(s.skip(0) == s);
    } else {
        let t = s.drop_first();
        assert forall|k: int| 0 <= k < i - 1 implies is_ws(#[trigger] t[k]) by {
            assert(t[k] == s[k + 1]);
        }
        lemma_trim_start_skip(t, i - 1);
        assert(t.skip(i - 1) == s.skip(i));
    }
}

proof fn lemma_trim_end_take(s: Seq<char>, j: int)
    requires
        0 <= j <= s.len(),
        forall|k: int| j <= k < s.len() ==> is_ws(#[trigger] s[k]),
    ensures
        trim_end(s) == trim_end(s.take(j)),
    decreases s.len() - j,
{
    if j == s.len() {
        assert(s.take(j) == s);
    } else {
        let t = s.drop_last();
        assert forall|k: int| j <= k < t.len() implies is_ws(#[trigger] t[k]) by {
            assert(t[k] == s[k]);
        }
        lemma_trim_end_take(t, j);
        assert(t.take(j) == s.take(j));
    }
}

/// Bounds `(i, j)` with `trim(cs) == cs[i..j]`.
pub fn trim_bounds(cs: &Vec<char>) -> (r: (usize, usize))
    ensures
        r.0 <= r.1 <= cs@.len(),
        trim(cs@) == cs@.subrange(r.0 as int, r.1 as int),
        trim_start(cs@) == cs@.skip(r.0 as int),
{
    let n = cs.len();
    let mut i: usize = 0;
    while i < n && char_is_ws(cs[i])
        invariant
            i <= n == cs@.len(),
            forall|k: int| 0 <= k < i ==> is_ws(#[trigger] cs@[k]),
        decreases n - i,
    {
        i = i + 1;
    }
    proof {
        lemma_trim_start_skip(cs@, i as int);
    }
    let ghost t = cs@.skip(i as int);
    assert(trim_start(t) == t);
    let mut j: usize = n;
    while j > i && char_is_ws(cs[j - 1])
        invariant
            i <= j <= n == cs@.len(),
            t == cs@.skip(i as int),
            forall|k: int| j - i <= k < t.len() ==> is_ws(#[trigger] t[k]),
        decreases j,
    {
        assert(t[j - 1 - i] == cs@[j - 1]);
        j = j - 1;
    }
    proof {
        lemma_trim_end_take(t, j - i);
        assert(t.take(j - i) == cs@.subrange(i as int, j as int));
        let u = cs@.subrange(i as int, j as int);
        if u.len() > 0 {
            assert(u.last() == cs@[j - 1]);
        }
    }
    (i, j)
}

/// `str::trim`.
pub fn trim_str(s: &str) -> (r: String)
    ensures
        r@ == trim(s@),
{
    let cs = chars_of(s);
    let (i, j) = trim_bounds(&cs);
    string_of(slice_chars(&cs, i, j).as_slice())
}

/// `str::trim_start`.
pub fn trim_start_str(s: &str) -> (r: String)
    ensures
        r@ == trim_start(s@),
{
    let cs = chars_of(s);
    let (i, _j) = trim_bounds(&cs);
    string_of(slice_chars(&cs, i, cs.len()).as_slice())
}

/// `cs[i..j]` as a new vector.
pub fn slice_chars(cs: &Vec<char>, i: usize, j: usize) -> (r: Vec<char>)
    requires
        i <= j <= cs@.len(),
    ensures
        r@ == cs@.subrange(i as int, j as int),
{
    let mut out: Vec<char> = Vec::new();
    let mut k = i;
    while k < j
        invariant
            i <= k <= j <= cs@.len(),
            out@ == cs@.subrange(i as int, k as int),
        decreases j - k,
    {
        out.push(cs[k]);
        assert(cs@.subrange(i as int, k + 1) == cs@.subrange(i as int, k as int).push(cs@[k as int]));
        k = k + 1;
    }
    out
}

/// ASCII lower-casing of one character (`char::to_ascii_lowercase`).
pub open spec fn lower(c: char) -> char {
    if 'A' <= c && c <= 'Z' {
        ((c as u8) + 32) as char
    } else {
        c
    }
}

pub fn char_lower(c: char) -> (r: char)
    ensures
        r == lower(c),
{
    if 'A' <= c && c <= 'Z' {
        ((c as u8) + 32) as char
    } else {
        c
    }
}

/// ASCII case-insensitive equality (`str::eq_ignore_ascii_case`).
pub open spec fn eq_ignore_case(a: Seq<char>, b: Seq<char>) -> bool {
    a.len() == b.len() && forall|k: int| 0 <= k < a.len() ==> lower(#[trigger] a[k]) == lower(b[k])
}

pub fn chars_eq_ignore_case(a: &Vec<char>, b: &Vec<char>) -> (r: bool)
    ensures
        r == eq_ignore_case(a@, b@),
{
    if a.len() != b.len() {
        return false;
    }
    let mut k: usize = 0;
    while k < a.len()
        invariant
            k <= a@.len() == b@.len(),
            forall|m: int| 0 <= m < k ==> lower(#[trigger] a@[m]) == lower(b@[m]),
        decreases a@.len() - k,
    {
        if char_lower(a[k]) != char_lower(b[k]) {
            return false;
        }
        k = k + 1;
    }
    true
}

pub fn str_eq_ignore_case(a: &str, b: &str) -> (r: bool)
    ensures
        r == eq_ignore_case(a@, b@),
{
    let ca = chars_of(a);
    let cb = chars_of(b);
    chars_eq_ignore_case(&ca, &cb)
}

/// ASCII lower-cased copy (`str::to_ascii_lowercase`).
pub open spec fn lower_seq(s: Seq<char>) -> Seq<char> {
    s.map_values(|c: char| lower(c))
}

pub fn str_to_lower(s: &str) -> (r: String)
    ensures
        r@ == lower_seq(s@),
{
    let cs = chars_of(s);
    let mut out = String::new();
    let mut k: usize = 0;
    while k < cs.len()
        invariant
            k <= cs@.len(),
            cs@ == s@,
            out@ == lower_seq(cs@.take(k as int)),
        decreases cs@.len() - k,
    {
        push_char(&mut out, char_lower(cs[k]));
        assert(lower_seq(cs@.take(k + 1)) == lower_seq(cs@.take(k as int)).push(lower(cs@[k as int])));
        k = k + 1;
    }
    assert(cs@.take(cs@.len() as int) == cs@);
    out
}

/// Whether `pat` occurs in `s` starting at `i`.
pub open spec fn occurs_at(s: Seq<char>, pat: Seq<char>, i: int) -> bool {
    0 <= i && i + pat.len() <= s.len() && s.subrange(i, i + pat.len()) == pat
}

/// First occurrence of `pat` in `s` at or after `from`.
pub fn find_from(s: &Vec<char>, pat: &Vec<char>, from: usize) -> (r: Option<usize>)
    requires
        from <= s@.len(),
    ensures
        match r {
            Some(i) => from <= i && occurs_at(s@, pat@, i as int) && forall|k: int|
                from <= k < i ==> !occurs_at(s@, pat@, k),
            None => forall|k: int| from <= k ==> !occurs_at(s@, pat@, k),
        },
{
    let n = s.len();
    let m = pat.len();
    if m > n || from > n - m {
        return None;
    }
    if m == 0 {
        assert(s@.subrange(from as int, from as int) =~= pat@);
        return Some(from);
    }
    let mut i = from;
    while i <= n - m
        invariant
            from <= i <= n - m + 1,
            1 <= m,
            n == s@.len(),
            m == pat@.len(),
            m <= n,
            forall|k: int| from <= k < i ==> !occurs_at(s@, pat@, k),
        decreases n - i,
    {
        let mut j: usize = 0;
        let mut ok = true;
        while j < m
            invariant
                j <= m,
                i + m <= n,
                n == s@.len(),
                m == pat@.len(),
                ok ==> forall|q: int| 0 <= q < j ==> s@[i + q] == pat@[q],
                !ok ==> !occurs_at(s@, pat@, i as int),
            decreases m - j,
        {
            if s[i + j] != pat[j] {
                ok = false;
                assert(s@.subrange(i as int, i + m)[j as int] == s@[i + j]);
            }
            j = j + 1;
        }
        if ok {
            assert(s@.subrange(i as int, i + m) =~= pat@);
            return Some(i);
        }
        i = i + 1;
    }
    assert forall|k: int| from <= k implies !occurs_at(s@, pat@, k) by {
        if k >= i {
        }
    }
    None
}

/// `pre` is a prefix of `s`.
pub open spec fn has_prefix(s: Seq<char>, pre: Seq<char>) -> bool {
    pre.len() <= s.len() && s.take(pre.len() as int) == pre
}

pub fn chars_start_with(s: &Vec<char>, pre: &Vec<char>) -> (r: bool)
    ensures
        r == has_prefix(s@, pre@),
{
    if pre.len() > s.len() {
        return false;
    }
    let mut k: usize = 0;
    while k < pre.len()
        invariant
            k <= pre@.len() <= s@.len(),
            forall|q: int| 0 <= q < k ==> s@[q] == pre@[q],
        decreases pre@.len() - k,
    {
        if s[k] != pre[k] {
            assert(s@.take(pre@.len() as int)[k as int] == s@[k as int]);
            return false;
        }
        k = k + 1;
    }
    assert(s@.take(pre@.len() as int) =~= pre@);
    true
}

/// Whether `s` ends with `suf`.
pub open spec fn has_suffix(s: Seq<char>, suf: Seq<char>) -> bool {
    suf.len() <= s.len() && s.skip(s.len() - suf.len()) == suf
}

/// `str::ends_with`.
pub fn str_ends_with(s: &str, suf: &str) -> (r: bool)
    ensures
        r == has_suffix(s@, suf@),
{
    let a = chars_of(s);
    let b = chars_of(suf);
    if b.len() > a.len() {
        return false;
    }
    let alen = a.len();
    let off = alen - b.len();
    let mut k: usize = 0;
    while k < b.len()
        invariant
            alen == a@.len(),
            a@ == s@,
            b@ == suf@,
            b@.len() <= a@.len(),
            off + b@.len() == a@.len(),
            k <= b@.len(),
            forall|j: int| 0 <= j < k ==> a@[off + j] == #[trigger] b@[j],
        decreases b@.len() - k,
    {
        if a[off + k] != b[k] {
            proof {
                assert(s@.skip(off as int)[k as int] != suf@[k as int]);
            }
            return false;
        }
        k = k + 1;
    }
    proof {
        assert(s@.skip(off as int) =~= suf@);
    }
    true
}

pub fn str_starts_with(s: &str, pre: &str) -> (r: bool)
    ensures
        r == has_prefix(s@, pre@),
{
    let a = chars_of(s);
    let b = chars_of(pre);
    chars_start_with(&a, &b)
}

} // verus!

verus! {

/// `a` followed by `b`.
pub fn concat_str(a: &str, b: &str) -> (r: String)
    ensures
        r@ == a@ + b@,
{
    let mut out = a.to_string();
    let cb = chars_of(b);
    let mut k: usize = 0;
    while k < cb.len()
        invariant
            k <= cb@.len(),
            cb@ == b@,
            out@ == a@ + cb@.take(k as int),
        decreases cb@.len() - k,
    {
        push_char(&mut out, cb[k]);
        assert(cb@.take(k + 1) == cb@.take(k as int).push(cb@[k as int]));
        assert(a@ + cb@.take(k + 1) == (a@ + cb@.take(k as int)).push(cb@[k as int]));
        k = k + 1;
    }
    assert(cb@.take(cb@.len() as int) == cb@);
    out
}

/// Texts joined with `sep` between each two (`[&str]::join`).
pub open spec fn join_seq(ts: Seq<Seq<char>>, sep: Seq<char>) -> Seq<char>
    decreases ts.len(),
{
    if ts.len() == 0 {
        Seq::empty()
    } else if ts.len() == 1 {
        ts[0]
    } else {
        join_seq(ts.drop_last(), sep) + sep + ts.last()
    }
}

/// Joins the strings with `sep` between each two.
pub fn join_strings(ts: &Vec<String>, sep: &str) -> (r: String)
    ensures
        r@ == join_seq(ts@.map_values(|s: String| s@), sep@),
{
    let ghost tv = ts@.map_values(|s: String| s@);
    if ts.len() == 0 {
        return String::new();
    }
    let mut joined = ts[0].clone();
    let mut k: usize = 1;
    proof {
        assert(tv.take(1) =~= seq![tv[0]]);
    }
    while k < ts.len()
        invariant
            1 <= k <= ts@.len() == tv.len(),
            tv == ts@.map_values(|s: String| s@),
            joined@ == join_seq(tv.take(k as int), sep@),
        decreases ts@.len() - k,
    {
        proof {
            assert(tv.take(k + 1).drop_last() == tv.take(k as int));
            assert(tv.take(k + 1).last() == tv[k as int]);
        }
        let a = concat_str(joined.as_str(), sep);
        joined = concat_str(a.as_str(), ts[k].as_str());
        k = k + 1;
    }
    proof {
        assert(tv.take(tv.len() as int) == tv);
    }
    joined
}

/// Whether `i` is the first position of `c` in `s`.
pub open spec fn is_first_index(s: Seq<char>, c: char, i: int) -> bool {
    0 <= i < s.len() && s[i] == c && forall|j: int| 0 <= j < i ==> s[j] != c
}

/// The first position of `c` in `s`, if it occurs.
pub open spec fn first_index(s: Seq<char>, c: char) -> Option<int> {
    if exists|i: int| #[trigger] is_first_index(s, c, i) {
        Some(choose|i: int| #[trigger] is_first_index(s, c, i))
    } else {
        None
    }
}

/// The part of `s` before the first `c` (all of `s` without one):
/// `s.split(c).next()`.
pub open spec fn before_char(s: Seq<char>, c: char) -> Seq<char> {
    match first_index(s, c) {
        Some(i) => s.take(i),
        None => s,
    }
}

/// The first position of `c` among the characters.
pub fn index_of_char(cs: &Vec<char>, c: char) -> (r: Option<usize>)
    ensures
        match r {
            Some(i) => first_index(cs@, c) == Some(i as int),
            None => first_index(cs@, c) is None,
        },
{
    let mut k: usize = 0;
    while k < cs.len()
        invariant
            k <= cs@.len(),
            forall|j: int| 0 <= j < k ==> cs@[j] != c,
        decreases cs@.len() - k,
    {
        if cs[k] == c {
            proof {
                assert(is_first_index(cs@, c, k as int));
                let w = choose|i: int| #[trigger] is_first_index(cs@, c, i);
                if w < k {
                    assert(cs@[w] == c);
                } else if w > k {
                    assert(cs@[k as int] != c);
                }
            }
            return Some(k);
        }
        k = k + 1;
    }
    proof {
        assert forall|i: int| !#[trigger] is_first_index(cs@, c, i) by {
            if 0 <= i < cs@.len() {
                assert(cs@[i] != c);
            }
        }
    }
    None
}

/// `s.split(c).next()`: the part before the first `c`.
pub fn before_first(s: &str, c: char) -> (r: String)
    ensures
        r@ == before_char(s@, c),
{
    let cs = chars_of(s);
    match index_of_char(&cs, c) {
        Some(i) => string_of(slice_chars(&cs, 0, i).as_slice()),
        None => s.to_string(),
    }
}

/// The media type and data of a `data:` URL: the text after `data:` is split
/// at its first comma, and the media type is what comes before the first `;`.
pub open spec fn data_url_parts(s: Seq<char>) -> Option<(Seq<char>, Seq<char>)> {
    if has_prefix(s, "data:"@) {
        let rest = s.skip(5);
        match first_index(rest, ',') {
            Some(i) => Some((before_char(rest.take(i), ';'), rest.skip(i + 1))),
            None => None,
        }
    } else {
        None
    }
}

/// Splits a `data:` URL (see [`data_url_parts`]).
pub fn split_data_url(s: &str) -> (r: Option<(String, String)>)
    ensures
        match r {
            Some(p) => data_url_parts(s@) == Some((p.0@, p.1@)),
            None => data_url_parts(s@) is None,
        },
{
    proof {
        reveal_strlit("data:");
    }
    if !str_starts_with(s, "data:") {
        return None;
    }
    let cs = chars_of(s);
    let rest = slice_chars(&cs, 5, cs.len());
    assert(rest@ =~= s@.skip(5));
    match index_of_char(&rest, ',') {
        Some(i) => {
            let meta = string_of(slice_chars(&rest, 0, i).as_slice());
            let data = string_of(slice_chars(&rest, i + 1, rest.len()).as_slice());
            assert(rest@.subrange(0, i as int) =~= rest@.take(i as int));
            assert(rest@.subrange(i + 1, rest@.len() as int) =~= rest@.skip(i + 1));
            Some((before_first(meta.as_str(), ';'), data))
        },
        None => None,
    }
}

/// `s` with its first `n` characters removed.
pub fn skip_str(s: &str, n: usize) -> (r: String)
    requires
        n <= s@.len(),
    ensures
        r@ == s@.skip(n as int),
{
    let cs = chars_of(s);
    let v = slice_chars(&cs, n, cs.len());
    string_of(v.as_slice())
}

} // verus!

verus! {

/// The decimal digit character for `d < 10`.
pub open spec fn digit_char(d: nat) -> char {
    ((d + 48) as u8) as char
}

/// Decimal representation of `n` without leading zeros (`u64::to_string`).
pub open spec fn dec(n: nat) -> Seq<char>
    decreases n,
{
    if n < 10 {
        seq![digit_char(n)]
    } else {
        dec(n / 10).push(digit_char(n % 10))
    }
}

/// Decimal text of `n`.
pub fn u64_to_dec(n: u64) -> (r: String)
    ensures
        r@ == dec(n as nat),
{
    let mut digits: Vec<char> = Vec::new();
    let mut m = n;
    while m >= 10
        invariant
            dec(n as nat) == dec(m as nat) + digits@.reverse(),
        decreases m,
    {
        let d = (m % 10) as u8;
        let c = (d + 48) as char;
        let ghost old_digits = digits@;
        assert(dec(m as nat) == dec((m / 10) as nat).push(digit_char((m % 10) as nat)));
        digits.push(c);
        assert(digits@.reverse() == seq![c] + old_digits.reverse()) by {
            assert(digits@.reverse() =~= seq![c] + old_digits.reverse());
        }
        assert(dec((m / 10) as nat).push(c) + old_digits.reverse() =~= dec((m / 10) as nat) + (
        seq![c] + old_digits.reverse()));
        m = m / 10;
    }
    let c0 = ((m as u8) + 48) as char;
    let mut out = String::new();
    push_char(&mut out, c0);
    assert(out@ == dec(m as nat));
    let mut k: usize = digits.len();
    while k > 0
        invariant
            k <= digits@.len(),
            dec(n as nat) == dec(m as nat) + digits@.reverse(),
            out@ == dec(m as nat) + digits@.reverse().take((digits@.len() - k) as int),
        decreases k,
    {
        k = k - 1;
        let c = digits[k];
        push_char(&mut out, c);
        assert(digits@.reverse()[(digits@.len() - 1 - k) as int] == digits@[k as int]);
        assert(digits@.reverse().take((digits@.len() - k) as int) == digits@.reverse().take(
            (digits@.len() - 1 - k) as int,
        ).push(c));
    }
    assert(digits@.reverse().take(digits@.len() as int) == digits@.reverse());
    out
}

} // verus!

verus! {

/// ASCII case-insensitive equality is an equivalence.
pub proof fn lemma_eq_ignore_case_equiv()
    ensures
        forall|a: Seq<char>| #[trigger] eq_ignore_case(a, a),
        forall|a: Seq<char>, b: Seq<char>| eq_ignore_case(a, b) ==> #[trigger] eq_ignore_case(b, a),
        forall|a: Seq<char>, b: Seq<char>, c: Seq<char>|
            eq_ignore_case(a, b) && #[trigger] eq_ignore_case(b, c) ==> #[trigger] eq_ignore_case(a, c),
{
    assert forall|a: Seq<char>, b: Seq<char>, c: Seq<char>|
        eq_ignore_case(a, b) && #[trigger] eq_ignore_case(b, c) implies #[trigger] eq_ignore_case(a, c) by {
        assert forall|k: int| 0 <= k < a.len() implies lower(#[trigger] a[k]) == lower(c[k]) by {
            assert(lower(a[k]) == lower(b[k]));
        }
    }
}

} // verus!

verus! {

/// Bytes of the UTF-8 encoding of `c`.
pub open spec fn char_utf8_len(c: char) -> nat {
    let x = c as u32;
    if x < 0x80 {
        1
    } else if x < 0x800 {
        2
    } else if x < 0x10000 {
        3
    } else {
        4
    }
}

/// Bytes of the UTF-8 encoding of `s`.
pub open spec fn utf8_len(s: Seq<char>) -> nat
    decreases s.len(),
{
    if s.len() == 0 {
        0
    } else {
        utf8_len(s.drop_last()) + char_utf8_len(s.last())
    }
}

/// Length of a string in bytes (`str::len`): the size of its UTF-8 encoding.
#[verifier::external_body]
pub(crate) fn str_len(s: &str) -> (r: usize)
    ensures
        r == utf8_len(s@),
{
    s.len()
}

/// Each character takes at least one byte.
pub proof fn lemma_utf8_len_ge(s: Seq<char>)
    ensures
        utf8_len(s) >= s.len(),
        (forall|k: int| 0 <= k < s.len() ==> (#[trigger] s[k] as u32) < 0x80) ==> utf8_len(s)
            == s.len(),
    decreases s.len(),
{
    if s.len() > 0 {
        let t = s.drop_last();
        assert forall|k: int| 0 <= k < t.len() implies t[k] == #[trigger] s[k] by {}
        lemma_utf8_len_ge(t);
    }
}

} // verus!
