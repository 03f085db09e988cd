//! Provenance tags on opaque reasoning credentials.
//!
//! A reasoning credential (Anthropic thinking signature, OpenAI
//! `encrypted_content`, Gemini `thoughtSignature`) is only valid at the upstream
//! that issued it. Inbound credentials get a prefix naming their origin;
//! outbound, only a credential of the target's own origin is restored, a foreign
//! one is treated as absent, and an untagged one (injected by a plugin or left
//! from an older session) passes through unchanged.
use vstd::prelude::*;
use crate::text::{chars_of, chars_start_with, concat_str, has_prefix, skip_str, str_eq};

verus! {

pub const SIG_ANTHROPIC: &'static str = "ant:";

pub const SIG_OPENAI: &'static str = "oai:";

pub const SIG_GEMINI: &'static str = "gem:";

/// Chat Completions upstreams carry no credential field: the reasoning text is
/// itself the credential, tagged with this prefix.
pub const SIG_CHAT: &'static str = "chat:";

/// The four origin prefixes, in the order they are tried.
pub open spec fn known_prefixes() -> Seq<Seq<char>> {
    seq![SIG_ANTHROPIC@, SIG_OPENAI@, SIG_GEMINI@, SIG_CHAT@]
}

/// `p` is one of the origin prefixes.
pub open spec fn is_known_prefix(p: Seq<char>) -> bool {
    p == SIG_ANTHROPIC@ || p == SIG_OPENAI@ || p == SIG_GEMINI@ || p == SIG_CHAT@
}

/// `s` already carries an origin prefix.
pub open spec fn is_tagged(s: Seq<char>) -> bool {
    has_prefix(s, SIG_ANTHROPIC@) || has_prefix(s, SIG_OPENAI@) || has_prefix(s, SIG_GEMINI@)
        || has_prefix(s, SIG_CHAT@)
}

/// Inbound tagging: empty or absent credentials become `None`; a credential that
/// already carries an origin prefix is kept as it is (tagging is idempotent);
/// any other credential gets `prefix` in front.
pub open spec fn tag_spec(prefix: Seq<char>, sig: Option<Seq<char>>) -> Option<Seq<char>> {
    match sig {
        None => None,
        Some(s) => if s.len() == 0 {
            None
        } else if is_tagged(s) {
            Some(s)
        } else {
            Some(prefix + s)
        },
    }
}

/// The origin prefix that `s` starts with, tried in the order of
/// [`known_prefixes`].
pub open spec fn origin_of(s: Seq<char>) -> Option<Seq<char>> {
    if has_prefix(s, SIG_ANTHROPIC@) {
        Some(SIG_ANTHROPIC@)
    } else if has_prefix(s, SIG_OPENAI@) {
        Some(SIG_OPENAI@)
    } else if has_prefix(s, SIG_GEMINI@) {
        Some(SIG_GEMINI@)
    } else if has_prefix(s, SIG_CHAT@) {
        Some(SIG_CHAT@)
    } else {
        None
    }
}

/// Outbound: the raw credential when it belongs to `prefix`, `None` for an empty
/// or foreign credential, and an untagged credential unchanged.
pub open spec fn untag_spec(prefix: Seq<char>, sig: Option<Seq<char>>) -> Option<Seq<char>> {
    match sig {
        None => None,
        Some(s) => if s.len() == 0 {
            None
        } else {
            match origin_of(s) {
                Some(p) => if p == prefix {
                    Some(s.skip(p.len() as int))
                } else {
                    None
                },
                None => Some(s),
            }
        },
    }
}

/// Client-bound: the target's own credential is restored; any other is handed
/// on still tagged, so that it can come back and reach its own upstream.
pub open spec fn emit_spec(prefix: Seq<char>, sig: Seq<char>) -> Seq<char> {
    match untag_spec(prefix, Some(sig)) {
        Some(r) => r,
        None => sig,
    }
}

/// Which origin prefix `s` starts with, in the order of [`known_prefixes`].
fn find_origin(s: &str) -> (r: Option<&'static str>)
    ensures
        match r {
            Some(p) => origin_of(s@) == Some(p@),
            None => origin_of(s@) is None,
        },
{
    let cs = chars_of(s);
    let a = chars_of(SIG_ANTHROPIC);
    if chars_start_with(&cs, &a) {
        return Some(SIG_ANTHROPIC);
    }
    let o = chars_of(SIG_OPENAI);
    if chars_start_with(&cs, &o) {
        return Some(SIG_OPENAI);
    }
    let g = chars_of(SIG_GEMINI);
    if chars_start_with(&cs, &g) {
        return Some(SIG_GEMINI);
    }
    let c = chars_of(SIG_CHAT);
    if chars_start_with(&cs, &c) {
        return Some(SIG_CHAT);
    }
    None
}

proof fn lemma_tagged_iff_origin(s: Seq<char>)
    ensures
        is_tagged(s) <==> origin_of(s) is Some,
{
}

/// Tags an inbound credential with `prefix` (see [`tag_spec`]).
pub fn tag_signature(prefix: &str, sig: Option<String>) -> (r: Option<String>)
    ensures
        match r {
            Some(t) => tag_spec(prefix@, match sig {
                Some(s) => Some(s@),
                None => None,
            }) == Some(t@),
            None => tag_spec(prefix@, match sig {
                Some(s) => Some(s@),
                None => None,
            }) is None,
        },
{
    match sig {
        None => None,
        Some(s) => {
            if s.as_str().unicode_len() == 0 {
                return None;
            }
            match find_origin(s.as_str()) {
                Some(_) => Some(s),
                None => Some(concat_str(prefix, s.as_str())),
            }
        },
    }
}

/// Restores the credential owned by `prefix` (see [`untag_spec`]).
pub fn untag_signature(prefix: &str, sig: Option<&str>) -> (r: Option<String>)
    ensures
        match r {
            Some(t) => untag_spec(prefix@, match sig {
                Some(s) => Some(s@),
                None => None,
            }) == Some(t@),
            None => untag_spec(prefix@, match sig {
                Some(s) => Some(s@),
                None => None,
            }) is None,
        },
{
    let s = match sig {
        Some(s) => s,
        None => return None,
    };
    if s.unicode_len() == 0 {
        return None;
    }
    match find_origin(s) {
        Some(p) => {
            if str_eq(p, prefix) {
                Some(skip_str(s, p.unicode_len()))
            } else {
                None
            }
        },
        None => Some(s.to_string()),
    }
}

/// The credential as handed to a client of protocol `prefix` (see [`emit_spec`]).
pub fn emit_signature(prefix: &str, sig: &str) -> (r: String)
    ensures
        r@ == emit_spec(prefix@, sig@),
{
    match untag_signature(prefix, Some(sig)) {
        Some(r) => r,
        None => sig.to_string(),
    }
}

/// The origin prefixes are pairwise distinct and none starts another.
pub proof fn lemma_prefixes_exclusive(s: Seq<char>)
    ensures
        has_prefix(s, SIG_ANTHROPIC@) ==> !has_prefix(s, SIG_OPENAI@) && !has_prefix(
            s,
            SIG_GEMINI@,
        ) && !has_prefix(s, SIG_CHAT@),
        has_prefix(s, SIG_OPENAI@) ==> !has_prefix(s, SIG_GEMINI@) && !has_prefix(s, SIG_CHAT@),
        has_prefix(s, SIG_GEMINI@) ==> !has_prefix(s, SIG_CHAT@),
{
    lemma_prefix_chars();
    if has_prefix(s, SIG_ANTHROPIC@) {
        assert(s.take(4)[0] == s[0]);
    }
    if has_prefix(s, SIG_OPENAI@) {
        assert(s.take(4)[0] == s[0]);
    }
    if has_prefix(s, SIG_GEMINI@) {
        assert(s.take(4)[0] == s[0]);
    }
    if has_prefix(s, SIG_CHAT@) {
        assert(s.take(5)[0] == s[0]);
    }
    if has_prefix(s, SIG_OPENAI@) && has_prefix(s, SIG_CHAT@) {
        assert(s.take(5)[0] == s.take(4)[0]);
    }
}

/// The characters of the origin prefixes.
pub proof fn lemma_prefix_chars()
    ensures
        SIG_ANTHROPIC@ == seq!['a', 'n', 't', ':'],
        SIG_OPENAI@ == seq!['o', 'a', 'i', ':'],
        SIG_GEMINI@ == seq!['g', 'e', 'm', ':'],
        SIG_CHAT@ == seq!['c', 'h', 'a', 't', ':'],
{
    reveal_strlit("ant:");
    reveal_strlit("oai:");
    reveal_strlit("gem:");
    reveal_strlit("chat:");
    assert(SIG_ANTHROPIC@ =~= seq!['a', 'n', 't', ':']);
    assert(SIG_OPENAI@ =~= seq!['o', 'a', 'i', ':']);
    assert(SIG_GEMINI@ =~= seq!['g', 'e', 'm', ':']);
    assert(SIG_CHAT@ =~= seq!['c', 'h', 'a', 't', ':']);
}

/// A credential tagged for an origin's own upstream comes back unchanged: for
/// every non-empty untagged credential `s` and origin prefix `p`,
/// `untag(p, tag(p, s)) == s`.
pub proof fn law_tag_untag_roundtrip(p: Seq<char>, s: Seq<char>)
    requires
        is_known_prefix(p),
        s.len() > 0,
        !is_tagged(s),
    ensures
        tag_spec(p, Some(s)) == Some(p + s),
        untag_spec(p, tag_spec(p, Some(s))) == Some(s),
{
    let t = p + s;
    assert(t.take(p.len() as int) == p);
    assert(t.skip(p.len() as int) == s);
    lemma_prefixes_exclusive(t);
    lemma_prefix_chars();
    assert(has_prefix(t, p));
}

/// A credential tagged by one origin never reaches another origin's upstream:
/// `untag(q, tag(p, s))` is `None` for distinct origin prefixes `p` and `q`.
pub proof fn law_foreign_credential_dropped(p: Seq<char>, q: Seq<char>, s: Seq<char>)
    requires
        is_known_prefix(p),
        is_known_prefix(q),
        p != q,
        s.len() > 0,
        !is_tagged(s),
    ensures
        untag_spec(q, tag_spec(p, Some(s))) is None,
{
    let t = p + s;
    assert(t.take(p.len() as int) == p);
    lemma_prefixes_exclusive(t);
    lemma_prefix_chars();
    assert(has_prefix(t, p));
}

/// Tagging is idempotent: tagging an already tagged credential again, with any
/// prefix, leaves it unchanged.
pub proof fn law_tag_idempotent(p: Seq<char>, q: Seq<char>, sig: Option<Seq<char>>)
    ensures
        tag_spec(q, tag_spec(p, sig)) == tag_spec(p, sig) || !is_known_prefix(p),
{
    match sig {
        None => {},
        Some(s) => {
            if s.len() > 0 && !is_tagged(s) && is_known_prefix(p) {
                let t = p + s;
                assert(t.take(p.len() as int) == p);
                lemma_prefix_chars();
                assert(has_prefix(t, p));
            }
        },
    }
}

/// A client receives its own origin's credential raw and every other credential
/// still tagged: `emit(p, tag(p, s)) == s`, and for another origin `q`,
/// `emit(q, tag(p, s)) == tag(p, s)`.
pub proof fn law_emit_restores_own_keeps_foreign(p: Seq<char>, q: Seq<char>, s: Seq<char>)
    requires
        is_known_prefix(p),
        is_known_prefix(q),
        s.len() > 0,
        !is_tagged(s),
    ensures
        emit_spec(p, p + s) == s,
        p != q ==> emit_spec(q, p + s) == p + s,
{
    law_tag_untag_roundtrip(p, s);
    if p != q {
        law_foreign_credential_dropped(p, q, s);
    }
}

} // verus!
