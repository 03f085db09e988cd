//! The checks and computations behind the `mb.*` host API: hex digests,
//! home-relative path whitelisting, OAuth callback specs, and the small
//! policies of individual calls.
use vstd::prelude::*;
use crate::plugin::bridge::CallbackSpec;
use crate::text::{chars_of, concat_str, has_prefix, is_ws, lower_seq, push_char, str_eq, str_len, str_starts_with, str_to_lower, string_of, trim, trim_bounds, trim_start, trim_start_str, utf8_len, lemma_utf8_len_ge};

verus! {

/// Lower-case hexadecimal digit of `d < 16`.
pub open spec fn hex_digit(d: nat) -> char {
    if d < 10 {
        (48 + d) as char
    } else {
        (87 + d) as char
    }
}

/// Lower-case hexadecimal text of `bytes`, two digits per byte.
pub open spec fn hex_of(bytes: Seq<u8>) -> Seq<char>
    decreases bytes.len(),
{
    if bytes.len() == 0 {
        Seq::empty()
    } else {
        hex_of(bytes.drop_last()) + seq![
            hex_digit((bytes.last() / 16) as nat),
            hex_digit((bytes.last() % 16) as nat),
        ]
    }
}

fn hex_char(d: u8) -> (c: char)
    requires
        d < 16,
    ensures
        c == hex_digit(d as nat),
{
    if d < 10 {
        (d + 48) as char
    } else {
        (d + 87) as char
    }
}

/// Lower-case hexadecimal text of `bytes`.
pub fn hex(bytes: &[u8]) -> (r: String)
    ensures
        r@ == hex_of(bytes@),
{
    let mut s = String::new();
    let mut i: usize = 0;
    while i < bytes.len()
        invariant
            i <= bytes@.len(),
            s@ == hex_of(bytes@.take(i as int)),
        decreases bytes@.len() - i,
    {
        let b = bytes[i];
        proof {
            let t = bytes@.take(i + 1);
            assert(t.drop_last() == bytes@.take(i as int));
            assert(t.last() == b);
        }
        push_char(&mut s, hex_char(b / 16));
        push_char(&mut s, hex_char(b % 16));
        i = i + 1;
    }
    proof {
        assert(bytes@.take(bytes@.len() as int) == bytes@);
    }
    s
}

/// A path separator: `/` or `\`.
pub open spec fn is_sep(c: char) -> bool {
    c == '/' || c == '\\'
}

/// The pieces of `s` between separators, empty ones included
/// (`str::split` on both separators).
pub open spec fn segments(s: Seq<char>) -> Seq<Seq<char>>
    decreases s.len(),
{
    if s.len() == 0 {
        seq![Seq::empty()]
    } else {
        let p = segments(s.drop_last());
        if is_sep(s.last()) {
            p.push(Seq::empty())
        } else {
            p.update(p.len() - 1, p.last().push(s.last()))
        }
    }
}

pub proof fn lemma_segments_nonempty(s: Seq<char>)
    ensures
        segments(s).len() >= 1,
    decreases s.len(),
{
    if s.len() > 0 {
        lemma_segments_nonempty(s.drop_last());
    }
}

/// A segment that names a directory entry: not empty and not `.`.
pub open spec fn kept_segment(seg: Seq<char>) -> bool {
    seg.len() > 0 && seg != seq!['.']
}

/// The segments that name entries, in order.
pub open spec fn clean_segments(segs: Seq<Seq<char>>) -> Seq<Seq<char>>
    decreases segs.len(),
{
    if segs.len() == 0 {
        Seq::empty()
    } else {
        let c = clean_segments(segs.drop_last());
        if kept_segment(segs.last()) {
            c.push(segs.last())
        } else {
            c
        }
    }
}

/// Whether some segment is `..`.
pub open spec fn has_parent_step(segs: Seq<Seq<char>>) -> bool {
    exists|i: int| 0 <= i < segs.len() && #[trigger] segs[i] == seq!['.', '.']
}

/// Whether `t` starts with `~/` or `~\`.
pub open spec fn home_prefixed(t: Seq<char>) -> bool {
    t.len() >= 2 && t[0] == '~' && is_sep(t[1])
}

/// The normalized segments of a home-relative path: the trimmed text must
/// start with `~/` (or `~\`); empty and `.` segments are dropped; a `..`
/// segment, or nothing left, rejects the path.
pub open spec fn home_relative(raw: Seq<char>) -> Option<Seq<Seq<char>>> {
    let t = trim(raw);
    if !home_prefixed(t) {
        None
    } else {
        let segs = segments(t.skip(2));
        if has_parent_step(segs) || clean_segments(segs).len() == 0 {
            None
        } else {
            Some(clean_segments(segs))
        }
    }
}

/// The characters of each string.
pub open spec fn strings_view(v: Seq<String>) -> Seq<Seq<char>> {
    v.map_values(|s: String| s@)
}

pub open spec fn char_vecs_view(v: Seq<Vec<char>>) -> Seq<Seq<char>> {
    v.map_values(|s: Vec<char>| s@)
}

fn split_segments(cs: &Vec<char>, from: usize, to: usize) -> (r: Vec<Vec<char>>)
    requires
        from <= to <= cs@.len(),
    ensures
        char_vecs_view(r@) == segments(cs@.subrange(from as int, to as int)),
{
    let mut done: Vec<Vec<char>> = Vec::new();
    let mut cur: Vec<char> = Vec::new();
    let mut k = from;
    proof {
        assert(cs@.subrange(from as int, from as int).len() == 0);
        assert(char_vecs_view(done@).push(cur@) =~= seq![Seq::<char>::empty()]);
    }
    while k < to
        invariant
            from <= k <= to <= cs@.len(),
            char_vecs_view(done@).push(cur@) == segments(cs@.subrange(from as int, k as int)),
        decreases to - k,
    {
        let c = cs[k];
        let ghost pre = cs@.subrange(from as int, k as int);
        let ghost next = cs@.subrange(from as int, k + 1);
        proof {
            assert(next.drop_last() == pre);
            assert(next.last() == c);
            lemma_segments_nonempty(pre);
        }
        if c == '/' || c == '\\' {
            let ghost old_done = char_vecs_view(done@);
            let finished = cur;
            done.push(finished);
            cur = Vec::new();
            proof {
                assert(char_vecs_view(done@) =~= old_done.push(finished@));
                assert(char_vecs_view(done@).push(cur@) =~= segments(pre).push(Seq::empty()));
            }
        } else {
            let ghost old_cur = cur@;
            cur.push(c);
            proof {
                let p = segments(pre);
                assert(p.last() == old_cur);
                assert(char_vecs_view(done@).push(cur@) =~= p.update(p.len() - 1, old_cur.push(c)));
            }
        }
        k = k + 1;
    }
    let ghost dv = char_vecs_view(done@);
    done.push(cur);
    proof {
        assert(char_vecs_view(done@) =~= dv.push(cur@));
    }
    done
}

fn is_parent_step(v: &Vec<char>) -> (r: bool)
    ensures
        r == (v@ == seq!['.', '.']),
{
    let r = v.len() == 2 && v[0] == '.' && v[1] == '.';
    proof {
        if r {
            assert(v@ =~= seq!['.', '.']);
        }
    }
    r
}

fn is_kept(v: &Vec<char>) -> (r: bool)
    ensures
        r == kept_segment(v@),
{
    if v.len() == 0 {
        return false;
    }
    let r = !(v.len() == 1 && v[0] == '.');
    proof {
        if !r {
            assert(v@ =~= seq!['.']);
        }
    }
    r
}

/// Normalizes a home-relative path (`~/...`) into its segments: drops `.` and
/// empty segments (so separators fold), rejects `..`, rejects anything that
/// does not start with `~/` or `~\`, and rejects a path with no segment left.
pub fn normalize_home_relative(raw: &str) -> (r: Option<Vec<String>>)
    ensures
        match r {
            Some(v) => home_relative(raw@) == Some(strings_view(v@)),
            None => home_relative(raw@) is None,
        },
{
    let cs = chars_of(raw);
    let (i, j) = trim_bounds(&cs);
    let ghost t = trim(raw@);
    if j - i < 2 || cs[i] != '~' || !(cs[i + 1] == '/' || cs[i + 1] == '\\') {
        proof {
            if t.len() >= 2 {
                assert(t[0] == cs@[i as int]);
                assert(t[1] == cs@[i + 1]);
            }
        }
        return None;
    }
    proof {
        assert(t[0] == cs@[i as int]);
        assert(t[1] == cs@[i + 1]);
        assert(t.skip(2) =~= cs@.subrange(i + 2, j as int));
    }
    let segs = split_segments(&cs, i + 2, j);
    let ghost sv = char_vecs_view(segs@);
    let mut parts: Vec<String> = Vec::new();
    let mut k: usize = 0;
    while k < segs.len()
        invariant
            k <= segs@.len() == sv.len(),
            sv == char_vecs_view(segs@),
            home_prefixed(trim(raw@)),
            sv == segments(trim(raw@).skip(2)),
            forall|q: int| 0 <= q < k ==> #[trigger] sv[q] != seq!['.', '.'],
            strings_view(parts@) == clean_segments(sv.take(k as int)),
        decreases segs@.len() - k,
    {
        proof {
            assert(sv.take(k + 1).drop_last() == sv.take(k as int));
            assert(sv.take(k + 1).last() == sv[k as int]);
            assert(sv[k as int] == segs@[k as int]@);
        }
        if is_parent_step(&segs[k]) {
            proof {
                assert(has_parent_step(sv));
            }
            return None;
        }
        if is_kept(&segs[k]) {
            let ghost before = strings_view(parts@);
            let s = string_of(segs[k].as_slice());
            parts.push(s);
            proof {
                assert(strings_view(parts@) =~= before.push(sv[k as int]));
            }
        }
        k = k + 1;
    }
    proof {
        assert(sv.take(sv.len() as int) == sv);
        assert(!has_parent_step(sv));
    }
    if parts.len() == 0 {
        return None;
    }
    Some(parts)
}

/// Segment-wise equality of two paths (case-sensitive, as on Unix hosts).
pub fn path_eq(a: &[String], b: &[String]) -> (r: bool)
    ensures
        r == (strings_view(a@) == strings_view(b@)),
{
    if a.len() != b.len() {
        proof {
            assert(strings_view(a@).len() != strings_view(b@).len());
        }
        return false;
    }
    let mut i: usize = 0;
    while i < a.len()
        invariant
            i <= a@.len() == b@.len(),
            forall|k: int| 0 <= k < i ==> (#[trigger] a@[k])@ == b@[k]@,
        decreases a@.len() - i,
    {
        if !str_eq(a[i].as_str(), b[i].as_str()) {
            proof {
                assert(strings_view(a@)[i as int] != strings_view(b@)[i as int]);
            }
            return false;
        }
        i = i + 1;
    }
    proof {
        assert(strings_view(a@) =~= strings_view(b@));
    }
    true
}

/// Why a requested path is refused: not home-relative, or a `..` in it.
pub open spec fn not_home_relative_message(request: Seq<char>) -> Seq<char> {
    "路径必须是 home 相对（~/...）且无 ..: "@ + request
}

/// Why a requested path is refused: no whitelist entry names it.
pub open spec fn not_whitelisted_message(request: Seq<char>) -> Seq<char> {
    "路径不在 fs_read_allow 白名单内: "@ + request
}

/// Whether some whitelist entry normalizes to `req`.
pub open spec fn whitelisted(allow: Seq<String>, req: Seq<Seq<char>>) -> bool {
    exists|i: int| 0 <= i < allow.len() && home_relative(#[trigger] allow[i]@) == Some(req)
}

/// Checks a `mb.fs.read` request against the whitelist. Both the request and
/// each entry are normalized as home-relative paths and compared segment by
/// segment, exactly (no prefixes, no wildcards). On a match, gives the
/// request's segments below the home directory.
pub fn resolve_fs_whitelist(request: &str, allow: &[String]) -> (r: Result<Vec<String>, String>)
    ensures
        match home_relative(request@) {
            None => r matches Err(e) && e@ == not_home_relative_message(request@),
            Some(req) => if whitelisted(allow@, req) {
                r matches Ok(v) && strings_view(v@) == req
            } else {
                r matches Err(e) && e@ == not_whitelisted_message(request@)
            },
        },
{
    let req = match normalize_home_relative(request) {
        Some(v) => v,
        None => {
            return Err(concat_str("路径必须是 home 相对（~/...）且无 ..: ", request));
        },
    };
    let mut i: usize = 0;
    while i < allow.len()
        invariant
            i <= allow@.len(),
            home_relative(request@) == Some(strings_view(req@)),
            forall|k: int|
                0 <= k < i ==> home_relative(#[trigger] allow@[k]@) != Some(strings_view(req@)),
        decreases allow@.len() - i,
    {
        if let Some(parts) = normalize_home_relative(allow[i].as_str()) {
            if path_eq(req.as_slice(), parts.as_slice()) {
                return Ok(req);
            }
        }
        i = i + 1;
    }
    Err(concat_str("路径不在 fs_read_allow 白名单内: ", request))
}

/// `char::is_ascii_alphanumeric`.
pub open spec fn ascii_alnum(c: char) -> bool {
    ('0' <= c && c <= '9') || ('a' <= c && c <= 'z') || ('A' <= c && c <= 'Z')
}

/// A character allowed in a callback path.
pub open spec fn callback_path_char(c: char) -> bool {
    ascii_alnum(c) || c == '/' || c == '-' || c == '_'
}

/// A well-formed callback path: starts with `/`, at most 64 bytes, and made of
/// ASCII letters, digits and `/-_` only.
pub open spec fn callback_path_ok(p: Seq<char>) -> bool {
    &&& p.len() > 0
    &&& p[0] == '/'
    &&& utf8_len(p) <= 64
    &&& forall|k: int| 0 <= k < p.len() ==> callback_path_char(#[trigger] p[k])
}

/// A well-formed CORS origin: an `http://` or `https://` URL (scheme in any
/// case) of at most 256 bytes.
pub open spec fn origin_ok(o: Seq<char>) -> bool {
    (has_prefix(lower_seq(o), "https://"@) || has_prefix(lower_seq(o), "http://"@)) && utf8_len(o)
        <= 256
}

/// The first ill-formed origin, if any.
pub open spec fn first_bad_origin(os: Seq<String>) -> Option<Seq<char>>
    decreases os.len(),
{
    if os.len() == 0 {
        None
    } else if !origin_ok(os[0]@) {
        Some(os[0]@)
    } else {
        first_bad_origin(os.drop_first())
    }
}

/// The verdict on a callback spec: the trimmed path first, then the number
/// of origins (at most 8), then each origin in order.
pub open spec fn callback_spec_verdict(path: Seq<char>, origins: Seq<String>) -> Result<(), Seq<char>> {
    let p = trim(path);
    if !callback_path_ok(p) {
        Err("回调路径形态非法: "@ + p)
    } else if origins.len() > 8 {
        Err("CORS 允许源过多（上限 8）"@)
    } else {
        match first_bad_origin(origins) {
            Some(o) => Err("CORS 允许源形态非法: "@ + o),
            None => Ok(()),
        }
    }
}

/// A unit result with the message taken by its characters.
pub open spec fn unit_result_view(r: Result<(), String>) -> Result<(), Seq<char>> {
    match r {
        Ok(()) => Ok(()),
        Err(e) => Err(e@),
    }
}

fn ascii_alnum_char(c: char) -> (r: bool)
    ensures
        r == ascii_alnum(c),
{
    ('0' <= c && c <= '9') || ('a' <= c && c <= 'z') || ('A' <= c && c <= 'Z')
}

fn origin_well_formed(o: &str) -> (r: bool)
    ensures
        r == origin_ok(o@),
{
    let lower = str_to_lower(o);
    let https = str_starts_with(lower.as_str(), "https://");
    let http = str_starts_with(lower.as_str(), "http://");
    (https || http) && str_len(o) <= 256
}

/// Checks a callback listener spec before it reaches the host: the path's
/// shape, the number of CORS origins, and each origin's shape.
pub fn validate_callback_spec(spec: &CallbackSpec) -> (r: Result<(), String>)
    ensures
        unit_result_view(r) == callback_spec_verdict(spec.path@, spec.origins@),
{
    let p = crate::text::trim_str(spec.path.as_str());
    let cs = chars_of(p.as_str());
    let mut ok = cs.len() > 0 && cs[0] == '/' && str_len(p.as_str()) <= 64;
    let mut k: usize = 0;
    while k < cs.len()
        invariant
            k <= cs@.len(),
            cs@ == p@,
            ok ==> forall|q: int| 0 <= q < k ==> callback_path_char(#[trigger] cs@[q]),
            ok ==> cs@.len() > 0 && cs@[0] == '/' && utf8_len(p@) <= 64,
            !ok ==> !callback_path_ok(p@),
        decreases cs@.len() - k,
    {
        let c = cs[k];
        if !(ascii_alnum_char(c) || c == '/' || c == '-' || c == '_') {
            ok = false;
        }
        k = k + 1;
    }
    if !ok {
        return Err(concat_str("回调路径形态非法: ", p.as_str()));
    }
    if spec.origins.len() > 8 {
        return Err("CORS 允许源过多（上限 8）".to_string());
    }
    let mut i: usize = 0;
    assert(spec.origins@.skip(0) == spec.origins@);
    while i < spec.origins.len()
        invariant
            i <= spec.origins@.len() <= 8,
            callback_path_ok(trim(spec.path@)),
            first_bad_origin(spec.origins@) == first_bad_origin(spec.origins@.skip(i as int)),
        decreases spec.origins@.len() - i,
    {
        proof {
            assert(spec.origins@.skip(i as int).drop_first() == spec.origins@.skip(i + 1));
        }
        let o = &spec.origins[i];
        if !origin_well_formed(o.as_str()) {
            return Err(concat_str("CORS 允许源形态非法: ", o.as_str()));
        }
        i = i + 1;
    }
    Ok(())
}

/// The secret scope of plugin `plugin`: secrets live in the plugin's own
/// namespace, `{plugin}/{scope}`.
pub fn secret_scope(plugin: &str, scope: &str) -> (r: String)
    ensures
        r@ == plugin@ + "/"@ + scope@,
{
    let a = concat_str(plugin, "/");
    concat_str(a.as_str(), scope)
}

/// How long one `mb.oauth.callback_await` waits: the requested milliseconds
/// (1000 when none), at most 30 seconds.
pub fn callback_wait_ms(timeout_ms: Option<u64>) -> (r: u64)
    ensures
        r == match timeout_ms {
            Some(t) => if t < 30_000 {
                t
            } else {
                30_000
            },
            None => 1000,
        },
{
    let t = match timeout_ms {
        Some(t) => t,
        None => 1000,
    };
    if t < 30_000 {
        t
    } else {
        30_000
    }
}

/// Why `mb.random.bytes` refused a length.
pub open spec fn random_len_message() -> Seq<char> {
    "mb.random.bytes 长度须在 1..=4096"@
}

/// `mb.random.bytes` accepts lengths 1 to 4096.
pub fn check_random_len(n: usize) -> (r: Result<(), String>)
    ensures
        unit_result_view(r) == if 1 <= n <= 4096 {
            Ok(())
        } else {
            Err(random_len_message())
        },
{
    if n == 0 || n > 4096 {
        return Err("mb.random.bytes 长度须在 1..=4096".to_string());
    }
    Ok(())
}

/// Whether `url`, leading whitespace ignored and scheme in any case, is an
/// `http://` or `https://` URL.
pub open spec fn external_url_ok(url: Seq<char>) -> bool {
    let l = lower_seq(trim_start(url));
    has_prefix(l, "https://"@) || has_prefix(l, "http://"@)
}

/// Why `mb.open_external` refused a URL.
pub open spec fn external_url_message() -> Seq<char> {
    "mb.open_external 仅允许 http/https URL"@
}

/// `mb.open_external` opens only http and https URLs (no `file://` and the
/// like).
pub fn check_external_url(url: &str) -> (r: Result<(), String>)
    ensures
        unit_result_view(r) == if external_url_ok(url@) {
            Ok(())
        } else {
            Err(external_url_message())
        },
{
    let t = trim_start_str(url);
    let lower = str_to_lower(t.as_str());
    if !(str_starts_with(lower.as_str(), "https://") || str_starts_with(lower.as_str(), "http://")) {
        return Err("mb.open_external 仅允许 http/https URL".to_string());
    }
    Ok(())
}

} // verus!
