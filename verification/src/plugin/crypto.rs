//! `mb.crypto.*`: SHA-256 and HMAC-SHA256 as lower-case hex, and base64 in
//! the standard and the URL-safe unpadded alphabets. The digests and codecs are
//! those of the `sha2`, `hmac` and `base64` crates.
use vstd::prelude::*;
use crate::plugin::host::{hex, hex_of};
use base64::Engine;
use hmac::Mac;
use sha2::Digest;

verus! {

/// The UTF-8 encoding of one character.
pub open spec fn char_utf8(c: char) -> Seq<u8> {
    let x = c as u32;
    if x < 0x80 {
        seq![x as u8]
    } else if x < 0x800 {
        seq![(0xC0 + x / 64) as u8, (0x80 + x % 64) as u8]
    } else if x < 0x10000 {
        seq![(0xE0 + x / 4096) as u8, (0x80 + (x / 64) % 64) as u8, (0x80 + x % 64) as u8]
    } else {
        seq![
            (0xF0 + x / 262144) as u8,
            (0x80 + (x / 4096) % 64) as u8,
            (0x80 + (x / 64) % 64) as u8,
            (0x80 + x % 64) as u8,
        ]
    }
}

/// The UTF-8 encoding of a text.
pub open spec fn utf8_bytes(s: Seq<char>) -> Seq<u8>
    decreases s.len(),
{
    if s.len() == 0 {
        Seq::empty()
    } else {
        utf8_bytes(s.drop_last()) + char_utf8(s.last())
    }
}

/// The bytes of a string (`str::as_bytes`): its UTF-8 encoding.
#[verifier::external_body]
fn str_bytes(s: &str) -> (r: Vec<u8>)
    ensures
        r@ == utf8_bytes(s@),
{
    s.as_bytes().to_vec()
}

/// The SHA-256 digest of `data`.
pub uninterp spec fn sha256_of(data: Seq<u8>) -> Seq<u8>;

/// `sha2::Sha256` over `data` (`new`, `update`, `finalize`): the digest,
/// which is 32 bytes long.
#[verifier::external_body]
fn sha256_digest(data: &[u8]) -> (r: Vec<u8>)
    ensures
        r@ == sha256_of(data@),
        r@.len() == 32,
{
    let mut h = sha2::Sha256::new();
    h.update(data);
    h.finalize().to_vec()
}

/// The HMAC-SHA256 tag of `msg` under `key`.
pub uninterp spec fn hmac_sha256_of(key: Seq<u8>, msg: Seq<u8>) -> Seq<u8>;

/// `hmac::Hmac<sha2::Sha256>` (`new_from_slice`, `update`, `finalize`): the
/// 32-byte tag. `new_from_slice` accepts keys of every length for HMAC (the key
/// is hashed or padded to the block size), so no error arises.
#[verifier::external_body]
fn hmac_sha256_tag(key: &[u8], msg: &[u8]) -> (r: Option<Vec<u8>>)
    ensures
        r is Some,
        r->0@ == hmac_sha256_of(key@, msg@),
        r->0@.len() == 32,
{
    match hmac::Hmac::<sha2::Sha256>::new_from_slice(key) {
        Ok(mut mac) => {
            mac.update(msg);
            Some(mac.finalize().into_bytes().to_vec())
        },
        Err(_) => None,
    }
}

/// Standard base64 (with padding) of `data`.
pub uninterp spec fn base64_std_of(data: Seq<u8>) -> Seq<char>;

/// `base64::engine::general_purpose::STANDARD.encode`.
#[verifier::external_body]
pub(crate) fn base64_std_encode(data: &[u8]) -> (r: String)
    requires
        data@.len() < usize::MAX / 2,
    ensures
        r@ == base64_std_of(data@),
{
    base64::engine::general_purpose::STANDARD.encode(data)
}

/// What standard base64 decoding of `text` gives: the bytes, or the decode
/// error's message.
pub uninterp spec fn base64_std_decoded(text: Seq<u8>) -> Result<Seq<u8>, Seq<char>>;

/// A byte result with the message taken by its characters.
pub open spec fn bytes_result_view(r: Result<Vec<u8>, String>) -> Result<Seq<u8>, Seq<char>> {
    match r {
        Ok(v) => Ok(v@),
        Err(e) => Err(e@),
    }
}

/// `base64::engine::general_purpose::STANDARD.decode`, the error turned into
/// its display text.
#[verifier::external_body]
fn base64_std_decode(text: &[u8]) -> (r: Result<Vec<u8>, String>)
    ensures
        bytes_result_view(r) == base64_std_decoded(text@),
{
    match base64::engine::general_purpose::STANDARD.decode(text) {
        Ok(v) => Ok(v),
        Err(e) => Err(e.to_string()),
    }
}

/// URL-safe base64 without padding of `data`.
pub uninterp spec fn base64_url_of(data: Seq<u8>) -> Seq<char>;

/// `base64::engine::general_purpose::URL_SAFE_NO_PAD.encode`.
#[verifier::external_body]
fn base64_url_encode(data: &[u8]) -> (r: String)
    requires
        data@.len() < usize::MAX / 2,
    ensures
        r@ == base64_url_of(data@),
{
    base64::engine::general_purpose::URL_SAFE_NO_PAD.encode(data)
}

/// What URL-safe unpadded base64 decoding of `text` gives.
pub uninterp spec fn base64_url_decoded(text: Seq<u8>) -> Result<Seq<u8>, Seq<char>>;

/// `base64::engine::general_purpose::URL_SAFE_NO_PAD.decode`, the error turned
/// into its display text.
#[verifier::external_body]
fn base64_url_decode(text: &[u8]) -> (r: Result<Vec<u8>, String>)
    ensures
        bytes_result_view(r) == base64_url_decoded(text@),
{
    match base64::engine::general_purpose::URL_SAFE_NO_PAD.decode(text) {
        Ok(v) => Ok(v),
        Err(e) => Err(e.to_string()),
    }
}

/// The text of `bytes` with invalid UTF-8 replaced by U+FFFD.
pub uninterp spec fn lossy_text(bytes: Seq<u8>) -> Seq<char>;

/// `String::from_utf8_lossy`; valid UTF-8 comes back as the text it encodes.
#[verifier::external_body]
fn utf8_lossy(bytes: &[u8]) -> (r: String)
    ensures
        r@ == lossy_text(bytes@),
        forall|s: Seq<char>| #[trigger] utf8_bytes(s) == bytes@ ==> r@ == s,
{
    String::from_utf8_lossy(bytes).to_string()
}

/// `mb.crypto.sha256`: the hex SHA-256 digest of the UTF-8 bytes of `s`.
pub fn sha256_hex(s: &str) -> (r: String)
    ensures
        r@ == hex_of(sha256_of(utf8_bytes(s@))),
        r@.len() == 64,
{
    let d = sha256_digest(str_bytes(s).as_slice());
    let r = hex(d.as_slice());
    proof {
        lemma_hex_len(d@);
    }
    r
}

/// `mb.crypto.hmac_sha256`: the hex HMAC-SHA256 tag of `msg` under `key`.
pub fn hmac_sha256_hex(key: &str, msg: &str) -> (r: String)
    ensures
        r@ == hex_of(hmac_sha256_of(utf8_bytes(key@), utf8_bytes(msg@))),
        r@.len() == 64,
{
    let k = str_bytes(key);
    let m = str_bytes(msg);
    match hmac_sha256_tag(k.as_slice(), m.as_slice()) {
        Some(t) => {
            proof {
                lemma_hex_len(t@);
            }
            hex(t.as_slice())
        },
        None => String::new(),
    }
}

/// Two hex digits per byte.
pub proof fn lemma_hex_len(bytes: Seq<u8>)
    ensures
        hex_of(bytes).len() == 2 * bytes.len(),
    decreases bytes.len(),
{
    if bytes.len() > 0 {
        lemma_hex_len(bytes.drop_last());
    }
}

/// `mb.crypto.base64_encode`: standard base64 of the UTF-8 bytes of `s`.
pub fn base64_encode(s: &str) -> (r: String)
    requires
        utf8_bytes(s@).len() < usize::MAX / 2,
    ensures
        r@ == base64_std_of(utf8_bytes(s@)),
{
    base64_std_encode(str_bytes(s).as_slice())
}

/// A decoded text: the bytes read as UTF-8 (lossily), or the error message.
pub open spec fn decoded_text(d: Result<Seq<u8>, Seq<char>>) -> Result<Seq<char>, Seq<char>> {
    match d {
        Ok(b) => Ok(lossy_text(b)),
        Err(e) => Err(e),
    }
}

/// A text result taken by characters.
pub open spec fn text_result_view(r: Result<String, String>) -> Result<Seq<char>, Seq<char>> {
    match r {
        Ok(v) => Ok(v@),
        Err(e) => Err(e@),
    }
}

/// `mb.crypto.base64_decode`: decodes standard base64 and reads the bytes as
/// UTF-8, replacing invalid sequences.
pub fn base64_decode(s: &str) -> (r: Result<String, String>)
    ensures
        text_result_view(r) == decoded_text(base64_std_decoded(utf8_bytes(s@))),
{
    match base64_std_decode(str_bytes(s).as_slice()) {
        Ok(b) => Ok(utf8_lossy(b.as_slice())),
        Err(e) => Err(e),
    }
}

/// `mb.crypto.base64url_encode`: URL-safe unpadded base64 of the UTF-8 bytes.
pub fn base64url_encode(s: &str) -> (r: String)
    requires
        utf8_bytes(s@).len() < usize::MAX / 2,
    ensures
        r@ == base64_url_of(utf8_bytes(s@)),
{
    base64_url_encode(str_bytes(s).as_slice())
}

/// `mb.crypto.base64url_decode`: decodes URL-safe unpadded base64 (JWT
/// payloads and the like) and reads the bytes as UTF-8, lossily.
pub fn base64url_decode(s: &str) -> (r: Result<String, String>)
    ensures
        text_result_view(r) == decoded_text(base64_url_decoded(utf8_bytes(s@))),
{
    match base64_url_decode(str_bytes(s).as_slice()) {
        Ok(b) => Ok(utf8_lossy(b.as_slice())),
        Err(e) => Err(e),
    }
}

} // verus!
