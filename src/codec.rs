//! The encodings the configuration formats use, and the outside crates that implement them.

use vstd::prelude::*;
use vstd::utf8::{valid_utf8, decode_utf8};

use crate::json::Json;

verus! {

/// The value of an ASCII hex digit, upper or lower case.
pub open spec fn hex_digit_value(c: char) -> Option<u8> {
    if '0' <= c && c <= '9' {
        Some((c as u32 - '0' as u32) as u8)
    } else if 'a' <= c && c <= 'f' {
        Some((c as u32 - 'a' as u32 + 10) as u8)
    } else if 'A' <= c && c <= 'F' {
        Some((c as u32 - 'A' as u32 + 10) as u8)
    } else {
        None
    }
}

/// The lower case hex digit for a value below 16.
pub open spec fn hex_digit(v: u8) -> char {
    if v < 10 {
        ((v as u32 + '0' as u32) as char)
    } else {
        ((v as u32 - 10 + 'a' as u32) as char)
    }
}

/// The bytes that a string of hex digit pairs stands for.
pub open spec fn hex_decode_spec(s: Seq<char>) -> Option<Seq<u8>>
    decreases s.len(),
{
    if s.len() == 0 {
        Some(Seq::empty())
    } else if s.len() == 1 {
        None
    } else {
        match (hex_digit_value(s[0]), hex_digit_value(s[1]), hex_decode_spec(
            s.subrange(2, s.len() as int),
        )) {
            (Some(hi), Some(lo), Some(rest)) => Some(seq![(hi * 16 + lo) as u8] + rest),
            _ => None,
        }
    }
}

/// Two lower case hex digits for each byte.
pub open spec fn hex_encode_spec(b: Seq<u8>) -> Seq<char>
    decreases b.len(),
{
    if b.len() == 0 {
        Seq::empty()
    } else {
        seq![hex_digit(b[0] / 16), hex_digit(b[0] % 16)] + hex_encode_spec(
            b.subrange(1, b.len() as int),
        )
    }
}

/// Decoding the hex encoding of some bytes gives those bytes back.
pub proof fn lemma_hex_round_trip(b: Seq<u8>)
    ensures
        hex_decode_spec(hex_encode_spec(b)) == Some(b),
    decreases b.len(),
{
    if b.len() > 0 {
        let e = hex_encode_spec(b);
        let rest = b.subrange(1, b.len() as int);
        lemma_hex_round_trip(rest);
        assert(e.subrange(2, e.len() as int) =~= hex_encode_spec(rest));
        let hi = b[0] / 16;
        let lo = b[0] % 16;
        assert(hex_digit_value(hex_digit(hi)) == Some(hi));
        assert(hex_digit_value(hex_digit(lo)) == Some(lo));
        assert(seq![(hi * 16 + lo) as u8] + rest =~= b);
    }
}

/// What `base64`'s standard engine (padded) decodes a text into.
pub uninterp spec fn base64_decode_of(s: Seq<u8>) -> Option<Seq<u8>>;

/// What `base64`'s URL-safe engine without padding decodes a text into.
pub uninterp spec fn base64url_decode_of(s: Seq<u8>) -> Option<Seq<u8>>;

/// The text that `base64`'s standard engine (padded) encodes bytes into.
pub uninterp spec fn base64_encode_of(b: Seq<u8>) -> Seq<char>;

/// The text that `base64`'s URL-safe engine without padding encodes bytes into.
pub uninterp spec fn base64url_encode_of(b: Seq<u8>) -> Seq<char>;

/// What `base32` decodes a text into with the RFC 4648 alphabet.
pub uninterp spec fn base32_decode_of(s: Seq<char>) -> Option<Seq<u8>>;

/// The document that `serde_json` parses out of some bytes, if they are valid JSON.
pub uninterp spec fn json_of(b: Seq<u8>) -> Option<Json>;

/// Relies on `hex::decode`: pairs of hex digits, either case, each give one byte; an odd
/// length or any other character is an error. `hex` reads the text's bytes; a character
/// outside ASCII is no hex digit either way, so reading it by characters gives the same.
#[verifier::external_body]
pub(crate) fn hex_decode(s: &str) -> (r: Option<Vec<u8>>)
    ensures
        match r {
            Some(v) => hex_decode_spec(s@) == Some(v@),
            None => hex_decode_spec(s@) is None,
        },
{
    hex::decode(s).ok()
}

/// Relies on `hex::encode`: two lower case hex digits for each byte.
#[verifier::external_body]
pub(crate) fn hex_encode(b: &[u8]) -> (r: String)
    ensures
        r@ == hex_encode_spec(b@),
{
    hex::encode(b)
}

/// Relies on `base64`'s `STANDARD` engine to decode padded base64.
#[verifier::external_body]
pub(crate) fn base64_decode(s: &[u8]) -> (r: Option<Vec<u8>>)
    ensures
        match r {
            Some(v) => base64_decode_of(s@) == Some(v@),
            None => base64_decode_of(s@) is None,
        },
{
    base64::Engine::decode(&base64::engine::general_purpose::STANDARD, s).ok()
}

/// Relies on `base64`'s `URL_SAFE_NO_PAD` engine to decode unpadded URL-safe base64.
#[verifier::external_body]
pub(crate) fn base64url_decode(s: &[u8]) -> (r: Option<Vec<u8>>)
    ensures
        match r {
            Some(v) => base64url_decode_of(s@) == Some(v@),
            None => base64url_decode_of(s@) is None,
        },
{
    base64::Engine::decode(&base64::engine::general_purpose::URL_SAFE_NO_PAD, s).ok()
}

/// Relies on `base64`'s `STANDARD` engine to encode bytes as padded base64.
#[verifier::external_body]
pub(crate) fn base64_encode(b: &[u8]) -> (r: String)
    ensures
        r@ == base64_encode_of(b@),
{
    base64::Engine::encode(&base64::engine::general_purpose::STANDARD, b)
}

/// Relies on `base64`'s `URL_SAFE_NO_PAD` engine to encode bytes as unpadded URL-safe base64.
#[verifier::external_body]
pub(crate) fn base64url_encode(b: &[u8]) -> (r: String)
    ensures
        r@ == base64url_encode_of(b@),
{
    base64::Engine::encode(&base64::engine::general_purpose::URL_SAFE_NO_PAD, b)
}

/// Relies on `base32::decode` with the padded RFC 4648 alphabet.
#[verifier::external_body]
pub(crate) fn base32_decode(s: &str) -> (r: Option<Vec<u8>>)
    ensures
        match r {
            Some(v) => base32_decode_of(s@) == Some(v@),
            None => base32_decode_of(s@) is None,
        },
{
    base32::decode(base32::Alphabet::RFC4648 { padding: true }, s)
}

/// Relies on `std::str::from_utf8`: the text that valid UTF-8 encodes, and an error otherwise.
#[verifier::external_body]
pub(crate) fn utf8_to_string(b: &[u8]) -> (r: Option<String>)
    ensures
        match r {
            Some(s) => valid_utf8(b@) && s@ == decode_utf8(b@),
            None => !valid_utf8(b@),
        },
{
    std::str::from_utf8(b).ok().map(|s| s.to_owned())
}

/// Relies on `serde_json::from_slice` into a `serde_json::Value`, which `json_value` then
/// carries over into the library's `Json`.
#[verifier::external_body]
pub(crate) fn parse_json(b: &[u8]) -> (r: Option<Json>)
    ensures
        r == json_of(b@),
{
    serde_json::from_slice::<serde_json::Value>(b).ok().map(json_value)
}

/// A parsed JSON value of `serde_json`, carried only as far as `json_value`.
#[verifier::external_type_specification]
#[verifier::external_body]
pub struct ExJsonValue(serde_json::Value);

/// Carries a `serde_json::Value` over into a `Json`, variant for variant; a number keeps
/// what `serde_json::Number::as_u64` gives.
#[verifier::external_body]
fn json_value(v: serde_json::Value) -> Json {
    match v {
        serde_json::Value::Null => Json::Null,
        serde_json::Value::Bool(b) => Json::Bool(b),
        serde_json::Value::Number(n) => Json::Number(n.as_u64()),
        serde_json::Value::String(s) => Json::String(s),
        serde_json::Value::Array(a) => Json::Array(a.into_iter().map(json_value).collect()),
        serde_json::Value::Object(o) => Json::Object(
            o.into_iter().map(|(k, v)| (k, json_value(v))).collect(),
        ),
    }
}

} // verus!
