//! The accept token: base64 of the SHA-1 digest of the client key followed
//! by the protocol's fixed GUID.
use base64::Engine;
use sha1::Digest;
use vstd::prelude::*;
use vstd::string::StringSliceAdditionalSpecFns;
use vstd::utf8::is_ascii_chars;

verus! {

/// The GUID that RFC 6455 appends to the client key before hashing.
pub const WS_GUID: &'static str = "258EAFA5-E914-47DA-95CA-C5AB0DC85B11";

/// The 20-byte SHA-1 digest of a byte sequence.
pub uninterp spec fn sha1_digest(data: Seq<u8>) -> Seq<u8>;

/// The character of the standard base64 alphabet (RFC 4648) for a 6-bit value.
pub open spec fn b64_char(v: int) -> char {
    if v < 26 {
        (65 + v) as u8 as char
    } else if v < 52 {
        (97 + v - 26) as u8 as char
    } else if v < 62 {
        (48 + v - 52) as u8 as char
    } else if v == 62 {
        '+'
    } else {
        '/'
    }
}

/// Standard base64 (RFC 4648) with `=` padding.
pub open spec fn base64_encode(b: Seq<u8>) -> Seq<char>
    decreases b.len(),
{
    let x = b[0] as int;
    let y = if b.len() > 1 { b[1] as int } else { 0 };
    let z = if b.len() > 2 { b[2] as int } else { 0 };
    if b.len() == 0 {
        seq![]
    } else if b.len() == 1 {
        seq![b64_char(x / 4), b64_char((x % 4) * 16), '=', '=']
    } else if b.len() == 2 {
        seq![b64_char(x / 4), b64_char((x % 4) * 16 + y / 16), b64_char((y % 16) * 4), '=']
    } else {
        seq![
            b64_char(x / 4),
            b64_char((x % 4) * 16 + y / 16),
            b64_char((y % 16) * 4 + z / 64),
            b64_char(z % 64),
        ] + base64_encode(b.subrange(3, b.len() as int))
    }
}

/// The bytes of the GUID.
pub open spec fn guid_bytes() -> Seq<u8> {
    WS_GUID.spec_bytes()
}

/// The accept token for the raw bytes of a client key.
pub open spec fn accept_token(key: Seq<u8>) -> Seq<char> {
    base64_encode(sha1_digest(key + guid_bytes()))
}

/// Relies on `sha1::Sha1`: feeding `a` then `b` and finalising yields the
/// 20-byte digest of their concatenation.
#[verifier::external_body]
fn sha1_of_parts(a: &[u8], b: &[u8]) -> (r: Vec<u8>)
    ensures
        r@ == sha1_digest(a@ + b@),
        r@.len() == 20,
{
    let mut hasher = sha1::Sha1::new();
    hasher.update(a);
    hasher.update(b);
    hasher.finalize().to_vec()
}

/// Relies on `base64::engine::general_purpose::STANDARD.encode`: standard
/// alphabet, padded.
#[verifier::external_body]
fn encode_base64(b: &[u8]) -> (r: String)
    ensures
        r@ == base64_encode(b@),
{
    base64::engine::general_purpose::STANDARD.encode(b)
}

/// Turns the bytes of a `Sec-WebSocket-Key` value into the matching
/// `Sec-WebSocket-Accept` value.
pub fn convert_key(input: &[u8]) -> (r: String)
    ensures
        r@ == accept_token(input@),
{
    let digest = sha1_of_parts(input, WS_GUID.as_bytes());
    encode_digest(digest.as_slice())
}

/// The accept token for a given SHA-1 digest: its standard base64 form.
pub fn encode_digest(digest: &[u8]) -> (r: String)
    ensures
        r@ == base64_encode(digest@),
{
    encode_base64(digest)
}

/// Deriving twice from the same key bytes gives the same token.
pub proof fn lemma_accept_token_deterministic(a: Seq<u8>, b: Seq<u8>)
    requires
        a == b,
    ensures
        accept_token(a) == accept_token(b),
{
}

proof fn lemma_b64_char_ascii(v: int)
    requires
        0 <= v < 64,
    ensures
        '\0' <= b64_char(v) <= '\u{7f}',
{
}

/// Every character of a base64 encoding is ASCII.
pub proof fn lemma_base64_ascii(b: Seq<u8>)
    ensures
        is_ascii_chars(base64_encode(b)),
    decreases b.len(),
{
    if b.len() > 0 {
        let x = b[0] as int;
        let y = if b.len() > 1 { b[1] as int } else { 0 };
        let z = if b.len() > 2 { b[2] as int } else { 0 };
        lemma_b64_char_ascii(x / 4);
        lemma_b64_char_ascii((x % 4) * 16);
        lemma_b64_char_ascii((x % 4) * 16 + y / 16);
        lemma_b64_char_ascii((y % 16) * 4);
        lemma_b64_char_ascii((y % 16) * 4 + z / 64);
        lemma_b64_char_ascii(z % 64);
    }
    if b.len() > 2 {
        lemma_base64_ascii(b.subrange(3, b.len() as int));
        let head = base64_encode(b).subrange(0, 4);
        assert(base64_encode(b) == head + base64_encode(b.subrange(3, b.len() as int)));
    }
}

} // verus!
