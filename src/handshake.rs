//! Signing of the `Sec-WebSocket-Key` handshake value.
use vstd::prelude::*;
use vstd::string::StringSliceAdditionalSpecFns;

verus! {

/// The fixed GUID that the protocol appends to the client's key.
pub const WEBSOCKET_GUID: &'static str = "258EAFA5-E914-47DA-95CA-C5AB0DC85B11";

/// The SHA-1 digest of `data`.
pub uninterp spec fn sha1_of(data: Seq<u8>) -> Seq<u8>;

/// The standard base64 encoding (with padding) of `data`.
pub uninterp spec fn base64_of(data: Seq<u8>) -> Seq<char>;

/// The bytes that are hashed for a key: the key, then the GUID.
pub open spec fn signed_bytes(key: Seq<u8>) -> Seq<u8> {
    key + WEBSOCKET_GUID.spec_bytes()
}

/// The `Sec-WebSocket-Accept` value for a key.
pub open spec fn accept_value(key: Seq<u8>) -> Seq<char> {
    base64_of(sha1_of(signed_bytes(key)))
}

/// Relies on `sha1::Sha1` through `digest::Digest::digest`: the SHA-1
/// digest of the input, whose output size is 20 bytes.
#[verifier::external_body]
fn sha1_digest(data: &[u8]) -> (r: Vec<u8>)
    ensures
        r@ == sha1_of(data@),
        r@.len() == 20,
{
    <sha1::Sha1 as sha1::Digest>::digest(data).to_vec()
}

/// Relies on `base64::Engine::encode` with the `STANDARD` engine: the
/// padded base64 text of the input. It panics only where the encoded
/// length overflows `usize`.
#[verifier::external_body]
fn base64_encode(data: &[u8]) -> (r: String)
    requires
        data@.len() <= usize::MAX / 2,
    ensures
        r@ == base64_of(data@),
{
    base64::Engine::encode(&base64::engine::general_purpose::STANDARD, data)
}

/// The bytes that the handshake hashes: the key followed by the GUID.
pub fn handshake_input(sec_websocket_key: &str) -> (r: Vec<u8>)
    ensures
        r@ == signed_bytes(sec_websocket_key.spec_bytes()),
{
    let mut out: Vec<u8> = Vec::new();
    out.extend_from_slice(sec_websocket_key.as_bytes());
    out.extend_from_slice(WEBSOCKET_GUID.as_bytes());
    out
}

/// Signs a `Sec-WebSocket-Key`: base64 of the SHA-1 digest of the key
/// followed by the GUID.
pub fn sign(sec_websocket_key: &str) -> (r: String)
    ensures
        r@ == accept_value(sec_websocket_key.spec_bytes()),
{
    let input = handshake_input(sec_websocket_key);
    let digest = sha1_digest(input.as_slice());
    base64_encode(digest.as_slice())
}

} // verus!
