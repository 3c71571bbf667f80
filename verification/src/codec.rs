//! Registered message codecs.  The message bridge itself is type-erased and
//! moves opaque byte payloads; these codecs are the typed boundary for the
//! payload kinds the library ships with.  A corrupt payload is recoverable:
//! decoding returns `None` instead of failing the process.

use vstd::prelude::*;

verus! {

/// The byte encoding of an integer message.  Produced by the outside codec;
/// a function of the value alone.
pub uninterp spec fn wire_u64(v: u64) -> Seq<u8>;

/// The byte encoding of a text message.  Produced by the outside codec; a
/// function of the characters alone.
pub uninterp spec fn wire_text(s: Seq<char>) -> Seq<u8>;

/// What the outside decoder yields on an integer payload: the decoded value,
/// or nothing for an undecodable payload.  A function of the bytes alone.
pub uninterp spec fn decoded_u64(bytes: Seq<u8>) -> Option<u64>;

/// What the outside decoder yields on a text payload: the decoded
/// characters, or nothing for an undecodable payload.  A function of the
/// bytes alone.
pub uninterp spec fn decoded_text(bytes: Seq<u8>) -> Option<Seq<char>>;

/// Relies on bincode::encode_to_vec with the standard configuration: the
/// encoding of a u64 depends on the value alone, and writing to a growable
/// buffer cannot fail.
#[verifier::external_body]
fn encode_u64(v: u64) -> (r: Vec<u8>)
    ensures
        r@ == wire_u64(v),
{
    bincode::encode_to_vec(v, bincode::config::standard()).expect("integer encoding cannot fail")
}

/// Relies on bincode::decode_from_slice with the standard configuration: the
/// result is a function of the bytes alone — `None` exactly on an
/// undecodable payload — and decoding inverts encoding, so a buffer that is
/// the encoding of `v` decodes to `v`.
#[verifier::external_body]
fn decode_u64(bytes: &[u8]) -> (r: Option<u64>)
    ensures
        r == decoded_u64(bytes@),
        forall|v: u64| bytes@ == wire_u64(v) ==> r == Some(v),
{
    match bincode::decode_from_slice::<u64, _>(bytes, bincode::config::standard()) {
        Ok((v, _)) => Some(v),
        Err(_) => None,
    }
}

/// Relies on bincode::encode_to_vec with the standard configuration: the
/// encoding of a string depends on its characters alone, and writing to a
/// growable buffer cannot fail.
#[verifier::external_body]
fn encode_text(s: &str) -> (r: Vec<u8>)
    ensures
        r@ == wire_text(s@),
{
    bincode::encode_to_vec(s, bincode::config::standard()).expect("text encoding cannot fail")
}

/// Relies on bincode::decode_from_slice with the standard configuration: the
/// result is a function of the bytes alone — `None` exactly on an
/// undecodable payload — and decoding inverts encoding, so a buffer that is
/// the encoding of text `s` decodes to `s`.
#[verifier::external_body]
fn decode_text(bytes: &[u8]) -> (r: Option<String>)
    ensures
        r is Some <==> decoded_text(bytes@) is Some,
        r is Some ==> r->0@ == decoded_text(bytes@)->0,
        forall|s: Seq<char>| bytes@ == wire_text(s) ==> (r is Some && r->0@ == s),
{
    match bincode::decode_from_slice::<String, _>(bytes, bincode::config::standard()) {
        Ok((t, _)) => Some(t),
        Err(_) => None,
    }
}

/// Encodes an integer message into a payload for the bridge.
pub fn encode_u64_message(v: u64) -> (r: Vec<u8>)
    ensures
        r@ == wire_u64(v),
{
    encode_u64(v)
}

/// Decodes an integer payload.  The result is exactly what the registered
/// codec yields on these bytes: a corrupt or foreign payload gives `None`
/// and is thereby dropped recoverably, never terminating the process.
pub fn decode_u64_message(bytes: &[u8]) -> (r: Option<u64>)
    ensures
        r == decoded_u64(bytes@),
        forall|v: u64| bytes@ == wire_u64(v) ==> r == Some(v),
{
    decode_u64(bytes)
}

/// Encodes a text message into a payload for the bridge.
pub fn encode_text_message(s: &str) -> (r: Vec<u8>)
    ensures
        r@ == wire_text(s@),
{
    encode_text(s)
}

/// Decodes a text payload.  The result is exactly what the registered codec
/// yields on these bytes: a corrupt or foreign payload gives `None` and is
/// thereby dropped recoverably, never terminating the process.
pub fn decode_text_message(bytes: &[u8]) -> (r: Option<String>)
    ensures
        r is Some <==> decoded_text(bytes@) is Some,
        r is Some ==> r->0@ == decoded_text(bytes@)->0,
        forall|s: Seq<char>| bytes@ == wire_text(s) ==> (r is Some && r->0@ == s),
{
    decode_text(bytes)
}

/// Round-trip law for the integer codec: decoding an encoded value yields the
/// value back, for every value.
pub fn u64_codec_round_trip(v: u64) -> (r: Option<u64>)
    ensures
        r == Some(v),
{
    let payload = encode_u64_message(v);
    decode_u64_message(payload.as_slice())
}

/// Round-trip law for the text codec: decoding an encoded string yields the
/// same characters back, for every string.
pub fn text_codec_round_trip(s: &str) -> (r: Option<String>)
    ensures
        r is Some && r->0@ == s@,
{
    let payload = encode_text_message(s);
    decode_text_message(payload.as_slice())
}

} // verus!
