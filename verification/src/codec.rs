//! Characteristic values as base64 text.
//!
//! Every characteristic value crosses the API boundary as standard
//! base64 (canonical alphabet, `=` padding). `b64_encode` states that
//! encoding mathematically; the encoder and decoder of the base64
//! crate are trusted to agree with it.

use vstd::prelude::*;

use crate::error::Error;
use crate::models::{BluetoothValue, WriteValueRequest};

verus! {

/// The standard base64 alphabet.
pub open spec fn b64_alphabet() -> Seq<char> {
    seq![
        'A', 'B', 'C', 'D', 'E', 'F', 'G', 'H', 'I', 'J', 'K', 'L', 'M', 'N', 'O', 'P', 'Q',
        'R', 'S', 'T', 'U', 'V', 'W', 'X', 'Y', 'Z', 'a', 'b', 'c', 'd', 'e', 'f', 'g', 'h',
        'i', 'j', 'k', 'l', 'm', 'n', 'o', 'p', 'q', 'r', 's', 't', 'u', 'v', 'w', 'x', 'y',
        'z', '0', '1', '2', '3', '4', '5', '6', '7', '8', '9', '+', '/',
    ]
}

/// The alphabet character of one six-bit group.
pub open spec fn b64_char(v: int) -> char {
    b64_alphabet()[v]
}

/// Standard base64 with padding: three bytes become four alphabet
/// characters; a final group of one or two bytes is padded with `=`.
pub open spec fn b64_encode(bytes: Seq<u8>) -> Seq<char>
    decreases bytes.len(),
{
    if bytes.len() == 0 {
        Seq::empty()
    } else if bytes.len() == 1 {
        let b0 = bytes[0] as int;
        seq![b64_char(b0 / 4), b64_char((b0 % 4) * 16), '=', '=']
    } else if bytes.len() == 2 {
        let b0 = bytes[0] as int;
        let b1 = bytes[1] as int;
        seq![b64_char(b0 / 4), b64_char((b0 % 4) * 16 + b1 / 16), b64_char((b1 % 16) * 4), '=']
    } else {
        let b0 = bytes[0] as int;
        let b1 = bytes[1] as int;
        let b2 = bytes[2] as int;
        seq![
            b64_char(b0 / 4),
            b64_char((b0 % 4) * 16 + b1 / 16),
            b64_char((b1 % 16) * 4 + b2 / 64),
            b64_char(b2 % 64),
        ] + b64_encode(bytes.skip(3))
    }
}

/// Relies on base64's `BASE64_STANDARD` engine for encoding: the
/// standard alphabet, three bytes to four characters, `=` padding —
/// exactly [`b64_encode`].
#[verifier::external_body]
fn b64_encode_exec(bytes: &Vec<u8>) -> (r: String)
    ensures
        r@ == b64_encode(bytes@),
{
    base64::Engine::encode(&base64::prelude::BASE64_STANDARD, bytes)
}

/// Relies on base64's `BASE64_STANDARD` engine for decoding: it
/// requires canonical padding and rejects set trailing bits, so it
/// accepts exactly the strings [`b64_encode`] produces — a success
/// means the input is the canonical encoding of the returned bytes,
/// and a failure means the input is the encoding of no byte string.
#[verifier::external_body]
fn b64_decode_exec(value: &str) -> (r: Result<Vec<u8>, String>)
    ensures
        r matches Ok(b) ==> value@ == b64_encode(b@),
        r matches Err(m) ==> forall|b: Seq<u8>| value@ != b64_encode(b),
{
    match base64::Engine::decode(&base64::prelude::BASE64_STANDARD, value) {
        Ok(b) => Ok(b),
        Err(e) => Err(format!("{}", e)),
    }
}

/// Encodes bytes read from a characteristic into the base64 value the
/// caller receives.
pub fn encode_characteristic_value(bytes: &Vec<u8>) -> (r: BluetoothValue)
    ensures
        r.value@ == b64_encode(bytes@),
{
    BluetoothValue { value: b64_encode_exec(bytes) }
}

/// Decodes a caller-supplied base64 payload into the bytes to write.
///
/// Succeeds exactly on canonical base64: a success means the payload
/// is the canonical encoding of the returned bytes, and any payload
/// that encodes some byte string is decoded. Everything else fails
/// with [`Error::InvalidBase64`].
pub fn decode_characteristic_value(value: &str) -> (r: Result<Vec<u8>, Error>)
    ensures
        match r {
            Ok(b) => value@ == b64_encode(b@),
            Err(e) => {
                &&& e matches Error::InvalidBase64(_)
                &&& forall|b: Seq<u8>| value@ != b64_encode(b)
            },
        },
        r is Ok <==> exists|b: Seq<u8>| value@ == b64_encode(b),
{
    match b64_decode_exec(value) {
        Ok(b) => Ok(b),
        Err(m) => Err(Error::InvalidBase64(m)),
    }
}

/// Law: a write followed by a read over a loopback characteristic
/// returns the payload unchanged. A successful write pins the stored
/// bytes to a decode of the payload — so the payload is their
/// canonical encoding — and a read returns exactly that encoding.
pub proof fn lemma_value_round_trip(payload: Seq<char>, stored: Seq<u8>, reread: Seq<char>)
    requires
        payload == b64_encode(stored),
        reread == b64_encode(stored),
    ensures
        reread == payload,
{
}


/// How a characteristic write is issued at the adapter.
#[derive(Debug, PartialEq, Eq, Structural)]
pub enum WriteMode {
    WithResponse,
    WithoutResponse,
}

/// Prepares a write request: decodes the base64 payload and picks the
/// write mode the request asks for.
///
/// Succeeds exactly when the payload is canonical base64, yielding the
/// bytes whose encoding it is; fails with [`Error::InvalidBase64`]
/// otherwise.
pub fn prepare_write_value(request: &WriteValueRequest) -> (r: Result<(Vec<u8>, WriteMode), Error>)
    ensures
        match r {
            Ok((bytes, mode)) => {
                &&& request.value@ == b64_encode(bytes@)
                &&& mode == (if request.with_response {
                    WriteMode::WithResponse
                } else {
                    WriteMode::WithoutResponse
                })
            },
            Err(e) => e matches Error::InvalidBase64(_),
        },
        r is Ok <==> exists|b: Seq<u8>| request.value@ == b64_encode(b),
{
    let bytes = decode_characteristic_value(request.value.as_str())?;
    let mode = if request.with_response {
        WriteMode::WithResponse
    } else {
        WriteMode::WithoutResponse
    };
    Ok((bytes, mode))
}

} // verus!
