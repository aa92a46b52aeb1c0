//! Base58 text for keys, signatures and instruction payloads.

use vstd::prelude::*;

verus! {

/// `bs58::decode::Error`, opaque to the verifier.
#[verifier::external_type_specification]
#[verifier::external_body]
pub struct ExDecodeError(bs58::decode::Error);

/// The base58 text (Bitcoin alphabet) that `bs58` produces for `bytes`.
pub uninterp spec fn base58_text(bytes: Seq<u8>) -> Seq<char>;

/// The bytes that `bs58` reads from `text`, or `None` where it rejects the
/// text.
pub uninterp spec fn base58_bytes(text: Seq<char>) -> Option<Seq<u8>>;

/// Whether decoding `text` and encoding what comes out gives `text` again.
pub open spec fn round_trips(text: Seq<char>) -> bool {
    base58_bytes(text) matches Some(bytes) && base58_text(bytes) == text
}

/// Calls `bs58::encode(..).into_string()`.
///
/// The result is a function of the input bytes alone, which the contract
/// names `base58_text`. The contract also claims that the decoder of `bs58`
/// reads the input bytes back from the result: both use the same alphabet,
/// and leading zero bytes and leading `1`s stand for each other.
#[verifier::external_body]
pub(crate) fn encode(bytes: &Vec<u8>) -> (text: String)
    ensures
        text@ == base58_text(bytes@),
        base58_bytes(text@) == Some(bytes@),
{
    bs58::encode(bytes).into_string()
}

/// Calls `bs58::decode(..).into_vec()`.
///
/// The outcome is a function of the text alone; the contract gives it the
/// name `base58_bytes` and claims nothing else about it.
#[verifier::external_body]
fn decode(text: &str) -> (bytes: Result<Vec<u8>, bs58::decode::Error>)
    ensures
        match bytes {
            Ok(bytes) => base58_bytes(text@) == Some(bytes@),
            Err(_) => base58_bytes(text@) is None,
        },
{
    bs58::decode(text).into_vec()
}

/// Reads the bytes that a base58 text stands for; `None` where the text is
/// not base58.
pub fn decode_key(text: &str) -> (bytes: Option<Vec<u8>>)
    ensures
        match bytes {
            Some(bytes) => base58_bytes(text@) == Some(bytes@),
            None => base58_bytes(text@) is None,
        },
{
    match decode(text) {
        Ok(bytes) => Some(bytes),
        Err(_) => None,
    }
}

} // verus!
