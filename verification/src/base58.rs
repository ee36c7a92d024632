//! The text form in which values travel between the parties: base 58, as the `bs58`
//! crate writes and reads it with its default alphabet.

use vstd::prelude::*;

verus! {

/// Why the decoder refused a text, in the decoder's own words.
#[derive(Debug, Clone, PartialEq, Eq)]
pub struct Base58Error {
    pub message: String,
}

/// The text that `bs58::encode(..).into_string()` writes for the bytes.
pub uninterp spec fn base58_text(bytes: Seq<u8>) -> Seq<char>;

/// The bytes that `bs58::decode(..).into_vec()` reads from the text, `None` where it
/// refuses the text.
pub uninterp spec fn base58_bytes(text: Seq<char>) -> Option<Seq<u8>>;

/// Calls `bs58::encode(bytes).into_string()`.
///
/// Trusted: the text is a function of the bytes.
#[verifier::external_body]
pub(crate) fn encode(bytes: &[u8]) -> (text: String)
    ensures
        text@ == base58_text(bytes@),
{
    bs58::encode(bytes).into_string()
}

/// Calls `bs58::decode(text).into_vec()` and keeps the text of the decoder's error.
///
/// Trusted: whether the text is taken, and the bytes read from it, are a function of
/// the text. Nothing is claimed of what the error says.
#[verifier::external_body]
pub(crate) fn decode(text: &str) -> (r: Result<Vec<u8>, Base58Error>)
    ensures
        match r {
            Ok(bytes) => base58_bytes(text@) == Some(bytes@),
            Err(_) => base58_bytes(text@).is_none(),
        },
{
    bs58::decode(text).into_vec().map_err(|e| Base58Error { message: e.to_string() })
}

} // verus!
