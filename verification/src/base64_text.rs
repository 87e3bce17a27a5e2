//! Standard base64, as the `base64` crate computes it.
//!
//! The persisted form of a grid is text. Turning bytes into that text and
//! back is left to the `base64` crate: the two functions here call it, and
//! what they promise is taken on trust from that crate.

use vstd::prelude::*;
use base64::engine::general_purpose::STANDARD;
use base64::DecodeError;
use base64::Engine;

verus! {

/// The error of `base64` for text that cannot be decoded. Nothing is known
/// of what it holds; it is only told apart from success.
#[verifier::external_type_specification]
#[verifier::external_body]
pub struct ExDecodeError(base64::DecodeError);

/// The standard base64 text of `bytes`, with padding.
pub uninterp spec fn standard_text(bytes: Seq<u8>) -> Seq<char>;

/// The bytes that `text` stands for in standard base64, or `None` where
/// `text` is not such text.
pub uninterp spec fn standard_bytes(text: Seq<char>) -> Option<Seq<u8>>;

/// Whether the text of `len` bytes can be held: four characters for every
/// three bytes, rounded up, must still be a length.
pub open spec fn encodable_len(len: nat) -> bool {
    len / 3 * 4 + 4 <= isize::MAX
}

/// Tells whether the text of `len` bytes can be held.
pub fn can_encode(len: usize) -> (fits: bool)
    ensures
        fits == encodable_len(len as nat),
{
    len / 3 <= (isize::MAX as usize - 4) / 4
}

/// Calls `Engine::encode` of `base64` on its `STANDARD` engine. The text it
/// returns is the standard base64 of `bytes`, and decoding that text with
/// the same engine gives `bytes` back, which `base64` holds its engines to
/// in its own tests. The length bound keeps the crate's size computation
/// and its buffer within what can be allocated: beyond it the call panics.
#[verifier::external_body]
pub(crate) fn standard_encode(bytes: &[u8]) -> (text: String)
    requires
        encodable_len(bytes@.len()),
    ensures
        text@ == standard_text(bytes@),
        standard_bytes(text@) == Some(bytes@),
{
    STANDARD.encode(bytes)
}

/// Calls `Engine::decode` of `base64` on its `STANDARD` engine. It returns
/// the bytes that `text` stands for, or the crate's error where `text` is
/// not standard base64; which of the two depends on `text` alone.
#[verifier::external_body]
pub(crate) fn standard_decode(text: &str) -> (r: Result<Vec<u8>, DecodeError>)
    ensures
        match r {
            Ok(bytes) => standard_bytes(text@) == Some(bytes@),
            Err(_) => standard_bytes(text@) is None,
        },
{
    STANDARD.decode(text)
}

} // verus!
