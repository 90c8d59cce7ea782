//! The transport encoding of a document body: base64 text, broken into lines
//! by the store.

use vstd::prelude::*;

use crate::text::{lemma_unwrapped_single_lined, unwrap_lines, unwrapped};

verus! {

/// The base64 text that the `base64` crate writes for `data`, in the standard
/// alphabet with padding.
pub uninterp spec fn base64_text(data: Seq<u8>) -> Seq<char>;

/// The bytes that the `base64` crate reads from the base64 text `text` in the
/// standard alphabet; `None` where it refuses the text.
pub uninterp spec fn base64_data(text: Seq<u8>) -> Option<Seq<u8>>;

/// Why the `base64` crate refused a text.
#[verifier::external_type_specification]
#[verifier::external_body]
pub struct ExDecodeError(base64::DecodeError);

/// Calls `base64::encode`. The result is named `base64_text`; nothing more is
/// claimed of it. The call panics where the length of the text does not fit
/// the machine, so such data is left out.
#[verifier::external_body]
fn base64_encode(data: &[u8]) -> (text: String)
    requires
        encodable(data@),
    ensures
        text@ == base64_text(data@),
{
    base64::encode(data)
}

/// Calls `base64::decode`. The result is named `base64_data`: the bytes where
/// the call succeeds, `None` where it returns an error. The call panics where
/// the length of the bytes does not fit the machine, so such text is left
/// out.
#[verifier::external_body]
fn base64_decode(text: &[u8]) -> (data: Result<Vec<u8>, base64::DecodeError>)
    requires
        text@.len() <= isize::MAX,
    ensures
        match data {
            Ok(bytes) => base64_data(text@) == Some(bytes@),
            Err(_) => base64_data(text@) is None,
        },
{
    base64::decode(text)
}

/// The stored body cannot be decoded: its transport encoding is malformed.
#[derive(Clone, Copy, Debug, PartialEq, Eq)]
pub struct CorruptDocumentError {}

/// The base64 text of `body` is short enough for the machine to hold.
pub open spec fn encodable(body: Seq<u8>) -> bool {
    body.len() / 3 * 4 + 4 <= isize::MAX
}

/// The body that the stored text `stored` stands for: its line feeds are
/// dropped and the rest is read as base64. `None` where that fails, or where
/// the text is longer than the machine can hold.
pub open spec fn decoded(stored: Seq<u8>) -> Option<Seq<u8>> {
    if stored.len() <= isize::MAX {
        base64_data(unwrapped(stored))
    } else {
        None
    }
}

/// Decodes a body as the store hands it out.
pub fn decode_body(stored: &[u8]) -> (body: Result<Vec<u8>, CorruptDocumentError>)
    ensures
        match body {
            Ok(bytes) => decoded(stored@) == Some(bytes@),
            Err(_) => decoded(stored@) is None,
        },
{
    let limit: usize = isize::MAX as usize;
    if stored.len() > limit {
        return Err(CorruptDocumentError {  });
    }
    let joined = unwrap_lines(stored);
    proof {
        lemma_unwrapped_single_lined(stored@);
    }
    match base64_decode(joined.as_slice()) {
        Ok(bytes) => Ok(bytes),
        Err(_) => Err(CorruptDocumentError {  }),
    }
}

/// The text that the store takes for `body`; `None` where it would be longer
/// than the machine can hold.
pub open spec fn encoded(body: Seq<u8>) -> Option<Seq<char>> {
    if encodable(body) {
        Some(base64_text(body))
    } else {
        None
    }
}

/// Encodes a body as the store takes it.
pub fn encode_body(body: &[u8]) -> (stored: Option<String>)
    ensures
        match stored {
            Some(text) => encoded(body@) == Some(text@),
            None => encoded(body@) is None,
        },
{
    let groups: usize = body.len() / 3;
    let limit: usize = isize::MAX as usize;
    if groups <= (limit - 4) / 4 {
        Some(base64_encode(body))
    } else {
        None
    }
}

} // verus!
