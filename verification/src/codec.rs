//! File content is kept as base64 text. Decoding it is the work of the
//! `base64` crate; what is done with the outcome is decided here.

use vstd::prelude::*;
use vstd::string::*;
use base64::Engine;
use crate::outcome::{DefaultReturn, Failure};

verus! {

/// The error `base64` reports for text it cannot decode.
#[verifier::external_type_specification]
#[verifier::external_body]
pub struct ExDecodeError(base64::DecodeError);

/// The bytes that the standard base64 alphabet, with padding, decodes `text`
/// to; `None` for text that is not valid base64.
pub uninterp spec fn base64_decoded(text: Seq<char>) -> Option<Seq<u8>>;

/// Calls `base64::engine::general_purpose::STANDARD.decode`. The contract
/// claims only that the outcome is a function of the text: success and the
/// bytes are those that `base64_decoded` names.
#[verifier::external_body]
fn decode_standard(text: &str) -> (r: Result<Vec<u8>, base64::DecodeError>)
    ensures
        match r {
            Ok(bytes) => base64_decoded(text@) == Some(bytes@),
            Err(_) => base64_decoded(text@) is None,
        },
{
    base64::engine::general_purpose::STANDARD.decode(text)
}

/// The text that the standard base64 alphabet, with padding, encodes `bytes`
/// to.
pub uninterp spec fn base64_encoded(bytes: Seq<u8>) -> Seq<char>;

/// The longest content that can be encoded: four characters stand for three
/// bytes, and the text has to fit into one allocation.
pub open spec fn spec_encodable(len: nat) -> bool {
    (len / 3) * 4 + 4 <= isize::MAX
}

/// Calls `base64::engine::general_purpose::STANDARD.encode`, which panics
/// where the length of the text overflows or is more than can be allocated;
/// such input is left out. The
/// contract claims that the text is a function of the bytes, and that it
/// decodes to the bytes it was made of.
#[verifier::external_body]
fn encode_standard(bytes: &[u8]) -> (r: String)
    requires
        spec_encodable(bytes@.len()),
    ensures
        r@ == base64_encoded(bytes@),
        base64_decoded(r@) == Some(bytes@),
{
    base64::engine::general_purpose::STANDARD.encode(bytes)
}

/// Encodes content as base64 text; there is no text for content that is too
/// long to be encoded.
pub fn encode(bytes: &[u8]) -> (r: Option<String>)
    ensures
        r is Some == spec_encodable(bytes@.len()),
        r matches Some(text) ==> text@ == base64_encoded(bytes@) && base64_decoded(text@) == Some(
            bytes@,
        ),
{
    if bytes.len() / 3 <= (isize::MAX as usize - 4) / 4 {
        Some(encode_standard(bytes))
    } else {
        None
    }
}

/// What a reader is handed for a file under `path`, given how decoding its
/// content ended.
pub open spec fn spec_served(path: Seq<char>, decoded: Option<Seq<u8>>, r: DefaultReturn<
    Option<Vec<u8>>,
>) -> bool {
    match decoded {
        Some(bytes) => {
            &&& r.succeeded(path)
            &&& r.payload matches Some(b)
            &&& b@ == bytes
        },
        None => r.failed(Failure::ContentCorrupt) && r.payload is None,
    }
}

/// Answers a read with the decoded bytes, under the path they were found at,
/// or refuses it where the content did not decode.
pub fn serve_decoded(path: String, decoded: Option<Vec<u8>>) -> (r: DefaultReturn<Option<Vec<u8>>>)
    ensures
        spec_served(
            path@,
            match decoded {
                Some(b) => Some(b@),
                None => None,
            },
            r,
        ),
{
    match decoded {
        Some(bytes) => DefaultReturn::ok(path, Some(bytes)),
        None => DefaultReturn::fail(Failure::ContentCorrupt, None),
    }
}

/// Decodes base64 text.
pub fn decode(text: &str) -> (r: Option<Vec<u8>>)
    ensures
        match r {
            Some(bytes) => base64_decoded(text@) == Some(bytes@),
            None => base64_decoded(text@) is None,
        },
{
    match decode_standard(text) {
        Ok(bytes) => Some(bytes),
        Err(_) => None,
    }
}

} // verus!
