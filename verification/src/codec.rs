//! The two decoders that the parser relies on and does not verify: base64
//! (the `base64` crate) and UTF-8 (the standard library).

use base64::DecodeError;
use std::string::FromUtf8Error;
use vstd::prelude::*;
use vstd::utf8::{decode_utf8, valid_utf8};

verus! {

/// The error of the `base64` crate's decoder, carried as an opaque value.
#[verifier::external_type_specification]
#[verifier::external_body]
pub struct ExDecodeError(base64::DecodeError);

/// The error of `String::from_utf8`, carried as an opaque value.
#[verifier::external_type_specification]
#[verifier::external_body]
pub struct ExFromUtf8Error(std::string::FromUtf8Error);

/// What the standard-alphabet base64 decoder makes of `text`: the decoded
/// bytes, or the reason why `text` is rejected.
pub uninterp spec fn base64_decoding(text: Seq<char>) -> Result<Seq<u8>, DecodeError>;

/// Calls `base64::decode`, the decoder of the standard alphabet. Assumed:
/// what it returns, bytes or error, depends on the text alone, and
/// `base64_decoding` is the name of that dependence. Nothing is assumed of
/// which texts it accepts.
#[verifier::external_body]
pub(crate) fn decode_base64(text: &str) -> (decoded: Result<Vec<u8>, DecodeError>)
    ensures
        match decoded {
            Ok(bytes) => base64_decoding(text@) == Ok::<Seq<u8>, DecodeError>(bytes@),
            Err(error) => base64_decoding(text@) == Err::<Seq<u8>, DecodeError>(error),
        },
{
    base64::decode(text)
}

/// Assumed of `String::from_utf8`: it succeeds exactly on well-formed UTF-8,
/// and the string it returns holds the characters that the bytes encode.
/// Nothing is assumed of the error it returns otherwise.
pub assume_specification[ String::from_utf8 ](bytes: Vec<u8>) -> (text: Result<
    String,
    FromUtf8Error,
>)
    ensures
        text is Ok <==> valid_utf8(bytes@),
        text matches Ok(s) ==> s@ == decode_utf8(bytes@),
;

} // verus!
