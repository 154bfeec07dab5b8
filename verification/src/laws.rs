//! What holds of every text and of every header, proved from the
//! specifications of the tokens, of trimming and of the parser.

use crate::auth::{
    authorize, header_payload, parse_credentials, parse_header, scheme, AuthFailure,
    BasicAuthView,
};
use crate::codec::base64_decoding;
use crate::text::{
    is_token, is_trimmed, lemma_token_len_shape, lemma_tokens_of_pair, lemma_trim_is_trimmed,
    lemma_trim_start_shape, token_len, tokens, trim, trim_start,
};
use base64::DecodeError;
use vstd::prelude::*;
use vstd::utf8::{decode_utf8, encode_utf8, valid_utf8};

verus! {

/// Every token has at least one character and holds no whitespace.
pub proof fn lemma_tokens_are_tokens(s: Seq<char>)
    ensures
        forall|i: int| 0 <= i < tokens(s).len() ==> is_token(#[trigger] tokens(s)[i]),
    decreases s.len(),
{
    let rest = trim_start(s);
    if rest.len() > 0 {
        let n = token_len(rest) as int;
        lemma_trim_start_shape(s);
        lemma_token_len_shape(rest);
        lemma_tokens_are_tokens(rest.skip(n));
        assert(is_token(rest.take(n)));
        let following = tokens(rest.skip(n));
        assert forall|i: int| 0 <= i < tokens(s).len() implies is_token(#[trigger] tokens(s)[i]) by {
            if i > 0 {
                assert(tokens(s)[i] == following[i - 1]);
            }
        }
    }
}

/// Trimming changes nothing where there is nothing to trim.
pub proof fn lemma_trim_keeps_trimmed(s: Seq<char>)
    requires
        is_trimmed(s),
    ensures
        trim(s) == s,
{
}

/// A request without the header is refused as `MissingHeader`.
pub proof fn lemma_absent_header_is_missing()
    ensures
        parse_header(None) == Err::<BasicAuthView, AuthFailure>(AuthFailure::MissingHeader),
{
}

/// A header whose first token is not `Basic`, or that has no token at all,
/// is refused as `InvalidHeaderFormat`.
pub proof fn lemma_other_scheme_is_invalid_format(header: Seq<char>)
    requires
        tokens(header).len() == 0 || tokens(header)[0] != scheme(),
    ensures
        parse_header(Some(header)) == Err::<BasicAuthView, AuthFailure>(
            AuthFailure::InvalidHeaderFormat,
        ),
{
}

/// A header that is `Basic` with no token after it is refused as
/// `InvalidHeaderFormat`.
pub proof fn lemma_scheme_alone_is_invalid_format(header: Seq<char>)
    requires
        tokens(header) == seq![scheme()],
    ensures
        parse_header(Some(header)) == Err::<BasicAuthView, AuthFailure>(
            AuthFailure::InvalidHeaderFormat,
        ),
{
}

/// The scheme, one space and a token make a header whose payload is that
/// token.
pub proof fn lemma_payload_of_basic_header(payload: Seq<char>)
    requires
        is_token(payload),
    ensures
        header_payload(scheme() + seq![' '] + payload) == Some(payload),
{
    reveal_strlit("Basic");
    assert(is_token(scheme()));
    lemma_tokens_of_pair(scheme(), ' ', payload);
}

/// A header whose payload the base64 decoder rejects is refused as
/// `InvalidBase64Encoding`.
pub proof fn lemma_bad_base64_is_invalid_base64(header: Seq<char>, payload: Seq<char>)
    requires
        header_payload(header) == Some(payload),
        base64_decoding(payload) is Err,
    ensures
        parse_header(Some(header)) == Err::<BasicAuthView, AuthFailure>(
            AuthFailure::InvalidBase64Encoding,
        ),
{
}

/// A header whose payload decodes to bytes that are not UTF-8 is refused as
/// `InvalidUtf8Encoding`.
pub proof fn lemma_bad_utf8_is_invalid_utf8(header: Seq<char>, payload: Seq<char>, bytes: Seq<u8>)
    requires
        header_payload(header) == Some(payload),
        base64_decoding(payload) == Ok::<Seq<u8>, DecodeError>(bytes),
        !valid_utf8(bytes),
    ensures
        parse_header(Some(header)) == Err::<BasicAuthView, AuthFailure>(
            AuthFailure::InvalidUtf8Encoding,
        ),
{
}

/// A header whose payload decodes to text without a colon is refused as
/// `InvalidHeaderFormat`.
pub proof fn lemma_no_colon_is_invalid_format(
    header: Seq<char>,
    payload: Seq<char>,
    bytes: Seq<u8>,
)
    requires
        header_payload(header) == Some(payload),
        base64_decoding(payload) == Ok::<Seq<u8>, DecodeError>(bytes),
        valid_utf8(bytes),
        !decode_utf8(bytes).contains(':'),
    ensures
        parse_header(Some(header)) == Err::<BasicAuthView, AuthFailure>(
            AuthFailure::InvalidHeaderFormat,
        ),
{
    decode_utf8(bytes).index_of_first_ensures(':');
}

/// Only the first colon splits: a username without a colon, a colon and any
/// password, colons included, give back that username and that password,
/// each trimmed.
pub proof fn lemma_first_colon_splits(username: Seq<char>, password: Seq<char>)
    requires
        !username.contains(':'),
    ensures
        parse_credentials(username + seq![':'] + password) == Ok::<BasicAuthView, AuthFailure>(
            BasicAuthView { username: trim(username), password: trim(password) },
        ),
{
    let text = username + seq![':'] + password;
    let at = username.len() as int;
    text.index_of_first_ensures(':');
    assert(text[at] == ':');
    assert(text.contains(':'));
    let found = text.index_of_first(':').unwrap();
    if found < at {
        assert(username[found] == ':');
    }
    assert(found == at);
    assert(text.take(at) =~= username);
    assert(text.skip(at + 1) =~= password);
}

/// Credentials that come out of a text are trimmed.
pub proof fn lemma_parsed_credentials_are_trimmed(text: Seq<char>)
    ensures
        parse_credentials(text) matches Ok(found) ==> found.is_trimmed(),
{
    if let Some(colon) = text.index_of_first(':') {
        lemma_trim_is_trimmed(text.take(colon));
        lemma_trim_is_trimmed(text.skip(colon + 1));
    }
}

/// Credentials that come out of a header are trimmed.
pub proof fn lemma_parsed_header_is_trimmed(header: Option<Seq<char>>)
    ensures
        parse_header(header) matches Ok(found) ==> found.is_trimmed(),
{
    if let Some(text) = header {
        if let Some(payload) = header_payload(text) {
            if let Ok(bytes) = base64_decoding(payload) {
                if valid_utf8(bytes) {
                    lemma_parsed_credentials_are_trimmed(decode_utf8(bytes));
                }
            }
        }
    }
}

/// No credentials but the expected ones are let through, and every refusal
/// of the parser stays a refusal.
pub proof fn lemma_only_expected_is_authorized(header: Option<Seq<char>>, expected: BasicAuthView)
    ensures
        authorize(header, expected) matches Ok(found) ==> found == expected && parse_header(header)
            == Ok::<BasicAuthView, AuthFailure>(expected),
        parse_header(header) matches Err(failure) ==> authorize(header, expected) == Err::<
            BasicAuthView,
            AuthFailure,
        >(failure),
        parse_header(header) matches Ok(found) && found != expected ==> authorize(header, expected)
            == Err::<BasicAuthView, AuthFailure>(AuthFailure::Unauthorized),
{
}

/// Round trip: where a token decodes to the UTF-8 bytes of a username
/// without a colon, a colon and a password, the header made of `Basic`, one
/// space and that token parses to that username and that password, each
/// trimmed.
pub proof fn lemma_round_trip(username: Seq<char>, password: Seq<char>, payload: Seq<char>)
    requires
        !username.contains(':'),
        is_token(payload),
        base64_decoding(payload) == Ok::<Seq<u8>, DecodeError>(
            encode_utf8(username + seq![':'] + password),
        ),
    ensures
        parse_header(Some(scheme() + seq![' '] + payload)) == Ok::<BasicAuthView, AuthFailure>(
            BasicAuthView { username: trim(username), password: trim(password) },
        ),
{
    let text = username + seq![':'] + password;
    lemma_payload_of_basic_header(payload);
    vstd::utf8::encode_utf8_valid_utf8(text);
    vstd::utf8::encode_utf8_decode_utf8(text);
    lemma_first_colon_splits(username, password);
}

} // verus!
