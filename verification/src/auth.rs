//! The `Authorization: Basic` header: what it parses to, and why it may be
//! refused.

use crate::codec::{base64_decoding, decode_base64};
use crate::text::{
    chars_of, find_first, is_trimmed, lemma_trim_is_trimmed, next_token, range_equals, tokens,
    trim, trim_bounds,
};
use base64::DecodeError;
use std::string::FromUtf8Error;
use vstd::prelude::*;
use vstd::utf8::{decode_utf8, valid_utf8};

verus! {

/// HTTP status of a request that is not authenticated.
pub const UNAUTHORIZED: u16 = 401;

/// HTTP status of a request whose credentials cannot be decoded.
pub const BAD_REQUEST: u16 = 400;

/// A username and a password, as a client presents them.
#[derive(Debug, PartialEq, Eq)]
pub struct BasicAuth {
    pub username: String,
    pub password: String,
}

/// The mathematical content of a `BasicAuth`.
pub struct BasicAuthView {
    pub username: Seq<char>,
    pub password: Seq<char>,
}

impl BasicAuthView {
    /// Neither the username nor the password starts or ends with
    /// whitespace.
    pub open spec fn is_trimmed(self) -> bool {
        is_trimmed(self.username) && is_trimmed(self.password)
    }
}

impl View for BasicAuth {
    type V = BasicAuthView;

    open spec fn view(&self) -> BasicAuthView {
        BasicAuthView { username: self.username@, password: self.password@ }
    }
}

/// Why a request is refused, without the decoder's detail.
#[derive(Debug, Clone, Copy, PartialEq, Eq, Structural)]
pub enum AuthFailure {
    /// The request has no `Authorization` header.
    MissingHeader,
    /// The header is not `Basic`, followed by a payload that holds a colon.
    InvalidHeaderFormat,
    /// The payload is not base64.
    InvalidBase64Encoding,
    /// The decoded payload is not UTF-8.
    InvalidUtf8Encoding,
    /// The credentials are not the expected ones.
    Unauthorized,
}

/// Why a request is refused, with the decoder's own error where a decoder
/// refused the payload.
#[derive(Debug)]
pub enum BasicAuthError {
    MissingHeader,
    InvalidHeaderFormat,
    InvalidBase64Encoding(DecodeError),
    InvalidUtf8Encoding(FromUtf8Error),
    Unauthorized,
}

impl View for BasicAuthError {
    type V = AuthFailure;

    open spec fn view(&self) -> AuthFailure {
        match self {
            BasicAuthError::MissingHeader => AuthFailure::MissingHeader,
            BasicAuthError::InvalidHeaderFormat => AuthFailure::InvalidHeaderFormat,
            BasicAuthError::InvalidBase64Encoding(_) => AuthFailure::InvalidBase64Encoding,
            BasicAuthError::InvalidUtf8Encoding(_) => AuthFailure::InvalidUtf8Encoding,
            BasicAuthError::Unauthorized => AuthFailure::Unauthorized,
        }
    }
}

/// The scheme token of HTTP Basic authentication.
pub open spec fn scheme() -> Seq<char> {
    "Basic"@
}

/// The payload of a header: its second whitespace-delimited token, provided
/// that the first one is the scheme. Tokens after the second are ignored.
pub open spec fn header_payload(header: Seq<char>) -> Option<Seq<char>> {
    let parts = tokens(header);
    if parts.len() >= 2 && parts[0] == scheme() {
        Some(parts[1])
    } else {
        None
    }
}

/// The credentials in `text`: what stands before its first colon and what
/// stands after it, each trimmed. A text without a colon holds none.
pub open spec fn parse_credentials(text: Seq<char>) -> Result<BasicAuthView, AuthFailure> {
    match text.index_of_first(':') {
        Some(colon) => Ok(
            BasicAuthView {
                username: trim(text.take(colon)),
                password: trim(text.skip(colon + 1)),
            },
        ),
        None => Err(AuthFailure::InvalidHeaderFormat),
    }
}

/// The credentials in decoded bytes, which have to be UTF-8.
pub open spec fn parse_decoded(bytes: Seq<u8>) -> Result<BasicAuthView, AuthFailure> {
    if valid_utf8(bytes) {
        parse_credentials(decode_utf8(bytes))
    } else {
        Err(AuthFailure::InvalidUtf8Encoding)
    }
}

/// The credentials in a payload, which has to be base64.
pub open spec fn parse_payload(payload: Seq<char>) -> Result<BasicAuthView, AuthFailure> {
    match base64_decoding(payload) {
        Ok(bytes) => parse_decoded(bytes),
        Err(_) => Err(AuthFailure::InvalidBase64Encoding),
    }
}

/// The credentials in the value of an `Authorization` header, or the reason
/// why it holds none.
pub open spec fn parse_header(header: Option<Seq<char>>) -> Result<BasicAuthView, AuthFailure> {
    match header {
        None => Err(AuthFailure::MissingHeader),
        Some(text) => match header_payload(text) {
            None => Err(AuthFailure::InvalidHeaderFormat),
            Some(payload) => parse_payload(payload),
        },
    }
}

/// The credentials of a request, which have to be the expected ones.
pub open spec fn authorize(header: Option<Seq<char>>, expected: BasicAuthView) -> Result<
    BasicAuthView,
    AuthFailure,
> {
    match parse_header(header) {
        Ok(found) => if found == expected {
            Ok(found)
        } else {
            Err(AuthFailure::Unauthorized)
        },
        Err(failure) => Err(failure),
    }
}

/// A result as the specifications above state it: credentials by their
/// view, an error by its kind.
pub open spec fn outcome(result: Result<BasicAuth, BasicAuthError>) -> Result<
    BasicAuthView,
    AuthFailure,
> {
    match result {
        Ok(auth) => Ok(auth@),
        Err(error) => Err(error@),
    }
}

impl AuthFailure {
    /// The HTTP status that answers this failure: 400 where the payload
    /// could not be decoded, 401 otherwise.
    pub open spec fn status(self) -> u16 {
        match self {
            AuthFailure::InvalidBase64Encoding | AuthFailure::InvalidUtf8Encoding => BAD_REQUEST,
            _ => UNAUTHORIZED,
        }
    }

    /// The HTTP status that answers this failure.
    pub fn status_code(self) -> (code: u16)
        ensures
            code == self.status(),
    {
        match self {
            AuthFailure::InvalidBase64Encoding | AuthFailure::InvalidUtf8Encoding => BAD_REQUEST,
            _ => UNAUTHORIZED,
        }
    }
}

impl BasicAuthError {
    /// The failure without the decoder's detail.
    pub fn kind(&self) -> (kind: AuthFailure)
        ensures
            kind == self@,
    {
        match self {
            BasicAuthError::MissingHeader => AuthFailure::MissingHeader,
            BasicAuthError::InvalidHeaderFormat => AuthFailure::InvalidHeaderFormat,
            BasicAuthError::InvalidBase64Encoding(_) => AuthFailure::InvalidBase64Encoding,
            BasicAuthError::InvalidUtf8Encoding(_) => AuthFailure::InvalidUtf8Encoding,
            BasicAuthError::Unauthorized => AuthFailure::Unauthorized,
        }
    }

    /// The HTTP status that answers this error.
    pub fn status_code(&self) -> (code: u16)
        ensures
            code == self@.status(),
    {
        self.kind().status_code()
    }
}

impl BasicAuth {
    /// Parses the value of an `Authorization` header, `None` where the
    /// request has none. A base64 error carries what the decoder said of the
    /// payload.
    pub fn from_authorization_header(header: Option<&str>) -> (result: Result<
        BasicAuth,
        BasicAuthError,
    >)
        ensures
            outcome(result) == parse_header(header.deep_view()),
            result matches Err(BasicAuthError::InvalidBase64Encoding(error)) ==> {
                &&& header matches Some(text)
                &&& header_payload(text@) matches Some(payload)
                &&& base64_decoding(payload) == Err::<Seq<u8>, DecodeError>(error)
            },
            result matches Ok(auth) ==> auth@.is_trimmed(),
    {
        let text = match header {
            Some(text) => text,
            None => {
                return Err(BasicAuthError::MissingHeader);
            },
        };
        let chars = chars_of(text);
        let scheme = chars_of("Basic");
        assert(chars@.skip(0) =~= text@);
        let first = match next_token(&chars, 0) {
            Some(bounds) => bounds,
            None => {
                return Err(BasicAuthError::InvalidHeaderFormat);
            },
        };
        if !range_equals(&chars, first.0, first.1, &scheme) {
            return Err(BasicAuthError::InvalidHeaderFormat);
        }
        let second = match next_token(&chars, first.1) {
            Some(bounds) => bounds,
            None => {
                return Err(BasicAuthError::InvalidHeaderFormat);
            },
        };
        let payload = text.substring_char(second.0, second.1);
        BasicAuth::from_base64_encoded(payload)
    }

    /// Parses the payload of a header: base64 of UTF-8 text that holds a
    /// colon. A base64 error carries what the decoder said of the payload.
    pub fn from_base64_encoded(payload: &str) -> (result: Result<BasicAuth, BasicAuthError>)
        ensures
            outcome(result) == parse_payload(payload@),
            result matches Err(BasicAuthError::InvalidBase64Encoding(error)) ==> base64_decoding(
                payload@,
            ) == Err::<Seq<u8>, DecodeError>(error),
            result matches Ok(auth) ==> auth@.is_trimmed(),
    {
        BasicAuth::from_decoded(decode_base64(payload))
    }

    /// Goes on from what the base64 decoder returned: its error is handed
    /// on, its bytes have to be UTF-8 text that holds a colon.
    pub fn from_decoded(decoded: Result<Vec<u8>, DecodeError>) -> (result: Result<
        BasicAuth,
        BasicAuthError,
    >)
        ensures
            match decoded {
                Ok(bytes) => outcome(result) == parse_decoded(bytes@),
                Err(error) => result == Err::<BasicAuth, BasicAuthError>(
                    BasicAuthError::InvalidBase64Encoding(error),
                ),
            },
            result matches Ok(auth) ==> auth@.is_trimmed(),
    {
        match decoded {
            Ok(bytes) => BasicAuth::from_decoded_text(String::from_utf8(bytes)),
            Err(error) => Err(BasicAuthError::InvalidBase64Encoding(error)),
        }
    }

    /// Goes on from what the UTF-8 decoder returned: its error is handed on,
    /// its text has to hold a colon.
    pub fn from_decoded_text(text: Result<String, FromUtf8Error>) -> (result: Result<
        BasicAuth,
        BasicAuthError,
    >)
        ensures
            match text {
                Ok(text) => outcome(result) == parse_credentials(text@),
                Err(error) => result == Err::<BasicAuth, BasicAuthError>(
                    BasicAuthError::InvalidUtf8Encoding(error),
                ),
            },
            result matches Ok(auth) ==> auth@.is_trimmed(),
    {
        match text {
            Ok(text) => BasicAuth::from_credentials(text.as_str()),
            Err(error) => Err(BasicAuthError::InvalidUtf8Encoding(error)),
        }
    }

    /// Splits `username:password` at the first colon and trims both parts.
    /// Either part may be empty; a text without a colon is refused.
    pub fn from_credentials(text: &str) -> (result: Result<BasicAuth, BasicAuthError>)
        ensures
            outcome(result) == parse_credentials(text@),
            result matches Err(error) ==> error == BasicAuthError::InvalidHeaderFormat,
            result matches Ok(auth) ==> auth@.is_trimmed(),
    {
        let chars = chars_of(text);
        match find_first(&chars, ':') {
            Some(colon) => {
                let user = trim_bounds(&chars, 0, colon);
                let pass = trim_bounds(&chars, colon + 1, chars.len());
                assert(chars@.subrange(0, colon as int) =~= text@.take(colon as int));
                assert(chars@.subrange(colon + 1, chars.len() as int) =~= text@.skip(colon + 1));
                proof {
                    lemma_trim_is_trimmed(text@.take(colon as int));
                    lemma_trim_is_trimmed(text@.skip(colon + 1));
                }
                let username = text.substring_char(user.0, user.1).to_owned();
                let password = text.substring_char(pass.0, pass.1).to_owned();
                Ok(BasicAuth { username, password })
            },
            None => Err(BasicAuthError::InvalidHeaderFormat),
        }
    }

    /// Whether these are the expected credentials: the same username and the
    /// same password, character for character.
    pub fn same_as(&self, expected: &BasicAuth) -> (same: bool)
        ensures
            same == (self@ == expected@),
    {
        self.username == expected.username && self.password == expected.password
    }

    /// Lets through the expected credentials and no others: a well-formed
    /// header alone authenticates nobody.
    pub fn authenticate(self, expected: &BasicAuth) -> (result: Result<BasicAuth, BasicAuthError>)
        ensures
            self@ == expected@ ==> result == Ok::<BasicAuth, BasicAuthError>(self),
            self@ != expected@ ==> result == Err::<BasicAuth, BasicAuthError>(
                BasicAuthError::Unauthorized,
            ),
    {
        if self.same_as(expected) {
            Ok(self)
        } else {
            Err(BasicAuthError::Unauthorized)
        }
    }

    /// Decides on a request from its `Authorization` header: the credentials
    /// where the header holds the expected ones, else the HTTP status to
    /// answer with and the reason.
    pub fn from_request_header(header: Option<&str>, expected: &BasicAuth) -> (result: Result<
        BasicAuth,
        (u16, BasicAuthError),
    >)
        ensures
            match result {
                Ok(auth) => authorize(header.deep_view(), expected@) == Ok::<
                    BasicAuthView,
                    AuthFailure,
                >(auth@),
                Err((status, error)) => {
                    &&& authorize(header.deep_view(), expected@) == Err::<
                        BasicAuthView,
                        AuthFailure,
                    >(error@)
                    &&& status == error@.status()
                },
            },
            result matches Ok(auth) ==> auth@ == expected@,
            result matches Err((_, BasicAuthError::InvalidBase64Encoding(error))) ==> {
                &&& header matches Some(text)
                &&& header_payload(text@) matches Some(payload)
                &&& base64_decoding(payload) == Err::<Seq<u8>, DecodeError>(error)
            },
    {
        let checked = match BasicAuth::from_authorization_header(header) {
            Ok(auth) => auth.authenticate(expected),
            Err(error) => Err(error),
        };
        match checked {
            Ok(auth) => Ok(auth),
            Err(error) => Err((error.status_code(), error)),
        }
    }
}

} // verus!
