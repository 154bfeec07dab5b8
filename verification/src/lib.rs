//! HTTP Basic authentication: parsing of the `Authorization` header into a
//! username and password, and the check of that pair against an expected
//! identity.
//!
//! The header has the form `Basic <payload>`, where the payload is the
//! base64 encoding of `username:password` in UTF-8. A request is let through
//! only if the credentials in its header equal the expected ones; every
//! refusal has a kind, and every kind an HTTP status.
//!
//! - `auth`: the credentials, the errors, the parser and the check.
//! - `text`: whitespace, trimming and tokens, on which the parser rests.
//! - `codec`: the base64 and UTF-8 decoders, which are called and not
//!   verified.
//! - `laws`: what holds of every header.

pub mod auth;
pub mod codec;
pub mod laws;
pub mod text;
