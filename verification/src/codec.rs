//! Decoding of the target-URL path segment: URL-safe base64 to bytes, then
//! bytes to a UTF-8 string. The two ways that can fail are kept distinct.

use vstd::prelude::*;
use vstd::utf8::{encode_utf8, valid_utf8};

verus! {

/// The bytes that URL-safe base64 decoding yields for a string, when it
/// decodes at all.
pub uninterp spec fn b64url_decoded(s: Seq<char>) -> Option<Seq<u8>>;

/// Relies on base64::decode_config with the URL_SAFE alphabet: the result
/// is a function of the input characters alone, and decoding either yields
/// the encoded bytes or rejects the input.
#[verifier::external_body]
fn b64url_decode(s: &str) -> (r: Option<Vec<u8>>)
    ensures
        match r {
            Some(v) => b64url_decoded(s@) == Some(v@),
            None => b64url_decoded(s@) is None,
        },
{
    base64::decode_config(s, base64::URL_SAFE).ok()
}

/// Relies on String::from_utf8: it succeeds exactly on valid UTF-8, and the
/// string it returns holds those very bytes.
#[verifier::external_body]
fn utf8_string(bytes: Vec<u8>) -> (r: Option<String>)
    ensures
        r is Some <==> valid_utf8(bytes@),
        r matches Some(s) ==> encode_utf8(s@) == bytes@,
{
    String::from_utf8(bytes).ok()
}

/// Why a target-URL segment was rejected: it was not URL-safe base64, or
/// the decoded bytes were not UTF-8.
#[derive(PartialEq, Eq, Structural, Clone, Copy, Debug)]
pub enum DecodeError {
    Base64,
    Utf8,
}

/// The message shown for each decode failure.
pub open spec fn message_of(e: DecodeError) -> Seq<char> {
    if e == DecodeError::Base64 {
        "Decode Error"@
    } else {
        "String Encode Error"@
    }
}

impl DecodeError {
    /// The user-visible message for this failure.
    pub fn message(&self) -> (m: &'static str)
        ensures
            m@ == message_of(*self),
    {
        match self {
            DecodeError::Base64 => "Decode Error",
            DecodeError::Utf8 => "String Encode Error",
        }
    }
}

/// An origin URL recovered from its URL-safe base64 spelling.
#[derive(Debug)]
pub struct Base64String(pub String);

impl View for Base64String {
    type V = Seq<char>;

    open spec fn view(&self) -> Seq<char> {
        self.0@
    }
}

impl Base64String {
    /// Decode a path segment into the origin URL it names: `Base64` when
    /// the segment is not URL-safe base64, `Utf8` when the decoded bytes
    /// are not a UTF-8 string, and otherwise exactly that string.
    pub fn from_param(param: &String) -> (r: Result<Base64String, DecodeError>)
        ensures
            match r {
                Ok(b) => b64url_decoded(param@) matches Some(bytes) && valid_utf8(bytes)
                    && encode_utf8(b@) == bytes,
                Err(DecodeError::Base64) => b64url_decoded(param@) is None,
                Err(DecodeError::Utf8) => b64url_decoded(param@) matches Some(bytes)
                    && !valid_utf8(bytes),
            },
    {
        match b64url_decode(param.as_str()) {
            Some(bytes) => match utf8_string(bytes) {
                Some(s) => Ok(Base64String(s)),
                None => Err(DecodeError::Utf8),
            },
            None => Err(DecodeError::Base64),
        }
    }
}

} // verus!
