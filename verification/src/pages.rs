//! The fixed responses around the endpoints: the notice shown when the
//! listing is requested without a credential, and the structured failure
//! context for a proxy request whose input did not pass.

use crate::auth::ApiKey;
use crate::codec::{message_of, Base64String, DecodeError};
use vstd::prelude::*;

verus! {

/// The notice returned when the listing is requested without a valid
/// credential.
pub fn index_noauth() -> (r: &'static str)
    ensures
        r@ == "Looking at the UI still requires authentication"@,
{
    "Looking at the UI still requires authentication"
}

/// What the failure page shows: the freshness segment as it arrived, the
/// decoded target when there is one, and the reason the request failed.
pub struct FailureContext {
    pub duration: String,
    pub url: String,
    pub error: Option<String>,
}

/// Build the failure context for a proxy request that did not take the
/// authenticated path: a target that failed to decode names its decode
/// failure; a target that decoded names the missing credential, or nothing
/// when a credential was in fact present.
pub fn request_alt(
    key: &Option<ApiKey>,
    duration: String,
    url: &Result<Base64String, DecodeError>,
) -> (r: FailureContext)
    ensures
        r.duration == duration,
        match url {
            Ok(b) => r.url@ == b@ && (key is Some ==> r.error is None) && (key is None ==> (
            r.error matches Some(m) && m@ == "Key error"@)),
            Err(e) => r.url@ == "Not available"@ && (r.error matches Some(m) && m@ == message_of(
                *e,
            )),
        },
{
    match url {
        Ok(b) => FailureContext {
            duration,
            url: b.0.clone(),
            error: match key {
                Some(_) => None,
                None => Some("Key error".to_owned()),
            },
        },
        Err(e) => FailureContext {
            duration,
            url: "Not available".to_owned(),
            error: Some(e.message().to_owned()),
        },
    }
}

} // verus!
