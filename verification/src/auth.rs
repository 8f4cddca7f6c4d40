//! The credential guard: a presented token is held against the configured
//! secret. With no secret configured the service runs open and every
//! presentation passes; with one configured, only the exact string does.

use vstd::prelude::*;

verus! {

/// A credential that passed the guard.
#[derive(Debug)]
pub struct ApiKey(pub String);

impl View for ApiKey {
    type V = Seq<char>;

    open spec fn view(&self) -> Seq<char> {
        self.0@
    }
}

/// Whether a presentation passes against the configured secret: with no
/// secret configured everything passes, absent presentations included;
/// otherwise exactly the configured string, case-sensitively.
pub open spec fn accepts(secret: Option<Seq<char>>, presented: Option<Seq<char>>) -> bool {
    match secret {
        Option::None => true,
        Option::Some(s) => presented matches Option::Some(p) && p == s,
    }
}

/// Returns true if `key` is a valid credential string under `secret`.
pub fn is_valid(key: &String, secret: &Option<String>) -> (b: bool)
    ensures
        b == accepts(secret.deep_view(), Some(key@)),
{
    match secret {
        Some(s) => *key == *s,
        None => true,
    }
}

/// The guard itself, over an already-resolved optional presentation.
pub fn check(presented: &Option<String>, secret: &Option<String>) -> (b: bool)
    ensures
        b == accepts(secret.deep_view(), presented.deep_view()),
{
    match secret {
        None => true,
        Some(s) => match presented {
            Some(p) => *p == *s,
            None => false,
        },
    }
}

impl ApiKey {
    /// Resolve the request's header values into a credential: accepted only
    /// when exactly one value is present and it passes the guard.
    pub fn from_request(keys: &Vec<String>, secret: &Option<String>) -> (r: Option<ApiKey>)
        ensures
            match r {
                Some(k) => keys@.len() == 1 && accepts(secret.deep_view(), Some(keys@[0]@))
                    && k@ == keys@[0]@,
                None => !(keys@.len() == 1 && accepts(secret.deep_view(), Some(keys@[0]@))),
            },
    {
        if keys.len() == 1 {
            let k = &keys[0];
            if is_valid(k, secret) {
                return Some(ApiKey(k.clone()));
            }
        }
        None
    }

    /// Resolve a path segment into a credential: accepted iff it passes the
    /// guard.
    pub fn from_param(param: &String, secret: &Option<String>) -> (r: Result<ApiKey, ()>)
        ensures
            match r {
                Ok(k) => accepts(secret.deep_view(), Some(param@)) && k@ == param@,
                Err(_) => !accepts(secret.deep_view(), Some(param@)),
            },
    {
        if is_valid(param, secret) {
            Ok(ApiKey(param.clone()))
        } else {
            Err(())
        }
    }
}

} // verus!
