//! A credential-gated forward cache: a client names an origin URL and a
//! freshness window; the library serves a cached body while it is fresh,
//! and otherwise fetches the origin anew and remembers the result.

pub mod auth;
pub mod clock;
pub mod codec;
pub mod fetcher;
pub mod listing;
pub mod pages;
pub mod proxy;
pub mod store;
