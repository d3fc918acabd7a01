//! An endpoint-scoped CORS gate: decides, from a configured allow-list of
//! (method set, path pattern) rules, whether a request's method and path
//! designate a CORS-enabled endpoint, and attaches the standard CORS
//! permission headers to the outgoing response when they do.

pub mod hooks;
pub mod matching;
pub mod method;
pub mod response;
pub mod text;
