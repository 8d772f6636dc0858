//! OAuth 1.0a request signing: percent-encoding per the RFC 3986 unreserved
//! profile, signature base string construction, HMAC-SHA1 signing, and
//! `Authorization` header assembly.

pub mod clock;
pub mod config;
pub mod encode;
pub mod nonce;
pub mod order;
pub mod params;
pub mod sign;
