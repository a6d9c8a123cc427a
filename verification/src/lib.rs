//! The request-signing core of OAuth 1.0 (RFC 5849 section 3.4): a streaming
//! signature-base-string builder and the signature algorithms that consume it.

pub mod canonical;
pub mod method_body;
pub mod signature_method;
pub mod util;
