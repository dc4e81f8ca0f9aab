//! Uniform JSON response envelopes for an HTTP service.
//!
//! An envelope wraps an application result code, an optional payload and an
//! optional message into one JSON body, paired with an HTTP status line and
//! content type. Serialization failures never escape: they are turned into a
//! plain-text fallback response.

pub mod json;
pub mod response;
