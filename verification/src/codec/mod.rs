//! Encodings: JSON, base64, and digests in hexadecimal.

pub mod base64;
pub mod digest;
pub mod json;
