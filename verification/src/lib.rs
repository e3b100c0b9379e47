//! The HTTP/1 message-head layer of an HTTP library: reading request and
//! response heads from a buffer, deciding how message bodies are delimited,
//! and writing heads with their framing headers, with contracts proved by
//! Verus.
pub mod error;
pub mod headers;
pub mod message;
pub mod proto;
pub mod raw;
pub mod text;

pub use error::{Error, Result};
