//! Request and response types with streaming body support.
//!
//! Request bodies arrive as byte buffers; they can be read whole or as a
//! sequence of fixed-size chunks that share the source buffer. At most
//! one chunk is handed out per step, so a consumer processes a body of any
//! size in memory bounded by the chunk size.

pub mod body;
pub mod error;
pub mod header;
pub mod request;
pub mod response;
pub mod wit;
