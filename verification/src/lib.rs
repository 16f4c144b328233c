//! HTTP/1.1 wire-protocol library: a codec that decodes collected request
//! lines into a structured request, a resolver that maps a request to a
//! response over a small fixed route table, and an encoder that turns a
//! response into the exact bytes owed on the wire.

pub mod bytebuf;
pub mod digits;
pub mod http;
pub mod utils;
