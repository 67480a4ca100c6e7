//! Utilities for decoding and encoding binary data held in a positioned,
//! in-memory byte stream: tagged integers, declarative layouts, framed
//! buffers and strings, signature search and a variable-length integer codec.
//!
//! Every executable function carries a contract over plain mathematical
//! models (`Seq<u8>`, `nat`, `int`), and Verus proves each body against it.

pub mod const_fn;
pub mod int_util;
pub mod stream_util;
pub mod streams;
pub mod varint;
