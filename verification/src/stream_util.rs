//! The signature search under the path of its own.

pub use crate::streams::read::{find_u32_signature, find_u64_signature};
pub use crate::streams::Endianness;
