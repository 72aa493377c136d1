//! Proof gateway core: a length-prefixed envelope that pairs a proof with its
//! public inputs, and the request pipeline built on it.

pub mod archive;
pub mod cairo;
pub mod envelope;
pub mod error;
pub mod gateway;
pub mod receipt;
