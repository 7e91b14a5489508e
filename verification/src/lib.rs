//! Framing and decoding of CESR attachment groups.
//!
//! A stream is classified by its first byte as text or binary. A counter at
//! its head names a group and says how many items follow; the items are read
//! one behind the other, each made of one or more primitives. What was read
//! can be written again in either domain.

pub mod data;
pub mod error;
pub mod message;
