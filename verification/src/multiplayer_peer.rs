//! The peer built on the direct protocol of `protocol`.
pub mod extension;
pub mod peer;
