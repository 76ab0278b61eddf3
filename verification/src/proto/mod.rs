//! The messages of the RPC surface.
pub mod mighty_proto;
