//! A protocol-bridging gateway for an inference backend.
//!
//! The gateway offers a typed RPC service and answers each call with one
//! request to a backend that speaks JSON over HTTP. This crate holds what
//! the gateway decides on the way: the typed messages of the RPC surface,
//! the decoder that turns the backend's loosely typed JSON answers into
//! those messages, the addresses of the backend's HTTP endpoints, and the
//! wording of the errors that reach the caller. Sending requests and
//! serving calls is left to the program around it.
pub mod config;
pub mod json;
pub mod proto;
pub mod services;
pub mod status;
pub mod text;
