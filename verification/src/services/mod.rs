//! The backend clients and the gateway that stands in front of them.
pub mod clients;
pub mod server_proxy;
