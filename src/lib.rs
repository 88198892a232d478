//! A subnet-aware local forward proxy: the decisions it makes, verified.
//!
//! The library holds what the proxy decides: which host a client wants,
//! which upstream route the active network policy selects, what to send to an
//! upstream proxy and how to read its answers, and how a tunnel moves between
//! its states. Sockets, timers and OS notifications are driven by the caller.
pub mod config;
pub mod config_dto;
pub mod net;
pub mod policy;
pub mod redirect;
pub mod sniff;
pub mod text;
pub mod tunnel;
pub mod upstream;
