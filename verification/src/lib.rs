//! A lightweight application-hosting daemon library.
//!
//! The library holds the daemon's verified core: the configuration model and
//! its mutation rules, the control-protocol wire codec, the host-based request
//! router, and the shutdown and accept-loop decision logic. The surrounding
//! binary supplies the listeners, the disk and the clock, and calls into this
//! crate for every decision.

pub mod cli;
pub mod config;
pub mod protocol;
pub mod store;
pub mod router;
pub mod runtime;
pub mod settings;
pub mod wire;
