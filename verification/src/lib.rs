//! River: the request pipeline of a configurable reverse HTTP proxy.
//!
//! The crate holds the proxy's rules: how a configuration becomes a service,
//! which requests are filtered or rate limited, how headers and paths are
//! rewritten, and how an upstream is selected. The HTTP engine that drives
//! these rules lives outside.

pub mod config;
pub mod files;
pub mod net;
pub mod proxy;
pub mod session;
pub mod settings;
pub mod text;
