//! Host-side runtime for sandboxed Kubernetes controllers.
//!
//! The host loads guest controller modules, brokers their outbound HTTP
//! requests to the cluster, multiplexes watch subscriptions across modules,
//! and routes asynchronous results back to the module that asked for them.
//! This crate holds the verified core: the guest memory bridge, the ABI
//! wire codec, the watch multiplexer, the request/response bookkeeping and
//! the event router. The unverified edges (the Wasm engine, network and
//! file I/O) live outside and hand this crate plain values.

pub mod abi;
pub mod codec;
pub mod commands;
pub mod config;
pub mod dispatcher;
pub mod error;
pub mod guest;
pub mod http;
pub mod http_data;
pub mod informer;
pub mod memory;
pub mod mux;
mod ptr;
pub mod uri;
pub mod watch_data;

pub use ptr::Ptr;
