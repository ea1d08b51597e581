//! A multi-transport chat relay: a coordinator that tracks sessions and
//! rooms and multicasts text among room members, per-connection logic for
//! two wire front-ends, and a heartbeat monitor that evicts silent peers.
//!
//! Beside the relay stand the small pieces of the accompanying web examples:
//! an error type, form payloads, middleware decisions and an RPC counter.
pub mod codec;
pub mod errors;
pub mod forms;
pub mod heartbeat;
pub mod middleware;
pub mod relay;
pub mod rpc;
pub mod session;
