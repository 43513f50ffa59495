//! A bridge from one serial device to WebSocket clients: the decisions of
//! the two servers, their task lifecycles, the client registry and the
//! log filter, each with its contract.

pub mod lifecycle;
pub mod logger;
pub mod registry;
pub mod serial;
pub mod ws;
