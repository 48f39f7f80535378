//! Remote procedure calls over TCP, QUIC and WebSocket connections: calls
//! with one answer, subscriptions with many, and uploads, which send a stream
//! of items along.
//!
//! This crate holds what clients and servers decide and compute. Sockets,
//! queues and timers belong to the tasks around it, which carry out what the
//! functions here ask for.
pub mod client_core;
pub mod client_quic;
pub mod client_tcp;
pub mod client_tcp_laws;
pub mod exchange;
pub mod exchange_laws;
pub mod ops;
pub mod registry;
pub mod rpc;
pub mod server_core;
pub mod server_laws;
pub mod server_quic;
pub mod server_websocket;
pub mod web;
pub mod web_laws;
pub mod wire;
pub mod wire_laws;
