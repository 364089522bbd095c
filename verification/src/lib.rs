//! A topic-based publish/subscribe hub: the client registry, topic
//! membership, and the per-client delivery queues, with the routing
//! operations proved against a map-and-sequence model.
//!
//! The transport (websockets), the process setup and the console front ends
//! live outside this crate; they call in with plain values.

pub mod admin_commands;
pub mod dispatcher;
pub mod ids;
pub mod kv;
pub mod laws;
pub mod manager;
pub mod model;
pub mod msg;
pub mod server;
pub mod storage;
pub mod text;
pub mod user_commands;
pub mod user_session;
