//! Verified core of an OBD-II monitor for the Subaru EJ205 engine:
//! ELM327 response parsing, DTC decoding, PID table and polling schedule,
//! and the HTTP/WebSocket helpers of the local dashboard server.

pub mod config;
pub mod dtc;
pub mod logger;
pub mod obd;
pub mod scheduler;
pub mod server;
pub mod subaru;
pub mod text;
pub mod transport;
