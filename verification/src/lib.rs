//! Connection tracking for graceful shutdown and hot restart.
//!
//! [`connection_counter`] counts the active connections of a server by type, on
//! counters that every clone shares. [`websocket`] tells from the headers of a
//! request and its response which type a connection is of.

pub mod call_laws;
pub mod cells;
pub mod connection_counter;
pub mod count_laws;
pub mod counts;
pub mod detection_laws;
pub mod header_text;
pub mod headers;
pub mod operation_laws;
pub mod text_laws;
pub mod websocket;
pub mod websocket_laws;
