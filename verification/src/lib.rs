//! Core logic of a change-feed to pub/sub bridge.
//!
//! The library holds the verified part of the service: the pure
//! transformation from a change-feed update to a channel payload, the
//! request/reply outcome rules of the bounded roundtrip channel, the
//! decision logic of the HTTP surface, and the exact JSON bodies that
//! the service produces.  The surrounding I/O (database cursor, HTTP
//! listener, broker client) lives outside the library and only feeds
//! plain values into these functions.

pub mod centrifugo;
pub mod channel;
pub mod db;
pub mod errors;
pub mod health;
pub mod http_api;
pub mod json;
pub mod model;
pub mod shutdown;
pub mod text;
pub mod time;
