//! Protocol engine for bridging a remote device's notification stream,
//! carried over a GATT-based binary protocol, into desktop notifications.
//!
//! The library holds the verified core: the wire codec for events and
//! control-point requests, the attribute-response parsers, the app-name
//! cache, and the notification engine that decides, for each inbound
//! message, what to render, what to cache, and what request to issue.
//! Transport and desktop I/O live outside the library.

pub mod cache;
pub mod codec;
pub mod engine;
pub mod parser;
pub mod types;
