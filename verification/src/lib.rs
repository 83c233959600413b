//! Decision logic of the water-powered trip-hammer (shuidui) monitoring
//! backend: request routing, response envelopes, start-up configuration,
//! alert-stream forwarding, grain classification and message timestamps.
//! The floating-point dynamics and all I/O live outside this crate.

pub mod text;
pub mod grain;
pub mod routing;
pub mod responses;
pub mod config;
pub mod stream;
pub mod timestamp;
