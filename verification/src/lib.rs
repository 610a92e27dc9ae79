//! Core of a short-lived audio-broadcast session server: the session
//! registry, the UDP port allocator's candidate selection, the connection
//! handshake protocol and the host-timeout watchdog, together with the
//! credential check and the wire format of the hello message.

pub mod auth;
pub mod decimal;
pub mod errors;
pub mod handshake;
pub mod podcast;
pub mod ports;
pub mod registry;
pub mod send_events;
pub mod state;
pub mod watchdog;
