//! FIDO/CTAP HID forwarding without USB device passthrough, and the decisions of
//! the remote desktop client that hosts it.
//!
//! Everything here computes on plain values. Devices, sockets, clocks and prompts
//! are driven from outside: the library says what to do next and is told what came
//! of it.

pub mod broker;
pub mod broker_laws;
pub mod cbor;
pub mod client_laws;
pub mod client_loop;
pub mod crypto;
pub mod ctap;
pub mod error;
pub mod exchange_laws;
pub mod framing;
pub mod geometry;
pub mod hid;
pub mod interface;
pub mod numbers;
pub mod pin;
pub mod pin_laws;
pub mod pinentry;
pub mod selector;
pub mod server;
pub mod session;
pub mod session_laws;
pub mod text;
pub mod turn;
