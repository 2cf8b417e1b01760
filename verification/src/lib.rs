//! A broadcast relay for byte chunks, and the terminal client that talks to
//! it.
//!
//! The relay side is `peer`, `event`, `registry`, `notice`, `session` and
//! `broadcast`, with `guarantees` for what holds of the broadcast core on
//! every stream of events. The client side is `message`, `screen` and
//! `client`. `config` and `text` serve both.
//!
//! Nothing here reads or writes a socket or a terminal. Sessions, the core
//! and the client are machines: they take what was read and say what is to
//! be written.

pub mod broadcast;
pub mod client;
pub mod config;
pub mod event;
pub mod guarantees;
pub mod message;
pub mod notice;
pub mod peer;
pub mod registry;
pub mod screen;
pub mod session;
pub mod text;
