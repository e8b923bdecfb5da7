//! A terminal-UI bridge library: a widget registry with an
//! identity-allocation lifecycle, a linear layout-partition engine,
//! size-spec parsing, a terminal-session state machine, a host-value
//! decoder and an input-event record codec.
//!
//! The host drives the library through a small command surface: construct
//! a list or text widget and get back an opaque reference, initialize or
//! restore the terminal session, poll input events, and render a single
//! widget or a described layout. The surrounding process owns the actual
//! terminal device and the host transport; this crate holds every decision
//! and computation between them.

pub mod commands;
pub mod errors;
pub mod events;
pub mod host;
pub mod layout;
pub mod registry;
pub mod session;
pub mod text;
pub mod widgets;
