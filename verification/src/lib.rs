//! Local IPC protocol engine and interactive capture-session core.
//!
//! The crate verifies the pieces a screenshot daemon and its clients agree
//! on: length-prefixed framing over a byte stream, a tagged wire protocol
//! with a versioned handshake, the per-connection selection state machine,
//! rectangle geometry for drag/resize overlays, and the pure decisions of
//! the single-instance lock.  Process I/O (sockets, files, timers) lives in
//! the surrounding application, which hands this crate plain values.

pub mod errors;
pub mod protocol;
pub mod codec;
pub mod wire;
pub mod framing;
pub mod client;
pub mod server;
pub mod selection;
pub mod geometry;
pub mod dispatch;
pub mod capture;
pub mod lock;
pub mod config;
pub mod paths;
pub mod cli;
pub mod bar;
pub mod colour;
pub mod pixels;
pub mod notify;
