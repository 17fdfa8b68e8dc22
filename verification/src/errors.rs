//! Error vocabulary of the IPC engine and the instance lock.

use vstd::prelude::*;
use vstd::string::StringExecFns;

verus! {

/// A transport or protocol failure; fatal to the connection it occurs on.
#[derive(Debug, Clone, PartialEq, Eq)]
pub enum IpcError {
    /// An I/O failure, described by the surrounding application.
    Io(String),
    /// A frame's payload did not decode as a protocol message.
    Decode,
    /// A frame's declared length did not fit the bound.
    FrameTooLarge,
    /// The handshake versions did not agree.
    VersionMismatch { client: u32, server: u32 },
    /// The daemon answered with an error during the handshake.
    Remote(String),
}

impl IpcError {
    /// A short human-readable description, for logs and error paths.
    pub fn describe(&self) -> (r: String)
        ensures
            (match self {
                IpcError::Io(m) => r@ == m@,
                IpcError::Decode => r@ == "serialization error"@,
                IpcError::FrameTooLarge => r@ == "frame too large"@,
                IpcError::VersionMismatch { .. } => r@ == "version mismatch"@,
                IpcError::Remote(m) => r@ == m@,
            }),
    {
        match self {
            IpcError::Io(m) => m.clone(),
            IpcError::Decode => String::from_str("serialization error"),
            IpcError::FrameTooLarge => String::from_str("frame too large"),
            IpcError::VersionMismatch { .. } => String::from_str("version mismatch"),
            IpcError::Remote(m) => m.clone(),
        }
    }
}

/// Why the single-instance lock could not be taken.
#[derive(Debug, Clone, PartialEq, Eq)]
pub enum LockError {
    /// The socket path has no parent directory to put the lock file in.
    NoParent(String),
    /// Another live daemon holds the lock file.
    AlreadyRunning(String),
    /// Any other I/O failure, described by the surrounding application.
    Io(String),
}

/// A failure of the capture backend.
#[derive(Debug, Clone, Copy, PartialEq, Eq, Structural)]
pub enum CapitError {
    CaptureFailed,
}

/// A failed attempt to reach the daemon, with a user-facing message.
#[derive(Debug, Clone, PartialEq, Eq)]
pub struct ConnectError(pub String);

} // verus!
