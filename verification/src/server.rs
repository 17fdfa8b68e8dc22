//! The server half of the protocol: the handshake judgement.
//!
//! The surrounding application owns the listening socket, accepts one
//! connection at a time, frames bytes with [`crate::framing`], and decodes
//! requests with [`crate::wire::decode_request`].  The first message of a
//! connection goes through [`hello_reply`]; every later one goes to the
//! daemon dispatch.

use vstd::prelude::*;
use vstd::string::StringExecFns;

use crate::errors::IpcError;
use crate::protocol::{Request, RequestM, Response, ResponseM, IPC_VERSION};

verus! {

/// Judge the first message of a connection.  A hello with the server's own
/// version is answered `Okay`; a hello with any other version fails the
/// connection with a `VersionMismatch` naming both sides; any other first
/// message is answered with an error and marks the peer protocol-violating.
pub fn hello_reply(req: &Request) -> (r: Result<Response, IpcError>)
    ensures
        (match req@ {
            RequestM::Hello(v) => if v == IPC_VERSION {
                r matches Ok(resp) && resp@ == ResponseM::Okay
            } else {
                r == Err::<Response, IpcError>(IpcError::VersionMismatch { client: v, server: IPC_VERSION })
            },
            _ => r matches Ok(resp) && resp@ == (ResponseM::Error {
                message: "expected hello"@,
            }),
        }),
{
    match req {
        Request::Hello(h) => {
            if h.version == IPC_VERSION {
                Ok(Response::Okay)
            } else {
                Err(IpcError::VersionMismatch { client: h.version, server: IPC_VERSION })
            }
        },
        _ => Ok(Response::Error { message: String::from_str("expected hello") }),
    }
}

} // verus!
