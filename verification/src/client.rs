//! The client half of the protocol: the handshake check and the
//! request/response multiplexing decisions.
//!
//! The surrounding application owns the socket; it frames outgoing requests
//! with [`crate::framing::write_frame`] and feeds every decoded incoming
//! envelope to the decision methods here.  While a call waits for its
//! response, interleaved events are buffered in arrival order and never
//! dropped; `next_event` drains that queue first.

use vstd::prelude::*;
use vstd::string::StringExecFns;

use crate::errors::IpcError;
use crate::protocol::{Event, EventM, IpcHello, Request, Response, Wire, IPC_VERSION};

verus! {

/// Client-side connection state: the events that arrived while calls were
/// waiting for their responses, oldest first, and the frame bound.
pub struct IpcClient {
    pending_events: Vec<Event>,
    max_frame: usize,
}

impl View for IpcClient {
    type V = Seq<EventM>;

    closed spec fn view(&self) -> Seq<EventM> {
        self.pending_events@.map_values(|e: Event| e@)
    }
}

impl IpcClient {
    /// The frame bound this client was set up with.
    pub closed spec fn spec_max_frame(&self) -> usize {
        self.max_frame
    }

    /// A fresh connection state with the default frame bound.
    pub fn new() -> (r: Self)
        ensures
            r@ == Seq::<EventM>::empty(),
            r.spec_max_frame() == crate::protocol::DEFAULT_MAX_FRAME,
    {
        let r = IpcClient {
            pending_events: Vec::new(),
            max_frame: crate::protocol::DEFAULT_MAX_FRAME,
        };
        proof {
            assert(r@ =~= Seq::<EventM>::empty());
        }
        r
    }

    /// The largest frame this client accepts.
    pub fn max_frame_len(&self) -> (r: usize)
        ensures
            r == self.spec_max_frame(),
    {
        self.max_frame
    }

    /// The handshake request a client sends first after connecting.
    pub fn hello_request() -> (r: Request)
        ensures
            r@ == crate::protocol::RequestM::Hello(IPC_VERSION),
    {
        Request::Hello(IpcHello { version: IPC_VERSION })
    }

    /// Judge the server's answer to the hello: only `Okay` lets the
    /// connection proceed; an `Error` response surfaces its message, and
    /// anything else is a protocol violation.
    pub fn check_hello_response(resp: Response) -> (r: Result<(), IpcError>)
        ensures
            (match resp@ {
                crate::protocol::ResponseM::Okay => r is Ok,
                crate::protocol::ResponseM::Error { message } => r matches Err(
                    IpcError::Remote(m),
                ) && m@ == message,
                _ => r matches Err(IpcError::Remote(m)) && m@ == "unexpected hello response"@,
            }),
    {
        match resp {
            Response::Okay => Ok(()),
            Response::Error { message } => Err(IpcError::Remote(message)),
            _ => Err(IpcError::Remote(String::from_str("unexpected hello response"))),
        }
    }

    /// One step of a call's receive loop: a response ends the call and is
    /// returned; an event is queued behind the ones already waiting and the
    /// loop goes on.
    pub fn handle_wire_during_call(&mut self, w: Wire) -> (r: Option<Response>)
        ensures
            (match w@ {
                crate::protocol::WireM::Response(resp) => r matches Some(got) && got@ == resp
                    && final(self)@ == old(self)@,
                crate::protocol::WireM::Event(ev) => r is None && final(self)@ == old(self)@.push(
                    ev,
                ),
            }),
            final(self).spec_max_frame() == old(self).spec_max_frame(),
    {
        match w {
            Wire::Response(resp) => Some(resp),
            Wire::Event(ev) => {
                let ghost pre = self.pending_events@;
                self.pending_events.push(ev);
                proof {
                    assert(self.pending_events@.map_values(|e: Event| e@) =~= pre.map_values(
                        |e: Event| e@,
                    ).push(self.pending_events@[pre.len() as int]@));
                }
                None
            },
        }
    }

    /// Pop the oldest buffered event, if any; otherwise the caller reads
    /// the wire and judges what came with [`Self::handle_wire_awaiting_event`].
    pub fn pop_pending_event(&mut self) -> (r: Option<Event>)
        ensures
            (match r {
                Some(ev) => old(self)@.len() > 0 && ev@ == old(self)@[0] && final(self)@ == old(
                    self,
                )@.drop_first(),
                None => old(self)@.len() == 0 && final(self)@ == old(self)@,
            }),
            final(self).spec_max_frame() == old(self).spec_max_frame(),
    {
        if self.pending_events.len() > 0 {
            let ev = self.pending_events.remove(0);
            proof {
                assert(self.pending_events@.map_values(|e: Event| e@) =~= old(
                    self,
                ).pending_events@.map_values(|e: Event| e@).drop_first());
            }
            Some(ev)
        } else {
            None
        }
    }

    /// One step of the event-wait loop: an event is handed out; a stray
    /// response observed here answers no outstanding call and is discarded.
    pub fn handle_wire_awaiting_event(w: Wire) -> (r: Option<Event>)
        ensures
            (match w@ {
                crate::protocol::WireM::Event(ev) => r matches Some(got) && got@ == ev,
                crate::protocol::WireM::Response(_) => r is None,
            }),
    {
        match w {
            Wire::Event(ev) => Some(ev),
            Wire::Response(_) => None,
        }
    }
}

/// Judge the daemon's answer to a UI-configuration request: only a
/// `UiConfig` response carries the styling; anything else is unexpected.
pub fn ui_config_from_response(resp: Response) -> (r: Result<
    crate::protocol::UiConfig,
    IpcError,
>)
    ensures
        (match resp@ {
            crate::protocol::ResponseM::UiConfig { cfg } => r == Ok::<
                crate::protocol::UiConfig,
                IpcError,
            >(cfg),
            _ => r matches Err(IpcError::Remote(_)),
        }),
{
    match resp {
        Response::UiConfig { cfg } => Ok(cfg),
        _ => Err(IpcError::Remote(String::from_str("expected UiConfig response"))),
    }
}

} // verus!
