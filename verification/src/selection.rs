//! The per-connection capture-session state machine.
//!
//! A connection is `Idle` until a `StartCapture` for an interactive region
//! session arrives; while a session is active, `SetSelection` stores (and
//! previews) the latest rectangle, `ConfirmSelection` acknowledges a set
//! rectangle, and `Cancel` returns to `Idle`.  [`sel_step`] is the whole
//! transition table; `handle_request` is proved to implement it.

use vstd::prelude::*;
use vstd::string::StringExecFns;

use crate::protocol::{Event, EventM, Mode, Rect, Request, RequestM, Response, ResponseM, Target, TargetM};

verus! {

/// The state of one live selection session.
#[derive(Debug, Clone, PartialEq, Eq)]
pub struct ActiveSelection {
    pub mode: Mode,
    pub target: Option<Target>,
    pub rect: Option<Rect>,
}

/// Ghost model of an [`ActiveSelection`].
#[verifier::ext_equal]
pub ghost struct ActiveSelectionM {
    pub mode: Mode,
    pub target: Option<TargetM>,
    pub rect: Option<Rect>,
}

impl View for ActiveSelection {
    type V = ActiveSelectionM;

    open spec fn view(&self) -> ActiveSelectionM {
        ActiveSelectionM {
            mode: self.mode,
            target: match &self.target {
                Some(t) => Some(t@),
                None => None,
            },
            rect: self.rect,
        }
    }
}

/// Selection lifecycle of one connection: `None` is `Idle`.
#[derive(Debug, Default)]
pub struct SelectionState {
    active: Option<ActiveSelection>,
}

impl View for SelectionState {
    type V = Option<ActiveSelectionM>;

    closed spec fn view(&self) -> Option<ActiveSelectionM> {
        match &self.active {
            Some(a) => Some(a@),
            None => None,
        }
    }
}

/// The transition table: given the current session state and a request,
/// the next state, the response owed (`None` when the request is not a
/// selection matter and the caller dispatches it elsewhere), and the events
/// to emit before that response.
pub open spec fn sel_step(st: Option<ActiveSelectionM>, req: RequestM) -> (
    Option<ActiveSelectionM>,
    Option<ResponseM>,
    Seq<EventM>,
) {
    match req {
        RequestM::StartCapture { mode, target, with_ui } => {
            if with_ui && mode == Mode::Region {
                (
                    Some(ActiveSelectionM { mode, target, rect: None }),
                    Some(ResponseM::Okay),
                    seq![EventM::CaptureStarted { mode }],
                )
            } else {
                (st, None, Seq::empty())
            }
        },
        RequestM::SetSelection { rect } => match st {
            Some(a) => (
                Some(ActiveSelectionM { mode: a.mode, target: a.target, rect: Some(rect) }),
                Some(ResponseM::Okay),
                seq![EventM::SelectionPreview { rect }],
            ),
            None => (
                st,
                Some(ResponseM::Error { message: "no active selection session"@ }),
                Seq::empty(),
            ),
        },
        RequestM::ConfirmSelection => match st {
            Some(a) => if a.rect is None {
                (st, Some(ResponseM::Error { message: "no selection rect set"@ }), Seq::empty())
            } else {
                (st, Some(ResponseM::Okay), Seq::empty())
            },
            None => (
                st,
                Some(ResponseM::Error { message: "no active selection session"@ }),
                Seq::empty(),
            ),
        },
        RequestM::Cancel => match st {
            Some(_) => (None, Some(ResponseM::Okay), Seq::empty()),
            None => (st, None, Seq::empty()),
        },
        _ => (st, None, Seq::empty()),
    }
}

impl SelectionState {
    /// A fresh, idle session.
    pub fn new() -> (r: Self)
        ensures
            r@ is None,
    {
        SelectionState { active: None }
    }

    /// A session is currently active.
    pub fn is_active(&self) -> (r: bool)
        ensures
            r == (self@ is Some),
    {
        self.active.is_some()
    }

    /// The mode of the active session, if one is running.
    pub fn active_mode(&self) -> (r: Option<Mode>)
        ensures
            (match self@ {
                Some(a) => r == Some(a.mode),
                None => r is None,
            }),
    {
        match &self.active {
            Some(a) => Some(a.mode),
            None => None,
        }
    }

    /// Apply one request to the session, following [`sel_step`]: the events
    /// returned are emitted to the client, in order, before the response.
    /// A `None` response means the request is not handled here.
    pub fn handle_request(&mut self, req: &Request) -> (r: (Option<Response>, Vec<Event>))
        ensures
            ({
                let (st2, resp, evs) = sel_step(old(self)@, req@);
                &&& final(self)@ == st2
                &&& (match r.0 {
                    Some(rr) => resp == Some(rr@),
                    None => resp is None,
                })
                &&& r.1@.map_values(|e: Event| e@) == evs
            }),
    {
        let ghost pre = self@;
        let mut events: Vec<Event> = Vec::new();
        proof {
            assert(events@.map_values(|e: Event| e@) =~= Seq::<EventM>::empty());
        }
        match req {
            Request::StartCapture { mode, target, with_ui } => {
                if *with_ui && *mode == Mode::Region {
                    self.active = Some(
                        ActiveSelection { mode: *mode, target: target.clone(), rect: None },
                    );
                    events.push(Event::CaptureStarted { mode: *mode });
                    proof {
                        assert(events@.map_values(|e: Event| e@) =~= seq![
                            EventM::CaptureStarted { mode: *mode },
                        ]);
                    }
                    (Some(Response::Okay), events)
                } else {
                    (None, events)
                }
            },
            Request::SetSelection { rect } => {
                match &self.active {
                    Some(a) => {
                        self.active = Some(
                            ActiveSelection {
                                mode: a.mode,
                                target: a.target.clone(),
                                rect: Some(*rect),
                            },
                        );
                        events.push(Event::SelectionPreview { rect: *rect });
                        proof {
                            assert(events@.map_values(|e: Event| e@) =~= seq![
                                EventM::SelectionPreview { rect: *rect },
                            ]);
                        }
                        (Some(Response::Okay), events)
                    },
                    None => (
                        Some(
                            Response::Error {
                                message: String::from_str("no active selection session"),
                            },
                        ),
                        events,
                    ),
                }
            },
            Request::ConfirmSelection => {
                match &self.active {
                    Some(a) => {
                        if a.rect.is_none() {
                            (
                                Some(
                                    Response::Error {
                                        message: String::from_str("no selection rect set"),
                                    },
                                ),
                                events,
                            )
                        } else {
                            (Some(Response::Okay), events)
                        }
                    },
                    None => (
                        Some(
                            Response::Error {
                                message: String::from_str("no active selection session"),
                            },
                        ),
                        events,
                    ),
                }
            },
            Request::Cancel => {
                if self.active.is_some() {
                    self.active = None;
                    (Some(Response::Okay), events)
                } else {
                    (None, events)
                }
            },
            _ => (None, events),
        }
    }

    /// Consume the active session; a second call finds the state idle and
    /// returns nothing until a new session starts.
    pub fn take_active(&mut self) -> (r: Option<ActiveSelection>)
        ensures
            final(self)@ is None,
            (match old(self)@ {
                Some(a) => r matches Some(x) && x@ == a,
                None => r is None,
            }),
    {
        self.active.take()
    }

    /// Look at the active session without consuming it.
    pub fn peek_active(&self) -> (r: Option<&ActiveSelection>)
        ensures
            (match r {
                Some(a) => self@ == Some(a@),
                None => self@ is None,
            }),
    {
        self.active.as_ref()
    }
}

} // verus!
