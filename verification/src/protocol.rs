//! The wire vocabulary: requests, responses and asynchronous events, the
//! versioned hello, and the tagged server-to-client envelope.
//!
//! Each type that carries a `String` or a `Vec` has a ghost model (`View`)
//! over `Seq`, and the codec's contracts are stated over those models.

use vstd::prelude::*;

verus! {

/// The protocol version both peers must agree on during the handshake.
pub const IPC_VERSION: u32 = 3;

/// Default bound on a frame's payload length: one mebibyte.
pub const DEFAULT_MAX_FRAME: usize = 1048576;

/// What kind of capture a session performs.
#[derive(Debug, Clone, Copy, PartialEq, Eq, Structural)]
pub enum Mode {
    Region,
    Screen,
    Window,
    Record,
}

/// A rectangle in global desktop coordinates.
#[derive(Debug, Clone, Copy, PartialEq, Eq, Structural)]
pub struct Rect {
    pub x: i32,
    pub y: i32,
    pub w: i32,
    pub h: i32,
}

/// Which output (monitor) a capture aims at.
#[derive(Debug, PartialEq, Eq)]
pub enum Target {
    AllScreens,
    OutputName(String),
    OutputIndex(u32),
    ActiveWindow,
}

/// One output (monitor) and its place in the global desktop space.
#[derive(Debug, PartialEq, Eq)]
pub struct OutputInfo {
    pub name: Option<String>,
    pub x: i32,
    pub y: i32,
    pub width: i32,
    pub height: i32,
    pub scale: i32,
}

/// The handshake message: the client's protocol version.
#[derive(Debug, Clone, Copy, PartialEq, Eq, Structural)]
pub struct IpcHello {
    pub version: u32,
}

/// UI styling the daemon shares with clients; colours are ARGB words.
#[derive(Debug, Clone, Copy, PartialEq, Eq, Structural)]
pub struct UiConfig {
    pub accent_colour: u32,
    pub bar_background_colour: u32,
}

/// Client-to-server messages.
#[derive(Debug, PartialEq, Eq)]
pub enum Request {
    Hello(IpcHello),
    ListOutputs,
    GetUiConfig,
    StartCapture { mode: Mode, target: Option<Target>, with_ui: bool },
    SetSelection { rect: Rect },
    ConfirmSelection,
    Cancel,
    Status,
}

/// Server-to-client answers; exactly one terminates each request.
#[derive(Debug, PartialEq, Eq)]
pub enum Response {
    Okay,
    Outputs { outputs: Vec<OutputInfo> },
    UiConfig { cfg: UiConfig },
    Status { running: bool, active_job: Option<Mode> },
    Error { message: String },
}

/// Unsolicited server-to-client notifications.
#[derive(Debug, PartialEq, Eq)]
pub enum Event {
    CaptureStarted { mode: Mode },
    CaptureFinished { path: String },
    CaptureFailed { message: String },
    SelectionPreview { rect: Rect },
}

/// What travels server-to-client: a response or an event, tagged.
#[derive(Debug, PartialEq, Eq)]
pub enum Wire {
    Response(Response),
    Event(Event),
}

/// Ghost model of a [`Target`].
#[verifier::ext_equal]
pub ghost enum TargetM {
    AllScreens,
    OutputName(Seq<char>),
    OutputIndex(u32),
    ActiveWindow,
}

/// Ghost model of an [`OutputInfo`].
#[verifier::ext_equal]
pub ghost struct OutputInfoM {
    pub name: Option<Seq<char>>,
    pub x: i32,
    pub y: i32,
    pub width: i32,
    pub height: i32,
    pub scale: i32,
}

/// Ghost model of a [`Request`].
#[verifier::ext_equal]
pub ghost enum RequestM {
    Hello(u32),
    ListOutputs,
    GetUiConfig,
    StartCapture { mode: Mode, target: Option<TargetM>, with_ui: bool },
    SetSelection { rect: Rect },
    ConfirmSelection,
    Cancel,
    Status,
}

/// Ghost model of a [`Response`].
#[verifier::ext_equal]
pub ghost enum ResponseM {
    Okay,
    Outputs { outputs: Seq<OutputInfoM> },
    UiConfig { cfg: UiConfig },
    Status { running: bool, active_job: Option<Mode> },
    Error { message: Seq<char> },
}

/// Ghost model of an [`Event`].
#[verifier::ext_equal]
pub ghost enum EventM {
    CaptureStarted { mode: Mode },
    CaptureFinished { path: Seq<char> },
    CaptureFailed { message: Seq<char> },
    SelectionPreview { rect: Rect },
}

/// Ghost model of a [`Wire`].
#[verifier::ext_equal]
pub ghost enum WireM {
    Response(ResponseM),
    Event(EventM),
}

impl View for Target {
    type V = TargetM;

    open spec fn view(&self) -> TargetM {
        match self {
            Target::AllScreens => TargetM::AllScreens,
            Target::OutputName(s) => TargetM::OutputName(s@),
            Target::OutputIndex(i) => TargetM::OutputIndex(*i),
            Target::ActiveWindow => TargetM::ActiveWindow,
        }
    }
}

impl View for OutputInfo {
    type V = OutputInfoM;

    open spec fn view(&self) -> OutputInfoM {
        OutputInfoM {
            name: match &self.name {
                Some(s) => Some(s@),
                None => None,
            },
            x: self.x,
            y: self.y,
            width: self.width,
            height: self.height,
            scale: self.scale,
        }
    }
}

impl View for Request {
    type V = RequestM;

    open spec fn view(&self) -> RequestM {
        match self {
            Request::Hello(h) => RequestM::Hello(h.version),
            Request::ListOutputs => RequestM::ListOutputs,
            Request::GetUiConfig => RequestM::GetUiConfig,
            Request::StartCapture { mode, target, with_ui } => RequestM::StartCapture {
                mode: *mode,
                target: match target {
                    Some(t) => Some(t@),
                    None => None,
                },
                with_ui: *with_ui,
            },
            Request::SetSelection { rect } => RequestM::SetSelection { rect: *rect },
            Request::ConfirmSelection => RequestM::ConfirmSelection,
            Request::Cancel => RequestM::Cancel,
            Request::Status => RequestM::Status,
        }
    }
}

impl View for Response {
    type V = ResponseM;

    open spec fn view(&self) -> ResponseM {
        match self {
            Response::Okay => ResponseM::Okay,
            Response::Outputs { outputs } => ResponseM::Outputs {
                outputs: outputs@.map_values(|o: OutputInfo| o@),
            },
            Response::UiConfig { cfg } => ResponseM::UiConfig { cfg: *cfg },
            Response::Status { running, active_job } => ResponseM::Status {
                running: *running,
                active_job: *active_job,
            },
            Response::Error { message } => ResponseM::Error { message: message@ },
        }
    }
}

impl View for Event {
    type V = EventM;

    open spec fn view(&self) -> EventM {
        match self {
            Event::CaptureStarted { mode } => EventM::CaptureStarted { mode: *mode },
            Event::CaptureFinished { path } => EventM::CaptureFinished { path: path@ },
            Event::CaptureFailed { message } => EventM::CaptureFailed { message: message@ },
            Event::SelectionPreview { rect } => EventM::SelectionPreview { rect: *rect },
        }
    }
}

impl View for Wire {
    type V = WireM;

    open spec fn view(&self) -> WireM {
        match self {
            Wire::Response(r) => WireM::Response(r@),
            Wire::Event(e) => WireM::Event(e@),
        }
    }
}

impl Clone for Target {
    /// A clone carries the same model.
    fn clone(&self) -> (r: Self)
        ensures
            r@ == self@,
    {
        match self {
            Target::AllScreens => Target::AllScreens,
            Target::OutputName(s) => Target::OutputName(s.clone()),
            Target::OutputIndex(i) => Target::OutputIndex(*i),
            Target::ActiveWindow => Target::ActiveWindow,
        }
    }
}

impl Clone for OutputInfo {
    /// A clone carries the same model.
    fn clone(&self) -> (r: Self)
        ensures
            r@ == self@,
    {
        OutputInfo {
            name: match &self.name {
                Some(s) => Some(s.clone()),
                None => None,
            },
            x: self.x,
            y: self.y,
            width: self.width,
            height: self.height,
            scale: self.scale,
        }
    }
}

/// Copy a list of outputs; the copy carries the same model.
pub fn clone_outputs(outputs: &Vec<OutputInfo>) -> (r: Vec<OutputInfo>)
    ensures
        r@.map_values(|o: OutputInfo| o@) == outputs@.map_values(|o: OutputInfo| o@),
        r@.len() == outputs@.len(),
{
    let mut out: Vec<OutputInfo> = Vec::new();
    let mut k: usize = 0;
    proof {
        assert(out@.map_values(|o: OutputInfo| o@) =~= outputs@.map_values(
            |o: OutputInfo| o@,
        ).subrange(0, 0));
    }
    while k < outputs.len()
        invariant
            k <= outputs@.len(),
            out@.len() == k,
            out@.map_values(|o: OutputInfo| o@) == outputs@.map_values(
                |o: OutputInfo| o@,
            ).subrange(0, k as int),
        decreases outputs@.len() - k,
    {
        out.push(outputs[k].clone());
        proof {
            assert(out@.map_values(|o: OutputInfo| o@) =~= outputs@.map_values(
                |o: OutputInfo| o@,
            ).subrange(0, k as int + 1));
        }
        k += 1;
    }
    proof {
        let m = outputs@.map_values(|o: OutputInfo| o@);
        assert(m.subrange(0, m.len() as int) =~= m);
    }
    out
}

impl Clone for Request {
    /// A clone carries the same model.
    fn clone(&self) -> (r: Self)
        ensures
            r@ == self@,
    {
        match self {
            Request::Hello(h) => Request::Hello(*h),
            Request::ListOutputs => Request::ListOutputs,
            Request::GetUiConfig => Request::GetUiConfig,
            Request::StartCapture { mode, target, with_ui } => Request::StartCapture {
                mode: *mode,
                target: match target {
                    Some(t) => Some(t.clone()),
                    None => None,
                },
                with_ui: *with_ui,
            },
            Request::SetSelection { rect } => Request::SetSelection { rect: *rect },
            Request::ConfirmSelection => Request::ConfirmSelection,
            Request::Cancel => Request::Cancel,
            Request::Status => Request::Status,
        }
    }
}

impl Clone for Response {
    /// A clone carries the same model.
    fn clone(&self) -> (r: Self)
        ensures
            r@ == self@,
    {
        match self {
            Response::Okay => Response::Okay,
            Response::Outputs { outputs } => Response::Outputs {
                outputs: clone_outputs(outputs),
            },
            Response::UiConfig { cfg } => Response::UiConfig { cfg: *cfg },
            Response::Status { running, active_job } => Response::Status {
                running: *running,
                active_job: *active_job,
            },
            Response::Error { message } => Response::Error { message: message.clone() },
        }
    }
}

impl Clone for Event {
    /// A clone carries the same model.
    fn clone(&self) -> (r: Self)
        ensures
            r@ == self@,
    {
        match self {
            Event::CaptureStarted { mode } => Event::CaptureStarted { mode: *mode },
            Event::CaptureFinished { path } => Event::CaptureFinished { path: path.clone() },
            Event::CaptureFailed { message } => Event::CaptureFailed {
                message: message.clone(),
            },
            Event::SelectionPreview { rect } => Event::SelectionPreview { rect: *rect },
        }
    }
}

impl Clone for Wire {
    /// A clone carries the same model.
    fn clone(&self) -> (r: Self)
        ensures
            r@ == self@,
    {
        match self {
            Wire::Response(r0) => Wire::Response(r0.clone()),
            Wire::Event(e) => Wire::Event(e.clone()),
        }
    }
}

} // verus!
