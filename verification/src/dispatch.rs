//! The daemon's per-request dispatch: process-wide state, the routing of
//! requests through the selection machine, and the decisions the capture
//! orchestration rests on.
//!
//! Dispatch is deliberately thin: it decides which events and response a
//! request earns and what capture work, if any, the surrounding application
//! must perform.  The application runs the overlay or the capture backend
//! and brings the outcome back to [`finish_capture`].

use vstd::prelude::*;
use vstd::string::StringExecFns;

use crate::capture::CaptureCrop;
use crate::config::CapitConfig;
use crate::protocol::{
    clone_outputs,
    Event,
    EventM,
    Mode,
    OutputInfo,
    OutputInfoM,
    Request,
    RequestM,
    Response,
    ResponseM,
    Target,
    TargetM,
    UiConfig,
};
use crate::selection::{sel_step, SelectionState};

verus! {

/// The bar's colour theme preference.
#[derive(Debug, Clone, Copy, PartialEq, Eq, Structural)]
pub enum Theme {
    Auto,
    Dark,
    Light,
}

/// UI styling the daemon derives from its configuration.
#[derive(Debug, Clone, Copy, PartialEq, Eq, Structural)]
pub struct UiCfg {
    pub theme: Theme,
    pub accent_colour: u32,
    pub bar_background_colour: u32,
}

impl UiCfg {
    /// The wire form of the UI configuration.
    pub fn to_ipc(self) -> (r: UiConfig)
        ensures
            r == (UiConfig {
                accent_colour: self.accent_colour,
                bar_background_colour: self.bar_background_colour,
            }),
    {
        UiConfig {
            accent_colour: self.accent_colour,
            bar_background_colour: self.bar_background_colour,
        }
    }
}

impl Default for UiCfg {
    /// The default theme and colours.
    fn default() -> (r: Self)
        ensures
            r == (UiCfg {
                theme: Theme::Auto,
                accent_colour: crate::config::DEFAULT_ACCENT,
                bar_background_colour: crate::config::DEFAULT_BAR_BG,
            }),
    {
        UiCfg {
            theme: Theme::Auto,
            accent_colour: crate::config::DEFAULT_ACCENT,
            bar_background_colour: crate::config::DEFAULT_BAR_BG,
        }
    }
}

/// Process-wide daemon state, constructed once at startup and threaded by
/// mutable reference into the dispatch of every request.
#[derive(Debug)]
pub struct DaemonState {
    pub active_job: Option<Mode>,
    pub outputs: Vec<OutputInfo>,
    pub cfg: CapitConfig,
    pub ui: UiCfg,
}

impl DaemonState {
    /// A fresh daemon around its configuration; the UI colours follow it.
    pub fn new(cfg: CapitConfig) -> (r: Self)
        ensures
            r.active_job is None,
            r.outputs@.len() == 0,
            r.ui == (UiCfg {
                theme: Theme::Auto,
                accent_colour: cfg.accent_colour,
                bar_background_colour: cfg.bar_background_colour,
            }),
            r.cfg.accent_colour == cfg.accent_colour,
            r.cfg.bar_background_colour == cfg.bar_background_colour,
            r.cfg.screenshot_directory@ == cfg.screenshot_directory@,
    {
        let ui = UiCfg {
            theme: Theme::Auto,
            accent_colour: cfg.accent_colour,
            bar_background_colour: cfg.bar_background_colour,
        };
        DaemonState { active_job: None, outputs: Vec::new(), cfg, ui }
    }
}

/// The capture work a request leaves for the surrounding application.
#[derive(Debug, Clone, Copy, PartialEq, Eq, Structural)]
pub enum CaptureTask {
    /// Crop-capture the confirmed selection rectangle.
    RegionSelection { rect: crate::protocol::Rect },
    /// Run the daemon-side region overlay on this output, then crop-capture
    /// what it returns.
    RegionOverlay { target_index: usize },
    /// Run the daemon-side screen overlay, hovering this output first, then
    /// capture the picked target.
    ScreenOverlay { initial_output: Option<usize> },
}

/// First index whose output carries exactly this name, searching from `i`.
pub open spec fn find_output_by_name(outputs: Seq<OutputInfoM>, name: Seq<char>, i: int) -> Option<
    int,
>
    decreases outputs.len() - i,
{
    if i < 0 || i >= outputs.len() {
        None
    } else if outputs[i].name == Some(name) {
        Some(i)
    } else {
        find_output_by_name(outputs, name, i + 1)
    }
}

/// Which output a region capture should run on: the first output for no
/// target or all-screens, the named output when it exists, and nothing for
/// an empty output list, an unknown name, or a target kind a region cannot
/// use.
pub open spec fn region_output_index(outputs: Seq<OutputInfoM>, target: Option<TargetM>) -> Option<
    int,
> {
    if outputs.len() == 0 {
        None
    } else {
        match target {
            None => Some(0),
            Some(TargetM::AllScreens) => Some(0),
            Some(TargetM::OutputName(name)) => find_output_by_name(outputs, name, 0),
            Some(_) => None,
        }
    }
}

pub open spec fn outputs_model(outputs: Seq<OutputInfo>) -> Seq<OutputInfoM> {
    outputs.map_values(|o: OutputInfo| o@)
}

pub open spec fn target_opt_model(t: Option<Target>) -> Option<TargetM> {
    match t {
        Some(x) => Some(x@),
        None => None,
    }
}

/// The known output names from index `i` on, joined with `", "`.
pub open spec fn known_names_from(outputs: Seq<OutputInfoM>, i: int) -> Seq<char>
    decreases outputs.len() - i,
{
    if i < 0 || i >= outputs.len() {
        Seq::empty()
    } else {
        let rest = known_names_from(outputs, i + 1);
        match outputs[i].name {
            None => rest,
            Some(n) => if rest.len() == 0 {
                n
            } else {
                n + ", "@ + rest
            },
        }
    }
}

/// The message a failed region-output lookup carries: which of the three
/// reasons struck, naming the unknown output and the known ones.
pub open spec fn region_error_message(outputs: Seq<OutputInfoM>, target: Option<TargetM>) -> Seq<
    char,
> {
    if outputs.len() == 0 {
        "no outputs available"@
    } else {
        match target {
            Some(TargetM::OutputName(name)) => "unknown output '"@ + name + "'. Available: "@
                + known_names_from(outputs, 0),
            _ => "target not supported for region capture"@,
        }
    }
}

fn find_index_by_name(outputs: &Vec<OutputInfo>, name: &String) -> (r: Option<usize>)
    ensures
        (match r {
            Some(i) => i < outputs@.len() && find_output_by_name(
                outputs_model(outputs@),
                name@,
                0,
            ) == Some(i as int),
            None => find_output_by_name(outputs_model(outputs@), name@, 0) is None,
        }),
{
    let ghost m = outputs_model(outputs@);
    let mut i: usize = 0;
    while i < outputs.len()
        invariant
            0 <= i <= outputs@.len(),
            m == outputs_model(outputs@),
            m.len() == outputs@.len(),
            find_output_by_name(m, name@, 0) == find_output_by_name(m, name@, i as int),
        decreases outputs@.len() - i,
    {
        proof {
            assert(m[i as int] == outputs@[i as int]@);
        }
        let o = &outputs[i];
        let matched: bool = match &o.name {
            Some(n) => *n == *name,
            None => false,
        };
        if matched {
            proof {
                assert(m[i as int].name == Some(name@));
            }
            return Some(i);
        }
        proof {
            assert(m[i as int].name != Some(name@));
        }
        i += 1;
    }
    None
}

fn known_names(outputs: &Vec<OutputInfo>) -> (r: String)
    ensures
        r@ == known_names_from(outputs_model(outputs@), 0),
{
    let ghost m = outputs_model(outputs@);
    let mut acc = String::new();
    let mut i: usize = outputs.len();
    proof {
        assert(known_names_from(m, outputs@.len() as int) =~= Seq::<char>::empty());
    }
    while i > 0
        invariant
            0 <= i <= outputs@.len(),
            m == outputs_model(outputs@),
            m.len() == outputs@.len(),
            acc@ == known_names_from(m, i as int),
        decreases i,
    {
        i -= 1;
        proof {
            assert(m[i as int] == outputs@[i as int]@);
        }
        match &outputs[i].name {
            Some(n) => {
                if acc.as_str().unicode_len() == 0 {
                    acc = n.clone();
                } else {
                    let mut t = n.clone();
                    t.append(", ");
                    t.append(acc.as_str());
                    acc = t;
                }
            },
            None => {},
        }
    }
    acc
}

/// Pick the output index a region capture uses, per
/// [`region_output_index`]; an error carries [`region_error_message`],
/// naming the unknown output and listing the known ones.
pub fn determine_output_index(outputs: &Vec<OutputInfo>, target: &Option<Target>) -> (r: Result<
    usize,
    String,
>)
    ensures
        (match r {
            Ok(i) => region_output_index(
                outputs_model(outputs@),
                target_opt_model(*target),
            ) == Some(i as int),
            Err(m) => region_output_index(outputs_model(outputs@), target_opt_model(*target))
                is None && m@ == region_error_message(
                outputs_model(outputs@),
                target_opt_model(*target),
            ),
        }),
{
    if outputs.len() == 0 {
        return Err(String::from_str("no outputs available"));
    }
    match target {
        None => Ok(0),
        Some(Target::AllScreens) => Ok(0),
        Some(Target::OutputName(name)) => match find_index_by_name(outputs, name) {
            Some(i) => Ok(i),
            None => {
                let mut msg = String::from_str("unknown output '");
                msg.append(name.as_str());
                msg.append("'. Available: ");
                let known = known_names(outputs);
                msg.append(known.as_str());
                Err(msg)
            },
        },
        Some(_) => Err(String::from_str("target not supported for region capture")),
    }
}

/// Dispatch one request: route it through the selection machine first, and
/// otherwise answer it from the daemon state.  The result is the events to
/// send (in order, before any response), the response if the request is
/// complete, and the capture work left to the application when it is not;
/// exactly one of the latter two is present.
pub fn dispatch_request(
    state: &mut DaemonState,
    selection: &mut SelectionState,
    req: &Request,
) -> (r: (Vec<Event>, Option<Response>, Option<CaptureTask>))
    ensures
        final(state).outputs == old(state).outputs,
        final(state).cfg == old(state).cfg,
        final(state).ui == old(state).ui,
        (r.1 is Some) != (r.2 is Some),
        ({
            let (st2, sresp, sevs) = sel_step(old(selection)@, req@);
            &&& (match sresp {
                Some(resp) => {
                    &&& if req@ is ConfirmSelection && resp is Okay {
                        match st2 {
                            Some(a) => if a.mode == Mode::Region {
                                &&& r.0@.map_values(|e: Event| e@) == sevs
                                &&& final(selection)@ is None
                                &&& final(state).active_job == Some(Mode::Region)
                                &&& r.1 is None
                                &&& (r.2 matches Some(CaptureTask::RegionSelection { rect })
                                    && a.rect == Some(rect))
                            } else {
                                &&& final(selection)@ is None
                                &&& final(state).active_job is None
                                &&& r.0@.map_values(|e: Event| e@) == sevs + seq![
                                    EventM::CaptureFailed {
                                        message: "confirm not supported for this capture mode"@,
                                    },
                                ]
                                &&& (r.1 matches Some(resp2) && resp2@ == (ResponseM::Error {
                                    message: "confirm not supported for this capture mode"@,
                                }))
                                &&& r.2 is None
                            },
                            None => false,
                        }
                    } else {
                        &&& r.0@.map_values(|e: Event| e@) == sevs
                        &&& final(selection)@ == st2
                        &&& final(state).active_job == (if req@ is Cancel {
                            None::<Mode>
                        } else {
                            old(state).active_job
                        })
                        &&& (r.1 matches Some(rr) && rr@ == resp)
                        &&& r.2 is None
                    }
                },
                None => {
                    &&& final(selection)@ == st2
                    &&& (match req@ {
                        RequestM::Hello(_) => r.1 matches Some(rr) && rr@ == ResponseM::Okay
                            && final(state).active_job == old(state).active_job
                            && r.0@.map_values(|e: Event| e@) == Seq::<EventM>::empty(),
                        RequestM::Status => r.1 matches Some(rr) && rr@ == (ResponseM::Status {
                            running: true,
                            active_job: old(state).active_job,
                        }) && final(state).active_job == old(state).active_job
                            && r.0@.map_values(|e: Event| e@) == Seq::<EventM>::empty(),
                        RequestM::ListOutputs => r.1 matches Some(rr) && rr@ == (
                        ResponseM::Outputs {
                            outputs: outputs_model(old(state).outputs@),
                        }) && final(state).active_job == old(state).active_job
                            && r.0@.map_values(|e: Event| e@) == Seq::<EventM>::empty(),
                        RequestM::GetUiConfig => r.1 matches Some(rr) && rr@ == (
                        ResponseM::UiConfig {
                            cfg: UiConfig {
                                accent_colour: old(state).ui.accent_colour,
                                bar_background_colour: old(state).ui.bar_background_colour,
                            },
                        }) && final(state).active_job == old(state).active_job
                            && r.0@.map_values(|e: Event| e@) == Seq::<EventM>::empty(),
                        RequestM::Cancel => r.1 matches Some(rr) && rr@ == ResponseM::Okay
                            && final(state).active_job is None && r.0@.map_values(|e: Event| e@)
                            == Seq::<EventM>::empty(),
                        RequestM::StartCapture { mode, target, with_ui } => (match mode {
                            Mode::Region => {
                                &&& r.0@.map_values(|e: Event| e@).len() >= 1
                                &&& r.0@.map_values(|e: Event| e@)[0] == (EventM::CaptureStarted {
                                    mode: Mode::Region,
                                })
                                &&& (match region_output_index(
                                    outputs_model(old(state).outputs@),
                                    target,
                                ) {
                                    Some(i) => r.2 == Some(
                                        CaptureTask::RegionOverlay { target_index: i as usize },
                                    ) && final(state).active_job == Some(Mode::Region)
                                        && r.0@.map_values(|e: Event| e@).len() == 1,
                                    None => ({
                                        let m = region_error_message(
                                            outputs_model(old(state).outputs@),
                                            target,
                                        );
                                        &&& (r.1 matches Some(rr) && rr@ == (ResponseM::Error {
                                            message: m,
                                        }))
                                        &&& final(state).active_job is None
                                        &&& r.0@.map_values(|e: Event| e@) == seq![
                                            EventM::CaptureStarted { mode: Mode::Region },
                                            EventM::CaptureFailed { message: m },
                                        ]
                                    }),
                                })
                            },
                            Mode::Screen => {
                                &&& r.0@.map_values(|e: Event| e@) == seq![
                                    EventM::CaptureStarted { mode: Mode::Screen },
                                ]
                                &&& final(state).active_job == Some(Mode::Screen)
                                &&& (r.2 matches Some(CaptureTask::ScreenOverlay {
                                    initial_output,
                                }) && (match target {
                                    Some(TargetM::OutputName(name)) => match find_output_by_name(
                                        outputs_model(old(state).outputs@),
                                        name,
                                        0,
                                    ) {
                                        Some(i) => initial_output == Some(i as usize),
                                        None => initial_output is None,
                                    },
                                    _ => initial_output is None,
                                }))
                            },
                            Mode::Window => {
                                &&& r.0@.map_values(|e: Event| e@) == seq![
                                    EventM::CaptureStarted { mode: Mode::Window },
                                    EventM::CaptureFailed {
                                        message: "window capture is not implemented yet"@,
                                    },
                                ]
                                &&& (r.1 matches Some(rr) && rr@ == (ResponseM::Error {
                                    message: "window capture is not implemented yet"@,
                                }))
                                &&& final(state).active_job is None
                            },
                            Mode::Record => {
                                &&& r.0@.map_values(|e: Event| e@) == seq![
                                    EventM::CaptureFailed {
                                        message: "record not implemented yet"@,
                                    },
                                ]
                                &&& (r.1 matches Some(rr) && rr@ == (ResponseM::Error {
                                    message: "record not implemented yet"@,
                                }))
                                &&& final(state).active_job == old(state).active_job
                            },
                        }),
                        _ => r.1 is Some,
                    })
                },
            })
        }),
{
    let (sresp, sevents) = selection.handle_request(req);
    let mut events = sevents;
    match sresp {
        Some(resp) => {
            let confirmed = matches!(req, Request::ConfirmSelection) && matches!(
                resp,
                Response::Okay,
            );
            if confirmed {
                match selection.take_active() {
                    Some(active) => {
                        match (active.mode, active.rect) {
                            (Mode::Region, Some(rect)) => {
                                state.active_job = Some(Mode::Region);
                                (events, None, Some(CaptureTask::RegionSelection { rect }))
                            },
                            _ => {
                                state.active_job = None;
                                let msg = String::from_str(
                                    "confirm not supported for this capture mode",
                                );
                                let ghost evs0 = events@.map_values(|e: Event| e@);
                                events.push(Event::CaptureFailed { message: msg.clone() });
                                proof {
                                    assert(events@.map_values(|e: Event| e@) =~= evs0 + seq![
                                        EventM::CaptureFailed { message: msg@ },
                                    ]);
                                }
                                (
                                    events,
                                    Some(Response::Error { message: msg }),
                                    None,
                                )
                            },
                        }
                    },
                    None => {
                        proof {
                            assert(false);
                        }
                        (events, Some(Response::Okay), None)
                    },
                }
            } else {
                if matches!(req, Request::Cancel) {
                    state.active_job = None;
                }
                (events, Some(resp), None)
            }
        },
        None => {
            match req {
                Request::Hello(_) => (events, Some(Response::Okay), None),
                Request::Status => (
                    events,
                    Some(Response::Status { running: true, active_job: state.active_job }),
                    None,
                ),
                Request::ListOutputs => (
                    events,
                    Some(Response::Outputs { outputs: clone_outputs(&state.outputs) }),
                    None,
                ),
                Request::GetUiConfig => (
                    events,
                    Some(Response::UiConfig { cfg: state.ui.to_ipc() }),
                    None,
                ),
                Request::Cancel => {
                    state.active_job = None;
                    (events, Some(Response::Okay), None)
                },
                Request::StartCapture { mode, target, with_ui: _ } => {
                    match mode {
                        Mode::Region => {
                            state.active_job = Some(Mode::Region);
                            let ghost evs0 = events@;
                            events.push(Event::CaptureStarted { mode: Mode::Region });
                            proof {
                                assert(events@.map_values(|e: Event| e@) =~= seq![
                                    EventM::CaptureStarted { mode: Mode::Region },
                                ]);
                            }
                            match determine_output_index(&state.outputs, target) {
                                Ok(idx) => (
                                    events,
                                    None,
                                    Some(CaptureTask::RegionOverlay { target_index: idx }),
                                ),
                                Err(msg) => {
                                    state.active_job = None;
                                    events.push(
                                        Event::CaptureFailed { message: msg.clone() },
                                    );
                                    proof {
                                        assert(events@.map_values(|e: Event| e@) =~= seq![
                                            EventM::CaptureStarted { mode: Mode::Region },
                                            EventM::CaptureFailed { message: msg@ },
                                        ]);
                                    }
                                    (events, Some(Response::Error { message: msg }), None)
                                },
                            }
                        },
                        Mode::Screen => {
                            state.active_job = Some(Mode::Screen);
                            events.push(Event::CaptureStarted { mode: Mode::Screen });
                            proof {
                                assert(events@.map_values(|e: Event| e@) =~= seq![
                                    EventM::CaptureStarted { mode: Mode::Screen },
                                ]);
                            }
                            let initial = match target {
                                Some(Target::OutputName(name)) => find_index_by_name(
                                    &state.outputs,
                                    name,
                                ),
                                _ => None,
                            };
                            (
                                events,
                                None,
                                Some(CaptureTask::ScreenOverlay { initial_output: initial }),
                            )
                        },
                        Mode::Window => {
                            state.active_job = None;
                            let msg = String::from_str("window capture is not implemented yet");
                            events.push(Event::CaptureStarted { mode: Mode::Window });
                            proof {
                                assert(events@.map_values(|e: Event| e@) =~= seq![
                                    EventM::CaptureStarted { mode: Mode::Window },
                                ]);
                            }
                            events.push(Event::CaptureFailed { message: msg.clone() });
                            proof {
                                assert(events@.map_values(|e: Event| e@) =~= seq![
                                    EventM::CaptureStarted { mode: Mode::Window },
                                    EventM::CaptureFailed { message: msg@ },
                                ]);
                            }
                            (events, Some(Response::Error { message: msg }), None)
                        },
                        Mode::Record => {
                            let msg = String::from_str("record not implemented yet");
                            events.push(Event::CaptureFailed { message: msg.clone() });
                            proof {
                                assert(events@.map_values(|e: Event| e@) =~= seq![
                                    EventM::CaptureFailed { message: msg@ },
                                ]);
                            }
                            (events, Some(Response::Error { message: msg }), None)
                        },
                    }
                },
                _ => (
                    events,
                    Some(
                        Response::Error {
                            message: String::from_str("request not handled"),
                        },
                    ),
                    None,
                ),
            }
        },
    }
}

/// Close out a capture: clear the active-job bookkeeping and turn the
/// backend's outcome into the terminal event and response.  A failure whose
/// message is the cancellation sentinel counts as a successful, quiet end.
pub fn finish_capture(state: &mut DaemonState, outcome: Result<String, String>) -> (r: (
    Vec<Event>,
    Response,
))
    ensures
        final(state).active_job is None,
        final(state).outputs == old(state).outputs,
        final(state).cfg == old(state).cfg,
        final(state).ui == old(state).ui,
        (match outcome {
            Ok(path) => r.0@.map_values(|e: Event| e@) == seq![
                EventM::CaptureFinished { path: path@ },
            ] && r.1@ == ResponseM::Okay,
            Err(msg) => r.0@.map_values(|e: Event| e@) == seq![
                EventM::CaptureFailed { message: msg@ },
            ] && if msg@ == "cancelled"@ {
                r.1@ == ResponseM::Okay
            } else {
                r.1@ == (ResponseM::Error { message: msg@ })
            },
        }),
{
    state.active_job = None;
    let mut events: Vec<Event> = Vec::new();
    match outcome {
        Ok(path) => {
            let ghost pm = path@;
            events.push(Event::CaptureFinished { path });
            proof {
                assert(events@.map_values(|e: Event| e@) =~= seq![
                    EventM::CaptureFinished { path: pm },
                ]);
            }
            (events, Response::Okay)
        },
        Err(msg) => {
            let cancelled = msg == String::from_str("cancelled");
            let ghost mm = msg@;
            events.push(Event::CaptureFailed { message: msg.clone() });
            proof {
                assert(events@.map_values(|e: Event| e@) =~= seq![
                    EventM::CaptureFailed { message: mm },
                ]);
            }
            if cancelled {
                (events, Response::Okay)
            } else {
                (events, Response::Error { message: msg })
            }
        },
    }
}

/// Per-output geometry small enough for the scale arithmetic below.
pub open spec fn output_geometry_ok(o: OutputInfoM) -> bool {
    &&& -0x10_0000 <= o.x as int <= 0x10_0000
    &&& -0x10_0000 <= o.y as int <= 0x10_0000
    &&& -0x10_0000 <= o.width as int <= 0x10_0000
    &&& -0x10_0000 <= o.height as int <= 0x10_0000
    &&& o.scale as int <= 0x100
}

pub open spec fn outputs_geometry_ok(outputs: Seq<OutputInfoM>) -> bool {
    forall|i: int| 0 <= i < outputs.len() ==> output_geometry_ok(#[trigger] outputs[i])
}

/// Check every output's geometry against the bounds the crop arithmetic
/// needs; the application runs this once on what the compositor reported.
pub fn outputs_geometry_sane(outputs: &Vec<OutputInfo>) -> (r: bool)
    ensures
        r == outputs_geometry_ok(outputs_model(outputs@)),
{
    let ghost m = outputs_model(outputs@);
    let mut i: usize = 0;
    while i < outputs.len()
        invariant
            0 <= i <= outputs@.len(),
            m == outputs_model(outputs@),
            m.len() == outputs@.len(),
            forall|j: int| 0 <= j < i ==> output_geometry_ok(#[trigger] m[j]),
        decreases outputs@.len() - i,
    {
        proof {
            assert(m[i as int] == outputs@[i as int]@);
        }
        let o = &outputs[i];
        if !(-0x10_0000 <= o.x && o.x <= 0x10_0000 && -0x10_0000 <= o.y && o.y <= 0x10_0000
            && -0x10_0000 <= o.width && o.width <= 0x10_0000 && -0x10_0000 <= o.height && o.height
            <= 0x10_0000 && o.scale <= 0x100) {
            return false;
        }
        i += 1;
    }
    true
}

/// The scale an output's crop uses: its scale factor, at least one.
pub open spec fn effective_scale(o: OutputInfoM) -> int {
    if o.scale < 1 {
        1
    } else {
        o.scale as int
    }
}

/// What a screen capture of the picked target must do: capture everything
/// (`None`), or crop to the named output's scaled rectangle.  An unknown
/// name or a target kind the screen overlay cannot return is an error.
pub fn screen_target_crop(outputs: &Vec<OutputInfo>, picked: &Target) -> (r: Result<
    Option<CaptureCrop>,
    String,
>)
    requires
        outputs_geometry_ok(outputs_model(outputs@)),
    ensures
        (match picked@ {
            TargetM::AllScreens => r == Ok::<Option<CaptureCrop>, String>(None),
            TargetM::OutputName(name) => (match find_output_by_name(
                outputs_model(outputs@),
                name,
                0,
            ) {
                Some(i) => r matches Ok(Some(c)) && ({
                    let o = outputs_model(outputs@)[i];
                    let s = effective_scale(o);
                    c.x as int == o.x as int * s && c.y as int == o.y as int * s && c.w as int
                        == o.width as int * s && c.h as int == o.height as int * s
                }),
                None => r is Err,
            }),
            _ => r is Err,
        }),
{
    match picked {
        Target::AllScreens => Ok(None),
        Target::OutputName(name) => {
            match find_index_by_name(outputs, name) {
                Some(i) => {
                    proof {
                        assert(outputs_model(outputs@)[i as int] == outputs@[i as int]@);
                        assert(output_geometry_ok(outputs_model(outputs@)[i as int]));
                    }
                    let o = &outputs[i];
                    let s: i32 = if o.scale < 1 {
                        1
                    } else {
                        o.scale
                    };
                    proof {
                        assert(-0x1000_0000 <= o.x as int * s as int <= 0x1000_0000
                            && -0x1000_0000 <= o.y as int * s as int <= 0x1000_0000
                            && -0x1000_0000 <= o.width as int * s as int <= 0x1000_0000
                            && -0x1000_0000 <= o.height as int * s as int <= 0x1000_0000)
                            by (nonlinear_arith)
                            requires
                                -0x10_0000 <= o.x as int <= 0x10_0000,
                                -0x10_0000 <= o.y as int <= 0x10_0000,
                                -0x10_0000 <= o.width as int <= 0x10_0000,
                                -0x10_0000 <= o.height as int <= 0x10_0000,
                                1 <= s as int <= 0x100,
                        ;
                    }
                    let crop = CaptureCrop {
                        x: o.x * s,
                        y: o.y * s,
                        w: o.width * s,
                        h: o.height * s,
                    };
                    Ok(Some(crop))
                },
                None => Err(String::from_str("unknown output")),
            }
        },
        _ => Err(String::from_str("overlay returned an unsupported target")),
    }
}

} // verus!
