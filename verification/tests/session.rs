use capit::capture::{capture_wait_step, CaptureOutcome};
use capit::client::IpcClient;
use capit::dispatch::{
    determine_output_index, dispatch_request, finish_capture, CaptureTask, DaemonState, Theme,
    UiCfg,
};
use capit::config::CapitConfig;
use capit::errors::IpcError;
use capit::protocol::{
    Event, IpcHello, Mode, OutputInfo, Rect, Request, Response, Target, Wire, IPC_VERSION,
};
use capit::selection::SelectionState;
use capit::framing::{read_frame, write_frame};
use capit::protocol::DEFAULT_MAX_FRAME;
use capit::server::hello_reply;
use capit::wire::{decode_request, decode_wire, encode_request, encode_wire};

fn outputs_two() -> Vec<OutputInfo> {
    vec![
        OutputInfo {
            name: Some(String::from("DP-1")),
            x: 0,
            y: 0,
            width: 2560,
            height: 1440,
            scale: 1,
        },
        OutputInfo {
            name: Some(String::from("HDMI-A-1")),
            x: 2560,
            y: 0,
            width: 1920,
            height: 1080,
            scale: 1,
        },
    ]
}

fn fresh_state() -> DaemonState {
    DaemonState::new(CapitConfig::with_directory(String::from("/tmp/shots")))
}

#[test]
fn hello_with_matching_version_is_accepted() {
    assert_eq!(IPC_VERSION, 3);
    let reply = hello_reply(&Request::Hello(IpcHello { version: 3 })).unwrap();
    assert_eq!(reply, Response::Okay);
}

#[test]
fn hello_with_other_version_fails_the_connection() {
    let err = hello_reply(&Request::Hello(IpcHello { version: 2 })).unwrap_err();
    assert_eq!(err, IpcError::VersionMismatch { client: 2, server: 3 });
}

#[test]
fn non_hello_first_message_gets_an_error_reply() {
    let reply = hello_reply(&Request::Status).unwrap();
    assert_eq!(reply, Response::Error { message: String::from("expected hello") });
}

#[test]
fn client_judges_hello_responses() {
    assert!(IpcClient::check_hello_response(Response::Okay).is_ok());
    assert_eq!(
        IpcClient::check_hello_response(Response::Error { message: String::from("nope") }),
        Err(IpcError::Remote(String::from("nope")))
    );
    assert_eq!(
        IpcClient::check_hello_response(Response::Status { running: true, active_job: None }),
        Err(IpcError::Remote(String::from("unexpected hello response")))
    );
}

#[test]
fn selection_session_keeps_last_rect_and_take_consumes_once() {
    let mut sel = SelectionState::new();
    assert!(!sel.is_active());

    let (resp, events) = sel.handle_request(&Request::StartCapture {
        mode: Mode::Region,
        target: None,
        with_ui: true,
    });
    assert_eq!(resp, Some(Response::Okay));
    assert_eq!(events, vec![Event::CaptureStarted { mode: Mode::Region }]);
    assert!(sel.is_active());
    assert_eq!(sel.active_mode(), Some(Mode::Region));

    let r1 = Rect { x: 1, y: 1, w: 100, h: 100 };
    let r2 = Rect { x: 5, y: 6, w: 70, h: 80 };
    let (resp, events) = sel.handle_request(&Request::SetSelection { rect: r1 });
    assert_eq!(resp, Some(Response::Okay));
    assert_eq!(events, vec![Event::SelectionPreview { rect: r1 }]);
    let (resp, events) = sel.handle_request(&Request::SetSelection { rect: r2 });
    assert_eq!(resp, Some(Response::Okay));
    assert_eq!(events, vec![Event::SelectionPreview { rect: r2 }]);

    let (resp, events) = sel.handle_request(&Request::ConfirmSelection);
    assert_eq!(resp, Some(Response::Okay));
    assert!(events.is_empty());

    let active = sel.take_active().unwrap();
    assert_eq!(active.mode, Mode::Region);
    assert_eq!(active.rect, Some(r2));
    assert_eq!(sel.take_active(), None);
}

#[test]
fn set_selection_without_session_is_an_error() {
    let mut sel = SelectionState::new();
    let (resp, events) = sel.handle_request(&Request::SetSelection {
        rect: Rect { x: 0, y: 0, w: 10, h: 10 },
    });
    assert_eq!(
        resp,
        Some(Response::Error { message: String::from("no active selection session") })
    );
    assert!(events.is_empty());
}

#[test]
fn confirm_without_rect_is_an_error() {
    let mut sel = SelectionState::new();
    sel.handle_request(&Request::StartCapture {
        mode: Mode::Region,
        target: None,
        with_ui: true,
    });
    let (resp, _) = sel.handle_request(&Request::ConfirmSelection);
    assert_eq!(resp, Some(Response::Error { message: String::from("no selection rect set") }));
}

#[test]
fn cancel_returns_to_idle() {
    let mut sel = SelectionState::new();
    sel.handle_request(&Request::StartCapture {
        mode: Mode::Region,
        target: None,
        with_ui: true,
    });
    let (resp, _) = sel.handle_request(&Request::Cancel);
    assert_eq!(resp, Some(Response::Okay));
    assert!(!sel.is_active());
    // a second cancel is not a selection matter any more
    let (resp, _) = sel.handle_request(&Request::Cancel);
    assert_eq!(resp, None);
}

#[test]
fn non_interactive_start_capture_is_not_handled_by_selection() {
    let mut sel = SelectionState::new();
    let (resp, events) = sel.handle_request(&Request::StartCapture {
        mode: Mode::Region,
        target: None,
        with_ui: false,
    });
    assert_eq!(resp, None);
    assert!(events.is_empty());
    assert!(!sel.is_active());
}

#[test]
fn events_during_a_call_are_buffered_in_order() {
    let mut client = IpcClient::new();
    let e1 = Event::CaptureStarted { mode: Mode::Region };
    let e2 = Event::SelectionPreview { rect: Rect { x: 0, y: 0, w: 1, h: 1 } };

    assert_eq!(client.handle_wire_during_call(Wire::Event(e1.clone())), None);
    assert_eq!(client.handle_wire_during_call(Wire::Event(e2.clone())), None);
    assert_eq!(
        client.handle_wire_during_call(Wire::Response(Response::Okay)),
        Some(Response::Okay)
    );

    assert_eq!(client.pop_pending_event(), Some(e1));
    assert_eq!(client.pop_pending_event(), Some(e2));
    assert_eq!(client.pop_pending_event(), None);
}

#[test]
fn stray_response_while_waiting_for_events_is_discarded() {
    let ev = Event::CaptureFinished { path: String::from("/tmp/x.png") };
    assert_eq!(
        IpcClient::handle_wire_awaiting_event(Wire::Response(Response::Okay)),
        None
    );
    assert_eq!(IpcClient::handle_wire_awaiting_event(Wire::Event(ev.clone())), Some(ev));
}

#[test]
fn capture_wait_step_judges_events() {
    assert_eq!(
        capture_wait_step(Event::CaptureFinished { path: String::from("/a.png") }),
        Some(Ok(CaptureOutcome::Finished { path: String::from("/a.png") }))
    );
    assert_eq!(
        capture_wait_step(Event::CaptureFailed { message: String::from("cancelled") }),
        Some(Ok(CaptureOutcome::Cancelled))
    );
    assert_eq!(
        capture_wait_step(Event::CaptureFailed { message: String::from("boom") }),
        Some(Err(String::from("boom")))
    );
    assert_eq!(capture_wait_step(Event::CaptureStarted { mode: Mode::Region }), None);
}

#[test]
fn determine_output_index_cases() {
    let outs = outputs_two();
    assert_eq!(determine_output_index(&outs, &None).unwrap(), 0);
    assert_eq!(determine_output_index(&outs, &Some(Target::AllScreens)).unwrap(), 0);
    assert_eq!(
        determine_output_index(&outs, &Some(Target::OutputName(String::from("HDMI-A-1"))))
            .unwrap(),
        1
    );
    assert!(determine_output_index(&outs, &Some(Target::OutputName(String::from("eDP-9"))))
        .is_err());
    assert!(determine_output_index(&outs, &Some(Target::ActiveWindow)).is_err());
    assert!(determine_output_index(&Vec::new(), &None).is_err());
}

#[test]
fn dispatch_answers_plain_requests() {
    let mut state = fresh_state();
    state.outputs = outputs_two();
    let mut sel = SelectionState::new();

    let (events, resp, task) = dispatch_request(&mut state, &mut sel, &Request::Status);
    assert!(events.is_empty());
    assert_eq!(resp, Some(Response::Status { running: true, active_job: None }));
    assert_eq!(task, None);

    let (_, resp, _) = dispatch_request(&mut state, &mut sel, &Request::ListOutputs);
    assert_eq!(resp, Some(Response::Outputs { outputs: outputs_two() }));

    let (_, resp, _) = dispatch_request(&mut state, &mut sel, &Request::GetUiConfig);
    assert_eq!(
        resp,
        Some(Response::UiConfig { cfg: state.ui.to_ipc() })
    );
}

#[test]
fn dispatch_region_capture_without_outputs_fails() {
    let mut state = fresh_state();
    let mut sel = SelectionState::new();
    let (events, resp, task) = dispatch_request(&mut state, &mut sel, &Request::StartCapture {
        mode: Mode::Region,
        target: None,
        with_ui: false,
    });
    assert_eq!(events[0], Event::CaptureStarted { mode: Mode::Region });
    assert!(matches!(events[1], Event::CaptureFailed { .. }));
    assert!(matches!(resp, Some(Response::Error { .. })));
    assert_eq!(task, None);
    assert_eq!(state.active_job, None);
}

#[test]
fn dispatch_region_capture_leaves_overlay_task() {
    let mut state = fresh_state();
    state.outputs = outputs_two();
    let mut sel = SelectionState::new();
    let (events, resp, task) = dispatch_request(&mut state, &mut sel, &Request::StartCapture {
        mode: Mode::Region,
        target: Some(Target::OutputName(String::from("HDMI-A-1"))),
        with_ui: false,
    });
    assert_eq!(events, vec![Event::CaptureStarted { mode: Mode::Region }]);
    assert_eq!(resp, None);
    assert_eq!(task, Some(CaptureTask::RegionOverlay { target_index: 1 }));
    assert_eq!(state.active_job, Some(Mode::Region));
}

#[test]
fn dispatch_confirmed_selection_leaves_capture_task() {
    let mut state = fresh_state();
    state.outputs = outputs_two();
    let mut sel = SelectionState::new();
    let r = Rect { x: 10, y: 10, w: 200, h: 100 };

    dispatch_request(&mut state, &mut sel, &Request::StartCapture {
        mode: Mode::Region,
        target: None,
        with_ui: true,
    });
    dispatch_request(&mut state, &mut sel, &Request::SetSelection { rect: r });
    let (events, resp, task) =
        dispatch_request(&mut state, &mut sel, &Request::ConfirmSelection);
    assert!(events.is_empty());
    assert_eq!(resp, None);
    assert_eq!(task, Some(CaptureTask::RegionSelection { rect: r }));
    assert_eq!(state.active_job, Some(Mode::Region));
    assert!(!sel.is_active());

    // the backend outcome closes the job
    let (events, resp) = finish_capture(&mut state, Ok(String::from("/tmp/shots/capit-1.png")));
    assert_eq!(
        events,
        vec![Event::CaptureFinished { path: String::from("/tmp/shots/capit-1.png") }]
    );
    assert_eq!(resp, Response::Okay);
    assert_eq!(state.active_job, None);
}

#[test]
fn finish_capture_reports_failures_and_cancellation() {
    let mut state = fresh_state();
    state.active_job = Some(Mode::Region);
    let (events, resp) = finish_capture(&mut state, Err(String::from("portal failed")));
    assert_eq!(events, vec![Event::CaptureFailed { message: String::from("portal failed") }]);
    assert_eq!(resp, Response::Error { message: String::from("portal failed") });
    assert_eq!(state.active_job, None);

    state.active_job = Some(Mode::Region);
    let (events, resp) = finish_capture(&mut state, Err(String::from("cancelled")));
    assert_eq!(events, vec![Event::CaptureFailed { message: String::from("cancelled") }]);
    assert_eq!(resp, Response::Okay);
}

#[test]
fn ui_cfg_to_ipc_copies_the_colours() {
    let ui = UiCfg { theme: Theme::Dark, accent_colour: 0x11223344, bar_background_colour: 0x55667788 };
    let cfg = ui.to_ipc();
    assert_eq!(cfg.accent_colour, 0x11223344);
    assert_eq!(cfg.bar_background_colour, 0x55667788);
}

#[test]
fn handshake_travels_whole_stack() {
    // client side: frame the hello
    let mut client_to_server: Vec<u8> = Vec::new();
    let hello = IpcClient::hello_request();
    write_frame(&mut client_to_server, &encode_request(&hello)).unwrap();

    // server side: unframe, decode, judge, frame the reply
    let mut pos: usize = 0;
    let body = read_frame(&client_to_server, &mut pos, DEFAULT_MAX_FRAME).unwrap();
    let req = decode_request(&body).unwrap();
    let reply = hello_reply(&req).unwrap();
    let mut server_to_client: Vec<u8> = Vec::new();
    write_frame(&mut server_to_client, &encode_wire(&Wire::Response(reply))).unwrap();

    // client side: unframe, decode, accept
    let mut client = IpcClient::new();
    let mut pos2: usize = 0;
    let body2 = read_frame(&server_to_client, &mut pos2, client.max_frame_len()).unwrap();
    let w = decode_wire(&body2).unwrap();
    let resp = client.handle_wire_during_call(w).unwrap();
    assert!(IpcClient::check_hello_response(resp).is_ok());
}

#[test]
fn cancel_during_active_session_clears_the_job() {
    let mut state = fresh_state();
    state.outputs = outputs_two();
    let mut sel = SelectionState::new();

    // an interactive session is running and a job is recorded
    dispatch_request(&mut state, &mut sel, &Request::StartCapture {
        mode: Mode::Region,
        target: None,
        with_ui: true,
    });
    state.active_job = Some(Mode::Region);
    assert!(sel.is_active());

    let (events, resp, task) = dispatch_request(&mut state, &mut sel, &Request::Cancel);
    assert!(events.is_empty());
    assert_eq!(resp, Some(Response::Okay));
    assert_eq!(task, None);
    assert!(!sel.is_active());
    assert_eq!(state.active_job, None);
}

#[test]
fn plain_requests_emit_no_events() {
    let mut state = fresh_state();
    state.outputs = outputs_two();
    let mut sel = SelectionState::new();
    for req in [Request::Hello(IpcHello { version: 3 }), Request::Status, Request::ListOutputs,
        Request::GetUiConfig, Request::Cancel]
    {
        let (events, resp, task) = dispatch_request(&mut state, &mut sel, &req);
        assert!(events.is_empty());
        assert!(resp.is_some());
        assert_eq!(task, None);
    }
}

#[test]
fn unknown_output_error_names_it_and_lists_the_known_ones() {
    let outs = outputs_two();
    let err = determine_output_index(&outs, &Some(Target::OutputName(String::from("eDP-9"))))
        .unwrap_err();
    assert_eq!(err, String::from("unknown output 'eDP-9'. Available: DP-1, HDMI-A-1"));

    let mut state = fresh_state();
    state.outputs = outputs_two();
    let mut sel = SelectionState::new();
    let (events, resp, task) = dispatch_request(&mut state, &mut sel, &Request::StartCapture {
        mode: Mode::Region,
        target: Some(Target::OutputName(String::from("eDP-9"))),
        with_ui: false,
    });
    let msg = String::from("unknown output 'eDP-9'. Available: DP-1, HDMI-A-1");
    assert_eq!(
        events,
        vec![
            Event::CaptureStarted { mode: Mode::Region },
            Event::CaptureFailed { message: msg.clone() },
        ]
    );
    assert_eq!(resp, Some(Response::Error { message: msg }));
    assert_eq!(task, None);
    assert_eq!(state.active_job, None);
}

#[test]
fn window_and_record_captures_report_unimplemented() {
    let mut state = fresh_state();
    state.outputs = outputs_two();
    let mut sel = SelectionState::new();

    let (events, resp, _) = dispatch_request(&mut state, &mut sel, &Request::StartCapture {
        mode: Mode::Window,
        target: None,
        with_ui: false,
    });
    let msg = String::from("window capture is not implemented yet");
    assert_eq!(
        events,
        vec![
            Event::CaptureStarted { mode: Mode::Window },
            Event::CaptureFailed { message: msg.clone() },
        ]
    );
    assert_eq!(resp, Some(Response::Error { message: msg }));
    assert_eq!(state.active_job, None);

    let (events, resp, _) = dispatch_request(&mut state, &mut sel, &Request::StartCapture {
        mode: Mode::Record,
        target: None,
        with_ui: false,
    });
    let msg = String::from("record not implemented yet");
    assert_eq!(events, vec![Event::CaptureFailed { message: msg.clone() }]);
    assert_eq!(resp, Some(Response::Error { message: msg }));
}

#[test]
fn error_descriptions() {
    assert_eq!(IpcError::Decode.describe(), String::from("serialization error"));
    assert_eq!(IpcError::FrameTooLarge.describe(), String::from("frame too large"));
    assert_eq!(
        IpcError::VersionMismatch { client: 2, server: 3 }.describe(),
        String::from("version mismatch")
    );
    assert_eq!(IpcError::Io(String::from("eof")).describe(), String::from("eof"));
    assert_eq!(IpcError::Remote(String::from("busy")).describe(), String::from("busy"));
}
