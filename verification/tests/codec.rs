use capit::protocol::{
    Event, IpcHello, Mode, OutputInfo, Rect, Request, Response, Target, UiConfig, Wire,
};
use capit::wire::{decode_request, decode_wire, encode_request, encode_wire};

fn request_round_trip(req: Request) {
    let bytes = encode_request(&req);
    let back = decode_request(&bytes);
    assert_eq!(back, Some(req));
}

fn wire_round_trip(w: Wire) {
    let bytes = encode_wire(&w);
    let back = decode_wire(&bytes);
    assert_eq!(back, Some(w));
}

#[test]
fn request_variants_round_trip() {
    request_round_trip(Request::Hello(IpcHello { version: 3 }));
    request_round_trip(Request::ListOutputs);
    request_round_trip(Request::GetUiConfig);
    request_round_trip(Request::StartCapture {
        mode: Mode::Region,
        target: None,
        with_ui: true,
    });
    request_round_trip(Request::StartCapture {
        mode: Mode::Screen,
        target: Some(Target::AllScreens),
        with_ui: false,
    });
    request_round_trip(Request::StartCapture {
        mode: Mode::Window,
        target: Some(Target::OutputName(String::from("DP-1"))),
        with_ui: false,
    });
    request_round_trip(Request::StartCapture {
        mode: Mode::Record,
        target: Some(Target::OutputIndex(7)),
        with_ui: true,
    });
    request_round_trip(Request::StartCapture {
        mode: Mode::Region,
        target: Some(Target::ActiveWindow),
        with_ui: true,
    });
    request_round_trip(Request::SetSelection {
        rect: Rect { x: -5, y: 10, w: 640, h: 480 },
    });
    request_round_trip(Request::ConfirmSelection);
    request_round_trip(Request::Cancel);
    request_round_trip(Request::Status);
}

#[test]
fn response_variants_round_trip() {
    wire_round_trip(Wire::Response(Response::Okay));
    wire_round_trip(Wire::Response(Response::Outputs {
        outputs: vec![
            OutputInfo {
                name: Some(String::from("DP-1")),
                x: 0,
                y: 0,
                width: 2560,
                height: 1440,
                scale: 1,
            },
            OutputInfo {
                name: None,
                x: 2560,
                y: -120,
                width: 1920,
                height: 1080,
                scale: 2,
            },
        ],
    }));
    wire_round_trip(Wire::Response(Response::Outputs { outputs: vec![] }));
    wire_round_trip(Wire::Response(Response::UiConfig {
        cfg: UiConfig { accent_colour: 0xFF0A_84FF, bar_background_colour: 0xFF0F_1115 },
    }));
    wire_round_trip(Wire::Response(Response::Status {
        running: true,
        active_job: Some(Mode::Region),
    }));
    wire_round_trip(Wire::Response(Response::Status { running: false, active_job: None }));
    wire_round_trip(Wire::Response(Response::Error {
        message: String::from("no active selection session"),
    }));
}

#[test]
fn event_variants_round_trip() {
    wire_round_trip(Wire::Event(Event::CaptureStarted { mode: Mode::Screen }));
    wire_round_trip(Wire::Event(Event::CaptureFinished {
        path: String::from("/home/u/Pictures/Screenshots/capit-17.png"),
    }));
    wire_round_trip(Wire::Event(Event::CaptureFailed { message: String::from("cancelled") }));
    wire_round_trip(Wire::Event(Event::SelectionPreview {
        rect: Rect { x: 1, y: 2, w: 3, h: 4 },
    }));
}

#[test]
fn strings_with_multibyte_characters_round_trip() {
    request_round_trip(Request::StartCapture {
        mode: Mode::Region,
        target: Some(Target::OutputName(String::from("écran → 2 🖥"))),
        with_ui: true,
    });
    wire_round_trip(Wire::Event(Event::CaptureFailed {
        message: String::from("Pfad „Bild 1“ fehlt"),
    }));
}

#[test]
fn unknown_tag_is_rejected() {
    assert_eq!(decode_request(&vec![8u8]), None);
    assert_eq!(decode_wire(&vec![2u8]), None);
    assert_eq!(decode_request(&vec![]), None);
}

#[test]
fn truncated_payload_is_rejected() {
    let req = Request::Hello(IpcHello { version: 3 });
    let mut bytes = encode_request(&req);
    bytes.pop();
    assert_eq!(decode_request(&bytes), None);
}

#[test]
fn trailing_bytes_are_rejected() {
    let mut bytes = encode_request(&Request::Cancel);
    bytes.push(0);
    assert_eq!(decode_request(&bytes), None);
}

#[test]
fn hello_encoding_is_the_tag_and_version_word() {
    // the wire form is pinned: tag 0, then the version little-endian
    let bytes = encode_request(&Request::Hello(IpcHello { version: 3 }));
    assert_eq!(bytes, vec![0u8, 3, 0, 0, 0]);
}

#[test]
fn non_boolean_flag_byte_is_rejected() {
    // StartCapture{Region, None, with_ui}: tag 3, mode 0, target-absent 0, flag
    let good = vec![3u8, 0, 0, 1];
    assert!(decode_request(&good).is_some());
    let bad = vec![3u8, 0, 0, 2];
    assert_eq!(decode_request(&bad), None);
}

#[test]
fn invalid_scalar_in_string_is_rejected() {
    // Error response: wire tag 0, response tag 4, one character, value 0xD800
    let mut bytes = vec![0u8, 4, 1, 0, 0, 0];
    bytes.extend_from_slice(&0xD800u32.to_le_bytes());
    assert_eq!(decode_wire(&bytes), None);
}
