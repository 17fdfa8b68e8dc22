use capit::errors::IpcError;
use capit::framing::{frame_len, read_frame, write_frame};
use capit::protocol::{IpcHello, Request, DEFAULT_MAX_FRAME};
use capit::wire::{decode_request, encode_request};

#[test]
fn write_then_read_reproduces_the_payload() {
    let payload = vec![9u8, 8, 7, 6, 5];
    let mut stream: Vec<u8> = Vec::new();
    write_frame(&mut stream, &payload).unwrap();
    assert_eq!(stream.len(), 4 + payload.len());

    let mut pos: usize = 0;
    let got = read_frame(&stream, &mut pos, DEFAULT_MAX_FRAME).unwrap();
    assert_eq!(got, payload);
    assert_eq!(pos, stream.len());
}

#[test]
fn empty_payload_round_trips() {
    let mut stream: Vec<u8> = Vec::new();
    write_frame(&mut stream, &vec![]).unwrap();
    assert_eq!(stream, vec![0u8, 0, 0, 0]);
    let mut pos: usize = 0;
    assert_eq!(read_frame(&stream, &mut pos, 16).unwrap(), Vec::<u8>::new());
    assert_eq!(pos, 4);
}

#[test]
fn several_frames_in_sequence() {
    let a = vec![1u8, 2, 3];
    let b = vec![4u8];
    let mut stream: Vec<u8> = Vec::new();
    write_frame(&mut stream, &a).unwrap();
    write_frame(&mut stream, &b).unwrap();
    let mut pos: usize = 0;
    assert_eq!(read_frame(&stream, &mut pos, 16).unwrap(), a);
    assert_eq!(read_frame(&stream, &mut pos, 16).unwrap(), b);
    assert_eq!(pos, stream.len());
}

#[test]
fn oversized_frame_fails_without_consuming_the_body() {
    let payload = vec![0u8; 64];
    let mut stream: Vec<u8> = Vec::new();
    write_frame(&mut stream, &payload).unwrap();

    let mut pos: usize = 0;
    let err = read_frame(&stream, &mut pos, 63).unwrap_err();
    assert_eq!(err, IpcError::FrameTooLarge);
    // exactly the header was consumed, never the declared body
    assert_eq!(pos, 4);
}

#[test]
fn truncated_header_and_body_are_io_errors() {
    let mut pos: usize = 0;
    let short = vec![1u8, 0];
    assert!(matches!(read_frame(&short, &mut pos, 16), Err(IpcError::Io(_))));

    // header declares 5 bytes but only 2 follow
    let mut pos2: usize = 0;
    let truncated = vec![5u8, 0, 0, 0, 1, 2];
    assert!(matches!(read_frame(&truncated, &mut pos2, 16), Err(IpcError::Io(_))));
}

#[test]
fn frame_len_judges_the_header() {
    let header = vec![16u8, 0, 0, 0];
    assert_eq!(frame_len(&header, DEFAULT_MAX_FRAME).unwrap(), 16);
    assert_eq!(frame_len(&header, 15).unwrap_err(), IpcError::FrameTooLarge);
}

#[test]
fn framed_request_round_trips() {
    let req = Request::Hello(IpcHello { version: 3 });
    let payload = encode_request(&req);
    let mut stream: Vec<u8> = Vec::new();
    write_frame(&mut stream, &payload).unwrap();

    let mut pos: usize = 0;
    let body = read_frame(&stream, &mut pos, DEFAULT_MAX_FRAME).unwrap();
    assert_eq!(decode_request(&body), Some(req));
}
