//! Executable encoders and decoders for the wire vocabulary, proved against
//! the byte format in [`crate::codec`].

use vstd::prelude::*;

use crate::codec::{
    char_of,
    dec_bool,
    dec_chars,
    dec_i32,
    dec_mode,
    dec_opt_mode,
    dec_opt_string,
    dec_opt_target,
    dec_output,
    dec_outputs,
    dec_rect,
    dec_request,
    dec_response,
    dec_string,
    dec_target,
    dec_u32,
    dec_u8,
    dec_ui_config,
    dec_wire,
    enc_bool,
    enc_chars,
    enc_i32,
    enc_mode,
    enc_opt_mode,
    enc_opt_string,
    enc_opt_target,
    enc_output,
    enc_outputs,
    enc_rect,
    enc_request,
    enc_response,
    enc_string,
    enc_target,
    enc_u32,
    enc_u8,
    enc_ui_config,
    enc_event,
    dec_event,
    enc_wire,
    event_wf,
    lemma_add_assoc,
    lemma_char_of,
    lemma_dec_chars_split,
    lemma_dec_outputs_split,
    lemma_enc_chars_push,
    lemma_enc_outputs_push,
    request_wf,
    response_wf,
    spec_decode_request,
    spec_decode_wire,
    string_len_ok,
    valid_scalar,
    wire_wf,
};
use crate::protocol::{
    Event,
    IpcHello,
    Mode,
    OutputInfo,
    OutputInfoM,
    Rect,
    Request,
    Response,
    Target,
    UiConfig,
    Wire,
};
use vstd::string::StrSliceExecFns;

verus! {

/// Relies on `char::from_u32`: it returns `Some` exactly on valid Unicode
/// scalar values, giving the character with that value.
#[verifier::external_body]
fn char_from_u32(v: u32) -> (r: Option<char>)
    ensures
        (r matches Some(c) ==> c as u32 == v),
        (r is Some <==> valid_scalar(v)),
{
    char::from_u32(v)
}

/// Relies on `String::push`: it appends exactly the given character.
#[verifier::external_body]
pub(crate) fn push_char(s: &mut String, c: char)
    ensures
        final(s)@ == old(s)@.push(c),
{
    s.push(c);
}

fn write_u8(out: &mut Vec<u8>, v: u8)
    ensures
        final(out)@ == old(out)@ + enc_u8(v),
{
    out.push(v);
    assert(final(out)@ =~= old(out)@ + enc_u8(v));
}

fn write_u32(out: &mut Vec<u8>, v: u32)
    ensures
        final(out)@ == old(out)@ + enc_u32(v),
{
    let mut bs = vstd::bytes::u32_to_le_bytes(v);
    out.append(&mut bs);
}

fn write_i32(out: &mut Vec<u8>, v: i32)
    ensures
        final(out)@ == old(out)@ + enc_i32(v),
{
    write_u32(out, v as u32);
}

fn write_bool(out: &mut Vec<u8>, v: bool)
    ensures
        final(out)@ == old(out)@ + enc_bool(v),
{
    write_u8(
        out,
        if v {
            1
        } else {
            0
        },
    );
}

fn write_string(out: &mut Vec<u8>, s: &str)
    requires
        string_len_ok(s@),
    ensures
        final(out)@ == old(out)@ + enc_string(s@),
{
    let ghost out0 = out@;
    let n = s.unicode_len();
    write_u32(out, n as u32);
    let mut k: usize = 0;
    while k < n
        invariant
            k <= n,
            n == s@.len(),
            string_len_ok(s@),
            out@ == out0 + enc_u32(n as u32) + enc_chars(s@.subrange(0, k as int)),
        decreases n - k,
    {
        let c = s.get_char(k);
        write_u32(out, c as u32);
        proof {
            assert(s@.subrange(0, k as int + 1) =~= s@.subrange(0, k as int).push(
                s@[k as int],
            ));
            lemma_enc_chars_push(s@.subrange(0, k as int), s@[k as int]);
            lemma_add_assoc(
                out0 + enc_u32(n as u32),
                enc_chars(s@.subrange(0, k as int)),
                enc_u32(s@[k as int] as u32),
            );
        }
        k += 1;
    }
    proof {
        assert(s@.subrange(0, s@.len() as int) =~= s@);
        lemma_add_assoc(out0, enc_u32(n as u32), enc_chars(s@));
    }
}

fn write_mode(out: &mut Vec<u8>, m: &Mode)
    ensures
        final(out)@ == old(out)@ + enc_mode(*m),
{
    match m {
        Mode::Region => write_u8(out, 0),
        Mode::Screen => write_u8(out, 1),
        Mode::Window => write_u8(out, 2),
        Mode::Record => write_u8(out, 3),
    }
}

fn write_rect(out: &mut Vec<u8>, r: &Rect)
    ensures
        final(out)@ == old(out)@ + crate::codec::enc_rect(*r),
{
    let ghost out0 = out@;
    write_i32(out, r.x);
    write_i32(out, r.y);
    write_i32(out, r.w);
    write_i32(out, r.h);
    proof {
        assert(out@ =~= out0 + enc_rect(*r));
    }
}

fn write_ui_config(out: &mut Vec<u8>, c: &UiConfig)
    ensures
        final(out)@ == old(out)@ + enc_ui_config(*c),
{
    let ghost out0 = out@;
    write_u32(out, c.accent_colour);
    write_u32(out, c.bar_background_colour);
    proof {
        assert(out@ =~= out0 + enc_ui_config(*c));
    }
}

fn write_opt_string(out: &mut Vec<u8>, s: &Option<String>)
    requires
        (s matches Some(t) ==> string_len_ok(t@)),
    ensures
        final(out)@ == old(out)@ + enc_opt_string(
            match s {
                Some(t) => Some(t@),
                None => None,
            },
        ),
{
    let ghost out0 = out@;
    match s {
        None => write_u8(out, 0),
        Some(t) => {
            write_u8(out, 1);
            write_string(out, t.as_str());
            proof {
                lemma_add_assoc(out0, enc_u8(1), enc_string(t@));
            }
        },
    }
}

fn write_opt_mode(out: &mut Vec<u8>, m: &Option<Mode>)
    ensures
        final(out)@ == old(out)@ + enc_opt_mode(*m),
{
    let ghost out0 = out@;
    match m {
        None => write_u8(out, 0),
        Some(k) => {
            write_u8(out, 1);
            write_mode(out, k);
            proof {
                lemma_add_assoc(out0, enc_u8(1), enc_mode(*k));
            }
        },
    }
}

fn write_target(out: &mut Vec<u8>, t: &Target)
    requires
        crate::codec::target_wf(t@),
    ensures
        final(out)@ == old(out)@ + enc_target(t@),
{
    let ghost out0 = out@;
    match t {
        Target::AllScreens => write_u8(out, 0),
        Target::OutputName(s) => {
            write_u8(out, 1);
            write_string(out, s.as_str());
            proof {
                lemma_add_assoc(out0, enc_u8(1), enc_string(s@));
            }
        },
        Target::OutputIndex(k) => {
            write_u8(out, 2);
            write_u32(out, *k);
            proof {
                lemma_add_assoc(out0, enc_u8(2), enc_u32(*k));
            }
        },
        Target::ActiveWindow => write_u8(out, 3),
    }
}

fn write_opt_target(out: &mut Vec<u8>, t: &Option<Target>)
    requires
        (t matches Some(k) ==> crate::codec::target_wf(k@)),
    ensures
        final(out)@ == old(out)@ + enc_opt_target(
            match t {
                Some(k) => Some(k@),
                None => None,
            },
        ),
{
    let ghost out0 = out@;
    match t {
        None => write_u8(out, 0),
        Some(k) => {
            write_u8(out, 1);
            write_target(out, k);
            proof {
                lemma_add_assoc(out0, enc_u8(1), enc_target(k@));
            }
        },
    }
}

fn write_output(out: &mut Vec<u8>, o: &OutputInfo)
    requires
        crate::codec::output_wf(o@),
    ensures
        final(out)@ == old(out)@ + enc_output(o@),
{
    let ghost out0 = out@;
    write_opt_string(out, &o.name);
    write_i32(out, o.x);
    write_i32(out, o.y);
    write_i32(out, o.width);
    write_i32(out, o.height);
    write_i32(out, o.scale);
    proof {
        assert(out@ =~= out0 + enc_output(o@));
    }
}

fn write_outputs(out: &mut Vec<u8>, outputs: &Vec<OutputInfo>)
    requires
        crate::codec::outputs_wf(outputs@.map_values(|o: OutputInfo| o@)),
    ensures
        final(out)@ == old(out)@ + enc_u32(outputs@.len() as u32) + enc_outputs(
            outputs@.map_values(|o: OutputInfo| o@),
        ),
{
    let ghost out0 = out@;
    let ghost model = outputs@.map_values(|o: OutputInfo| o@);
    let n = outputs.len();
    write_u32(out, n as u32);
    let mut k: usize = 0;
    while k < n
        invariant
            k <= n,
            n == outputs@.len(),
            model == outputs@.map_values(|o: OutputInfo| o@),
            crate::codec::outputs_wf(model),
            out@ == out0 + enc_u32(n as u32) + enc_outputs(model.subrange(0, k as int)),
        decreases n - k,
    {
        proof {
            assert(model[k as int] == outputs@[k as int]@);
            assert(crate::codec::output_wf(model[k as int]));
        }
        write_output(out, &outputs[k]);
        proof {
            assert(model.subrange(0, k as int + 1) =~= model.subrange(0, k as int).push(
                model[k as int],
            ));
            lemma_enc_outputs_push(model.subrange(0, k as int), model[k as int]);
            lemma_add_assoc(
                out0 + enc_u32(n as u32),
                enc_outputs(model.subrange(0, k as int)),
                enc_output(model[k as int]),
            );
        }
        k += 1;
    }
    proof {
        assert(model.subrange(0, model.len() as int) =~= model);
    }
}

fn write_request(out: &mut Vec<u8>, req: &Request)
    requires
        request_wf(req@),
    ensures
        final(out)@ == old(out)@ + enc_request(req@),
{
    let ghost out0 = out@;
    match req {
        Request::Hello(h) => {
            write_u8(out, 0);
            write_u32(out, h.version);
            proof {
                lemma_add_assoc(out0, enc_u8(0), enc_u32(h.version));
            }
        },
        Request::ListOutputs => write_u8(out, 1),
        Request::GetUiConfig => write_u8(out, 2),
        Request::StartCapture { mode, target, with_ui } => {
            write_u8(out, 3);
            write_mode(out, mode);
            write_opt_target(out, target);
            write_bool(out, *with_ui);
            proof {
                assert(out@ =~= out0 + enc_request(req@));
            }
        },
        Request::SetSelection { rect } => {
            write_u8(out, 4);
            write_rect(out, rect);
            proof {
                lemma_add_assoc(out0, enc_u8(4), enc_rect(*rect));
            }
        },
        Request::ConfirmSelection => write_u8(out, 5),
        Request::Cancel => write_u8(out, 6),
        Request::Status => write_u8(out, 7),
    }
}

fn write_response(out: &mut Vec<u8>, resp: &Response)
    requires
        response_wf(resp@),
    ensures
        final(out)@ == old(out)@ + enc_response(resp@),
{
    let ghost out0 = out@;
    match resp {
        Response::Okay => write_u8(out, 0),
        Response::Outputs { outputs } => {
            write_u8(out, 1);
            write_outputs(out, outputs);
            proof {
                assert(out@ =~= out0 + enc_response(resp@));
            }
        },
        Response::UiConfig { cfg } => {
            write_u8(out, 2);
            write_ui_config(out, cfg);
            proof {
                lemma_add_assoc(out0, enc_u8(2), enc_ui_config(*cfg));
            }
        },
        Response::Status { running, active_job } => {
            write_u8(out, 3);
            write_bool(out, *running);
            write_opt_mode(out, active_job);
            proof {
                assert(out@ =~= out0 + enc_response(resp@));
            }
        },
        Response::Error { message } => {
            write_u8(out, 4);
            write_string(out, message.as_str());
            proof {
                lemma_add_assoc(out0, enc_u8(4), enc_string(message@));
            }
        },
    }
}

fn write_event(out: &mut Vec<u8>, ev: &Event)
    requires
        event_wf(ev@),
    ensures
        final(out)@ == old(out)@ + enc_event(ev@),
{
    let ghost out0 = out@;
    match ev {
        Event::CaptureStarted { mode } => {
            write_u8(out, 0);
            write_mode(out, mode);
            proof {
                lemma_add_assoc(out0, enc_u8(0), enc_mode(*mode));
            }
        },
        Event::CaptureFinished { path } => {
            write_u8(out, 1);
            write_string(out, path.as_str());
            proof {
                lemma_add_assoc(out0, enc_u8(1), enc_string(path@));
            }
        },
        Event::CaptureFailed { message } => {
            write_u8(out, 2);
            write_string(out, message.as_str());
            proof {
                lemma_add_assoc(out0, enc_u8(2), enc_string(message@));
            }
        },
        Event::SelectionPreview { rect } => {
            write_u8(out, 3);
            write_rect(out, rect);
            proof {
                lemma_add_assoc(out0, enc_u8(3), enc_rect(*rect));
            }
        },
    }
}

/// Encode one request for framing.
pub fn encode_request(req: &Request) -> (r: Vec<u8>)
    requires
        request_wf(req@),
    ensures
        r@ == enc_request(req@),
{
    let mut out: Vec<u8> = Vec::new();
    write_request(&mut out, req);
    proof {
        assert(Seq::<u8>::empty() + enc_request(req@) =~= enc_request(req@));
    }
    out
}

/// Encode one server-to-client envelope for framing.
pub fn encode_wire(w: &Wire) -> (r: Vec<u8>)
    requires
        wire_wf(w@),
    ensures
        r@ == enc_wire(w@),
{
    let mut out: Vec<u8> = Vec::new();
    let ghost out0 = out@;
    match w {
        Wire::Response(resp) => {
            write_u8(&mut out, 0);
            write_response(&mut out, resp);
            proof {
                lemma_add_assoc(out0, enc_u8(0), enc_response(resp@));
            }
        },
        Wire::Event(ev) => {
            write_u8(&mut out, 1);
            write_event(&mut out, ev);
            proof {
                lemma_add_assoc(out0, enc_u8(1), enc_event(ev@));
            }
        },
    }
    proof {
        assert(Seq::<u8>::empty() + enc_wire(w@) =~= enc_wire(w@));
    }
    out
}

fn read_u8(b: &Vec<u8>, pos: &mut usize) -> (r: Option<u8>)
    ensures
        (match r {
            Some(v) => dec_u8(b@, *old(pos) as int) == Some((v, *final(pos) as int)),
            None => dec_u8(b@, *old(pos) as int) is None,
        }),
{
    if *pos < b.len() {
        let v = b[*pos];
        *pos = *pos + 1;
        Some(v)
    } else {
        None
    }
}

pub(crate) fn read_u32_at(b: &Vec<u8>, pos: &mut usize) -> (r: Option<u32>)
    ensures
        (match r {
            Some(v) => dec_u32(b@, *old(pos) as int) == Some((v, *final(pos) as int)),
            None => dec_u32(b@, *old(pos) as int) is None,
        }),
{
    if b.len() >= 4 && *pos <= b.len() - 4 {
        let s = vstd::slice::slice_subrange(b.as_slice(), *pos, *pos + 4);
        let v = vstd::bytes::u32_from_le_bytes(s);
        *pos = *pos + 4;
        Some(v)
    } else {
        None
    }
}

fn read_i32(b: &Vec<u8>, pos: &mut usize) -> (r: Option<i32>)
    ensures
        (match r {
            Some(v) => dec_i32(b@, *old(pos) as int) == Some((v, *final(pos) as int)),
            None => dec_i32(b@, *old(pos) as int) is None,
        }),
{
    match read_u32_at(b, pos) {
        Some(v) => Some(v as i32),
        None => None,
    }
}

fn read_bool(b: &Vec<u8>, pos: &mut usize) -> (r: Option<bool>)
    ensures
        (match r {
            Some(v) => dec_bool(b@, *old(pos) as int) == Some((v, *final(pos) as int)),
            None => dec_bool(b@, *old(pos) as int) is None,
        }),
{
    match read_u8(b, pos) {
        Some(0) => Some(false),
        Some(1) => Some(true),
        _ => None,
    }
}

fn read_string(b: &Vec<u8>, pos: &mut usize) -> (r: Option<String>)
    ensures
        (match r {
            Some(s) => dec_string(b@, *old(pos) as int) == Some((s@, *final(pos) as int)),
            None => dec_string(b@, *old(pos) as int) is None,
        }),
{
    let ghost i0 = *pos as int;
    let n = match read_u32_at(b, pos) {
        Some(n) => n,
        None => {
            return None;
        },
    };
    let ghost j0 = *pos as int;
    let n_us = n as usize;
    let mut s = String::new();
    let mut k: usize = 0;
    while k < n_us
        invariant
            k <= n_us,
            n_us == n as usize,
            i0 == *old(pos) as int,
            dec_u32(b@, i0) == Some((n, j0)),
            dec_chars(b@, j0, k as int) == Some((s@, *pos as int)),
        decreases n_us - k,
    {
        let ghost jprev = *pos as int;
        let v = match read_u32_at(b, pos) {
            Some(v) => v,
            None => {
                proof {
                    lemma_dec_chars_split(b@, j0, k as int, n as int);
                    assert(dec_chars(b@, j0, k as int) == Some((s@, jprev)));
                    assert(dec_u32(b@, jprev) is None);
                    assert(n as int - k as int > 0);
                    assert(dec_chars(b@, jprev, n as int - k as int) is None);
                    assert(dec_chars(b@, j0, n as int) is None);
                    assert(dec_string(b@, i0) is None);
                }
                return None;
            },
        };
        let c = match char_from_u32(v) {
            Some(c) => c,
            None => {
                proof {
                    lemma_dec_chars_split(b@, j0, k as int, n as int);
                    assert(dec_chars(b@, j0, k as int) == Some((s@, jprev)));
                    assert(dec_u32(b@, jprev) == Some((v, *pos as int)));
                    assert(!valid_scalar(v));
                    assert(n as int - k as int > 0);
                    assert(dec_chars(b@, jprev, n as int - k as int) is None);
                    assert(dec_chars(b@, j0, n as int) is None);
                    assert(dec_string(b@, i0) is None);
                }
                return None;
            },
        };
        let ghost sprev = s@;
        push_char(&mut s, c);
        proof {
            lemma_dec_chars_split(b@, j0, k as int, k as int + 1);
            lemma_char_of(c);
            assert(valid_scalar(v));
            assert(dec_chars(b@, j0, k as int) == Some((sprev, jprev)));
            assert(dec_u32(b@, jprev) == Some((v, *pos as int)));
            assert(dec_chars(b@, *pos as int, 0) == Some((Seq::<char>::empty(), *pos as int)));
            assert(dec_chars(b@, jprev, 1) == Some((seq![char_of(v)], *pos as int)));
            assert(char_of(v) == c);
            assert(seq![char_of(v)] + Seq::<char>::empty() =~= seq![c]);
            assert(s@ =~= sprev + seq![c]);
            assert(dec_chars(b@, j0, k as int + 1) == Some((sprev + seq![c], *pos as int)));
        }
        k += 1;
    }
    Some(s)
}

fn read_mode(b: &Vec<u8>, pos: &mut usize) -> (r: Option<Mode>)
    ensures
        (match r {
            Some(m) => dec_mode(b@, *old(pos) as int) == Some((m, *final(pos) as int)),
            None => dec_mode(b@, *old(pos) as int) is None,
        }),
{
    match read_u8(b, pos) {
        Some(0) => Some(Mode::Region),
        Some(1) => Some(Mode::Screen),
        Some(2) => Some(Mode::Window),
        Some(3) => Some(Mode::Record),
        _ => None,
    }
}

fn read_rect(b: &Vec<u8>, pos: &mut usize) -> (r: Option<Rect>)
    ensures
        (match r {
            Some(v) => dec_rect(b@, *old(pos) as int) == Some((v, *final(pos) as int)),
            None => dec_rect(b@, *old(pos) as int) is None,
        }),
{
    let x = match read_i32(b, pos) {
        Some(v) => v,
        None => {
            return None;
        },
    };
    let y = match read_i32(b, pos) {
        Some(v) => v,
        None => {
            return None;
        },
    };
    let w = match read_i32(b, pos) {
        Some(v) => v,
        None => {
            return None;
        },
    };
    let h = match read_i32(b, pos) {
        Some(v) => v,
        None => {
            return None;
        },
    };
    Some(Rect { x, y, w, h })
}

fn read_ui_config(b: &Vec<u8>, pos: &mut usize) -> (r: Option<UiConfig>)
    ensures
        (match r {
            Some(v) => dec_ui_config(b@, *old(pos) as int) == Some((v, *final(pos) as int)),
            None => dec_ui_config(b@, *old(pos) as int) is None,
        }),
{
    let a = match read_u32_at(b, pos) {
        Some(v) => v,
        None => {
            return None;
        },
    };
    let g = match read_u32_at(b, pos) {
        Some(v) => v,
        None => {
            return None;
        },
    };
    Some(UiConfig { accent_colour: a, bar_background_colour: g })
}

fn read_opt_string(b: &Vec<u8>, pos: &mut usize) -> (r: Option<Option<String>>)
    ensures
        (match r {
            Some(v) => dec_opt_string(b@, *old(pos) as int) == Some(
                (
                    match v {
                        Some(s) => Some(s@),
                        None => None,
                    },
                    *final(pos) as int,
                ),
            ),
            None => dec_opt_string(b@, *old(pos) as int) is None,
        }),
{
    match read_u8(b, pos) {
        Some(0) => Some(None),
        Some(1) => match read_string(b, pos) {
            Some(s) => Some(Some(s)),
            None => None,
        },
        _ => None,
    }
}

fn read_opt_mode(b: &Vec<u8>, pos: &mut usize) -> (r: Option<Option<Mode>>)
    ensures
        (match r {
            Some(v) => dec_opt_mode(b@, *old(pos) as int) == Some((v, *final(pos) as int)),
            None => dec_opt_mode(b@, *old(pos) as int) is None,
        }),
{
    match read_u8(b, pos) {
        Some(0) => Some(None),
        Some(1) => match read_mode(b, pos) {
            Some(m) => Some(Some(m)),
            None => None,
        },
        _ => None,
    }
}

fn read_target(b: &Vec<u8>, pos: &mut usize) -> (r: Option<Target>)
    ensures
        (match r {
            Some(t) => dec_target(b@, *old(pos) as int) == Some((t@, *final(pos) as int)),
            None => dec_target(b@, *old(pos) as int) is None,
        }),
{
    match read_u8(b, pos) {
        Some(0) => Some(Target::AllScreens),
        Some(1) => match read_string(b, pos) {
            Some(s) => Some(Target::OutputName(s)),
            None => None,
        },
        Some(2) => match read_u32_at(b, pos) {
            Some(v) => Some(Target::OutputIndex(v)),
            None => None,
        },
        Some(3) => Some(Target::ActiveWindow),
        _ => None,
    }
}

fn read_opt_target(b: &Vec<u8>, pos: &mut usize) -> (r: Option<Option<Target>>)
    ensures
        (match r {
            Some(v) => dec_opt_target(b@, *old(pos) as int) == Some(
                (
                    match v {
                        Some(t) => Some(t@),
                        None => None,
                    },
                    *final(pos) as int,
                ),
            ),
            None => dec_opt_target(b@, *old(pos) as int) is None,
        }),
{
    match read_u8(b, pos) {
        Some(0) => Some(None),
        Some(1) => match read_target(b, pos) {
            Some(t) => Some(Some(t)),
            None => None,
        },
        _ => None,
    }
}

fn read_output(b: &Vec<u8>, pos: &mut usize) -> (r: Option<OutputInfo>)
    ensures
        (match r {
            Some(o) => dec_output(b@, *old(pos) as int) == Some((o@, *final(pos) as int)),
            None => dec_output(b@, *old(pos) as int) is None,
        }),
{
    let name = match read_opt_string(b, pos) {
        Some(v) => v,
        None => {
            return None;
        },
    };
    let x = match read_i32(b, pos) {
        Some(v) => v,
        None => {
            return None;
        },
    };
    let y = match read_i32(b, pos) {
        Some(v) => v,
        None => {
            return None;
        },
    };
    let width = match read_i32(b, pos) {
        Some(v) => v,
        None => {
            return None;
        },
    };
    let height = match read_i32(b, pos) {
        Some(v) => v,
        None => {
            return None;
        },
    };
    let scale = match read_i32(b, pos) {
        Some(v) => v,
        None => {
            return None;
        },
    };
    Some(OutputInfo { name, x, y, width, height, scale })
}

fn read_outputs(b: &Vec<u8>, pos: &mut usize) -> (r: Option<Vec<OutputInfo>>)
    ensures
        (match r {
            Some(outs) => (match dec_u32(b@, *old(pos) as int) {
                Some((n, j)) => dec_outputs(b@, j, n as int) == Some(
                    (outs@.map_values(|o: OutputInfo| o@), *final(pos) as int),
                ),
                None => false,
            }),
            None => (match dec_u32(b@, *old(pos) as int) {
                Some((n, j)) => dec_outputs(b@, j, n as int) is None,
                None => true,
            }),
        }),
{
    let n = match read_u32_at(b, pos) {
        Some(n) => n,
        None => {
            return None;
        },
    };
    let ghost j0 = *pos as int;
    let n_us = n as usize;
    let mut outs: Vec<OutputInfo> = Vec::new();
    let mut k: usize = 0;
    proof {
        assert(outs@.map_values(|o: OutputInfo| o@) =~= Seq::<OutputInfoM>::empty());
    }
    while k < n_us
        invariant
            k <= n_us,
            n_us == n as usize,
            dec_u32(b@, *old(pos) as int) == Some((n, j0)),
            outs@.len() == k,
            dec_outputs(b@, j0, k as int) == Some(
                (outs@.map_values(|o: OutputInfo| o@), *pos as int),
            ),
        decreases n_us - k,
    {
        let ghost mprev = outs@.map_values(|o: OutputInfo| o@);
        let ghost jprev = *pos as int;
        let o = match read_output(b, pos) {
            Some(o) => o,
            None => {
                proof {
                    lemma_dec_outputs_split(b@, j0, k as int, n as int);
                }
                return None;
            },
        };
        outs.push(o);
        proof {
            lemma_dec_outputs_split(b@, j0, k as int, k as int + 1);
            assert(dec_outputs(b@, j0, k as int) == Some((mprev, jprev)));
            assert(dec_output(b@, jprev) == Some((o@, *pos as int)));
            assert(dec_outputs(b@, *pos as int, 0) == Some(
                (Seq::<OutputInfoM>::empty(), *pos as int),
            ));
            assert(dec_outputs(b@, jprev, 1) == Some((seq![o@], *pos as int)));
            assert(seq![o@] + Seq::<OutputInfoM>::empty() =~= seq![o@]);
            assert(outs@.map_values(|oo: OutputInfo| oo@) =~= mprev + seq![o@]);
            assert(dec_outputs(b@, j0, k as int + 1) == Some((mprev + seq![o@], *pos as int)));
        }
        k += 1;
    }
    Some(outs)
}

fn read_request(b: &Vec<u8>, pos: &mut usize) -> (r: Option<Request>)
    ensures
        (match r {
            Some(req) => dec_request(b@, *old(pos) as int) == Some((req@, *final(pos) as int)),
            None => dec_request(b@, *old(pos) as int) is None,
        }),
{
    match read_u8(b, pos) {
        Some(0) => match read_u32_at(b, pos) {
            Some(v) => Some(Request::Hello(IpcHello { version: v })),
            None => None,
        },
        Some(1) => Some(Request::ListOutputs),
        Some(2) => Some(Request::GetUiConfig),
        Some(3) => {
            let mode = match read_mode(b, pos) {
                Some(m) => m,
                None => {
                    return None;
                },
            };
            let target = match read_opt_target(b, pos) {
                Some(t) => t,
                None => {
                    return None;
                },
            };
            let with_ui = match read_bool(b, pos) {
                Some(v) => v,
                None => {
                    return None;
                },
            };
            Some(Request::StartCapture { mode, target, with_ui })
        },
        Some(4) => match read_rect(b, pos) {
            Some(rect) => Some(Request::SetSelection { rect }),
            None => None,
        },
        Some(5) => Some(Request::ConfirmSelection),
        Some(6) => Some(Request::Cancel),
        Some(7) => Some(Request::Status),
        _ => None,
    }
}

fn read_response(b: &Vec<u8>, pos: &mut usize) -> (r: Option<Response>)
    ensures
        (match r {
            Some(resp) => dec_response(b@, *old(pos) as int) == Some((resp@, *final(pos) as int)),
            None => dec_response(b@, *old(pos) as int) is None,
        }),
{
    match read_u8(b, pos) {
        Some(0) => Some(Response::Okay),
        Some(1) => match read_outputs(b, pos) {
            Some(outputs) => Some(Response::Outputs { outputs }),
            None => None,
        },
        Some(2) => match read_ui_config(b, pos) {
            Some(cfg) => Some(Response::UiConfig { cfg }),
            None => None,
        },
        Some(3) => {
            let running = match read_bool(b, pos) {
                Some(v) => v,
                None => {
                    return None;
                },
            };
            let active_job = match read_opt_mode(b, pos) {
                Some(v) => v,
                None => {
                    return None;
                },
            };
            Some(Response::Status { running, active_job })
        },
        Some(4) => match read_string(b, pos) {
            Some(message) => Some(Response::Error { message }),
            None => None,
        },
        _ => None,
    }
}

fn read_event(b: &Vec<u8>, pos: &mut usize) -> (r: Option<Event>)
    ensures
        (match r {
            Some(ev) => dec_event(b@, *old(pos) as int) == Some((ev@, *final(pos) as int)),
            None => dec_event(b@, *old(pos) as int) is None,
        }),
{
    match read_u8(b, pos) {
        Some(0) => match read_mode(b, pos) {
            Some(mode) => Some(Event::CaptureStarted { mode }),
            None => None,
        },
        Some(1) => match read_string(b, pos) {
            Some(path) => Some(Event::CaptureFinished { path }),
            None => None,
        },
        Some(2) => match read_string(b, pos) {
            Some(message) => Some(Event::CaptureFailed { message }),
            None => None,
        },
        Some(3) => match read_rect(b, pos) {
            Some(rect) => Some(Event::SelectionPreview { rect }),
            None => None,
        },
        _ => None,
    }
}

fn read_wire(b: &Vec<u8>, pos: &mut usize) -> (r: Option<Wire>)
    ensures
        (match r {
            Some(w) => dec_wire(b@, *old(pos) as int) == Some((w@, *final(pos) as int)),
            None => dec_wire(b@, *old(pos) as int) is None,
        }),
{
    match read_u8(b, pos) {
        Some(0) => match read_response(b, pos) {
            Some(resp) => Some(Wire::Response(resp)),
            None => None,
        },
        Some(1) => match read_event(b, pos) {
            Some(ev) => Some(Wire::Event(ev)),
            None => None,
        },
        _ => None,
    }
}

/// Decode one framed payload as a request; the whole payload must be used.
pub fn decode_request(bytes: &Vec<u8>) -> (r: Option<Request>)
    ensures
        (match r {
            Some(req) => spec_decode_request(bytes@) == Some(req@),
            None => spec_decode_request(bytes@) is None,
        }),
{
    let mut pos: usize = 0;
    match read_request(bytes, &mut pos) {
        Some(req) => if pos == bytes.len() {
            Some(req)
        } else {
            None
        },
        None => None,
    }
}

/// Decode one framed payload as a server-to-client envelope; the whole
/// payload must be used.
pub fn decode_wire(bytes: &Vec<u8>) -> (r: Option<Wire>)
    ensures
        (match r {
            Some(w) => spec_decode_wire(bytes@) == Some(w@),
            None => spec_decode_wire(bytes@) is None,
        }),
{
    let mut pos: usize = 0;
    match read_wire(bytes, &mut pos) {
        Some(w) => if pos == bytes.len() {
            Some(w)
        } else {
            None
        },
        None => None,
    }
}

} // verus!
