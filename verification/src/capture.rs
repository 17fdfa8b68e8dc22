//! Pure capture logic: crop arithmetic, the `file://` URI the portal hands
//! back, and the client-side judgement of capture progress events.
//!
//! Talking to the desktop portal, reading images and writing files is the
//! surrounding application's work; everything it decides with is here.

use vstd::prelude::*;
use vstd::string::StringExecFns;

use crate::protocol::{Event, EventM, Rect};

verus! {

/// A crop rectangle in pixels.
#[derive(Debug, Clone, Copy, PartialEq, Eq, Structural)]
pub struct CaptureCrop {
    pub x: i32,
    pub y: i32,
    pub w: i32,
    pub h: i32,
}

impl CaptureCrop {
    /// The crop a selection rectangle denotes.
    pub fn from_rect(r: &Rect) -> (c: Self)
        ensures
            c == (CaptureCrop { x: r.x, y: r.y, w: r.w, h: r.h }),
    {
        CaptureCrop { x: r.x, y: r.y, w: r.w, h: r.h }
    }
}

pub open spec fn clip0(v: int) -> int {
    if v < 0 {
        0
    } else {
        v
    }
}

pub open spec fn imin(a: int, b: int) -> int {
    if a <= b {
        a
    } else {
        b
    }
}

/// The crop window clamped into an image of `iw` by `ih` pixels, or `None`
/// when nothing of it remains.
pub open spec fn spec_clamp_crop(c: CaptureCrop, iw: int, ih: int) -> Option<
    (int, int, int, int),
> {
    let x0 = clip0(c.x as int);
    let y0 = clip0(c.y as int);
    let x1 = imin(clip0(c.x as int) + clip0(c.w as int), iw);
    let y1 = imin(clip0(c.y as int) + clip0(c.h as int), ih);
    let cw = if x1 >= x0 {
        x1 - x0
    } else {
        0
    };
    let ch = if y1 >= y0 {
        y1 - y0
    } else {
        0
    };
    if cw == 0 || ch == 0 {
        None
    } else {
        Some((x0, y0, cw, ch))
    }
}

/// Clamp a crop to the image bounds, exactly as [`spec_clamp_crop`] says;
/// `None` means the crop misses the image entirely and the capture fails.
pub fn clamp_crop(c: &CaptureCrop, iw: u32, ih: u32) -> (r: Option<(u32, u32, u32, u32)>)
    ensures
        (match r {
            Some((x0, y0, cw, ch)) => spec_clamp_crop(*c, iw as int, ih as int) == Some(
                (x0 as int, y0 as int, cw as int, ch as int),
            ),
            None => spec_clamp_crop(*c, iw as int, ih as int) is None,
        }),
{
    let x0: u64 = if c.x < 0 {
        0
    } else {
        c.x as u64
    };
    let y0: u64 = if c.y < 0 {
        0
    } else {
        c.y as u64
    };
    let w: u64 = if c.w < 0 {
        0
    } else {
        c.w as u64
    };
    let h: u64 = if c.h < 0 {
        0
    } else {
        c.h as u64
    };
    let x1: u64 = if x0 + w <= iw as u64 {
        x0 + w
    } else {
        iw as u64
    };
    let y1: u64 = if y0 + h <= ih as u64 {
        y0 + h
    } else {
        ih as u64
    };
    let cw: u64 = if x1 >= x0 {
        x1 - x0
    } else {
        0
    };
    let ch: u64 = if y1 >= y0 {
        y1 - y0
    } else {
        0
    };
    if cw == 0 || ch == 0 {
        None
    } else {
        Some((x0 as u32, y0 as u32, cw as u32, ch as u32))
    }
}

/// The value of one hexadecimal digit byte, as in a percent escape.
pub open spec fn spec_from_hex(b: u8) -> Option<u8> {
    if 0x30 <= b <= 0x39 {
        Some((b - 0x30) as u8)
    } else if 0x61 <= b <= 0x66 {
        Some((b - 0x61 + 10) as u8)
    } else if 0x41 <= b <= 0x46 {
        Some((b - 0x41 + 10) as u8)
    } else {
        None
    }
}

/// Decode one hexadecimal digit.
pub fn from_hex(b: u8) -> (r: Option<u8>)
    ensures
        r == spec_from_hex(b),
{
    if 0x30 <= b && b <= 0x39 {
        Some(b - 0x30)
    } else if 0x61 <= b && b <= 0x66 {
        Some(b - 0x61 + 10)
    } else if 0x41 <= b && b <= 0x46 {
        Some(b - 0x41 + 10)
    } else {
        None
    }
}

/// Percent-decoding of a byte string: `%XY` becomes one byte; `+` is kept
/// as itself, since file URIs spell spaces `%20`.  `None` on a malformed
/// or truncated escape.
pub open spec fn spec_percent_decode(s: Seq<u8>) -> Option<Seq<u8>>
    decreases s.len(),
{
    if s.len() == 0 {
        Some(Seq::empty())
    } else if s[0] == 0x25 {
        if s.len() < 3 {
            None
        } else {
            match (spec_from_hex(s[1]), spec_from_hex(s[2])) {
                (Some(hi), Some(lo)) => match spec_percent_decode(s.skip(3)) {
                    Some(rest) => Some(seq![(hi * 16 + lo) as u8] + rest),
                    None => None,
                },
                _ => None,
            }
        }
    } else {
        match spec_percent_decode(s.skip(1)) {
            Some(rest) => Some(seq![s[0]] + rest),
            None => None,
        }
    }
}

/// Parsing from `i` splits into one step and the rest; used to carry the
/// decode loop's progress into [`spec_percent_decode`].
proof fn lemma_percent_decode_step(s: Seq<u8>, i: int)
    requires
        0 <= i < s.len(),
    ensures
        (s[i] != 0x25 ==> spec_percent_decode(s.skip(i)) == (match spec_percent_decode(
            s.skip(i + 1),
        ) {
            Some(rest) => Some(seq![s[i]] + rest),
            None => None::<Seq<u8>>,
        })),
        (s[i] == 0x25 && i + 3 <= s.len() ==> spec_percent_decode(s.skip(i)) == (match (
            spec_from_hex(s[i + 1]),
            spec_from_hex(s[i + 2]),
        ) {
            (Some(hi), Some(lo)) => (match spec_percent_decode(s.skip(i + 3)) {
                Some(rest) => Some(seq![(hi * 16 + lo) as u8] + rest),
                None => None::<Seq<u8>>,
            }),
            _ => None::<Seq<u8>>,
        })),
        (s[i] == 0x25 && i + 3 > s.len() ==> spec_percent_decode(s.skip(i)) is None),
{
    let t = s.skip(i);
    assert(t.len() == s.len() - i);
    assert(t[0] == s[i]);
    if t.len() >= 3 {
        assert(t[1] == s[i + 1] && t[2] == s[i + 2]);
        assert(t.skip(3) =~= s.skip(i + 3));
    }
    assert(t.skip(1) =~= s.skip(i + 1));
}

/// Decode the percent escapes of `s`, failing exactly on a malformed or
/// truncated escape.
pub fn percent_decode(s: &Vec<u8>) -> (r: Option<Vec<u8>>)
    ensures
        (match r {
            Some(out) => spec_percent_decode(s@) == Some(out@),
            None => spec_percent_decode(s@) is None,
        }),
{
    let mut out: Vec<u8> = Vec::new();
    let mut i: usize = 0;
    let n = s.len();
    proof {
        assert(s@.skip(0) =~= s@);
        match spec_percent_decode(s@) {
            Some(rest) => {
                assert(out@ + rest =~= rest);
            },
            None => {},
        }
    }
    while i < n
        invariant
            0 <= i <= n,
            n == s@.len(),
            (match spec_percent_decode(s@.skip(i as int)) {
                Some(rest) => spec_percent_decode(s@) == Some(out@ + rest),
                None => spec_percent_decode(s@) is None,
            }),
        decreases n - i,
    {
        let ghost iprev = i as int;
        let ghost outprev = out@;
        let b = s[i];
        if b == 0x25 {
            if n - i < 3 {
                proof {
                    lemma_percent_decode_step(s@, iprev);
                }
                return None;
            }
            let hi = match from_hex(s[i + 1]) {
                Some(v) => v,
                None => {
                    proof {
                        lemma_percent_decode_step(s@, iprev);
                    }
                    return None;
                },
            };
            let lo = match from_hex(s[i + 2]) {
                Some(v) => v,
                None => {
                    proof {
                        lemma_percent_decode_step(s@, iprev);
                    }
                    return None;
                },
            };
            out.push(hi * 16 + lo);
            i += 3;
            proof {
                lemma_percent_decode_step(s@, iprev);
                assert(out@ =~= outprev.push((hi * 16 + lo) as u8));
                match spec_percent_decode(s@.skip(i as int)) {
                    Some(rest) => {
                        assert(outprev + (seq![(hi * 16 + lo) as u8] + rest) =~= out@ + rest);
                    },
                    None => {},
                }
            }
        } else {
            out.push(b);
            i += 1;
            proof {
                lemma_percent_decode_step(s@, iprev);
                assert(out@ =~= outprev.push(b));
                match spec_percent_decode(s@.skip(i as int)) {
                    Some(rest) => {
                        assert(outprev + (seq![b] + rest) =~= out@ + rest);
                    },
                    None => {},
                }
            }
        }
    }
    proof {
        assert(s@.skip(n as int) =~= Seq::<u8>::empty());
        assert(out@ + Seq::<u8>::empty() =~= out@);
    }
    Some(out)
}

/// How a capture-wait loop judges one event from the daemon: a finish ends
/// it with the saved path; a failure whose message is the cancellation
/// sentinel ends it as a cancellation; any other failure ends it with that
/// message; other events are progress and the wait goes on.
#[derive(Debug, PartialEq, Eq)]
pub enum CaptureOutcome {
    Finished { path: String },
    Cancelled,
}

/// One step of the client's capture-wait loop.
pub fn capture_wait_step(ev: Event) -> (r: Option<Result<CaptureOutcome, String>>)
    ensures
        (match ev@ {
            EventM::CaptureFinished { path } => r matches Some(Ok(CaptureOutcome::Finished {
                path: p,
            })) && p@ == path,
            EventM::CaptureFailed { message } => if message == "cancelled"@ {
                r == Some(Ok::<CaptureOutcome, String>(CaptureOutcome::Cancelled))
            } else {
                r matches Some(Err(m)) && m@ == message
            },
            _ => r is None,
        }),
{
    match ev {
        Event::CaptureFinished { path } => Some(Ok(CaptureOutcome::Finished { path })),
        Event::CaptureFailed { message } => {
            if message == String::from_str("cancelled") {
                Some(Ok(CaptureOutcome::Cancelled))
            } else {
                Some(Err(message))
            }
        },
        _ => None,
    }
}

/// The `file://` scheme prefix, as bytes.
pub open spec fn file_scheme() -> Seq<u8> {
    seq![0x66u8, 0x69u8, 0x6cu8, 0x65u8, 0x3au8, 0x2fu8, 0x2fu8]
}

/// The one non-empty authority a portal file URI may carry.
pub open spec fn localhost_bytes() -> Seq<u8> {
    seq![0x6cu8, 0x6fu8, 0x63u8, 0x61u8, 0x6cu8, 0x68u8, 0x6fu8, 0x73u8, 0x74u8]
}

/// Index of the first `/` at or after `i`, if any.
pub open spec fn first_slash_from(s: Seq<u8>, i: int) -> Option<int>
    decreases s.len() - i,
{
    if i < 0 || i >= s.len() {
        None
    } else if s[i] == 0x2f {
        Some(i)
    } else {
        first_slash_from(s, i + 1)
    }
}

/// Collapse a doubled leading slash down to a single one.
pub open spec fn collapse_slashes(s: Seq<u8>) -> Seq<u8>
    decreases s.len(),
{
    if s.len() >= 2 && s[0] == 0x2f && s[1] == 0x2f {
        collapse_slashes(s.drop_first())
    } else {
        s
    }
}

/// What [`uri_to_path`] accepts and produces: the URI starts with
/// `file://`, its authority is empty or `localhost`, a path follows, and
/// the path's percent escapes decode.
pub open spec fn spec_uri_to_path(uri: Seq<u8>) -> Option<Seq<u8>> {
    if uri.len() < 7 || uri.subrange(0, 7) != file_scheme() {
        None
    } else {
        let p = uri.skip(7);
        match first_slash_from(p, 0) {
            None => None,
            Some(k) => {
                let authority = p.subrange(0, k);
                if authority.len() == 0 || authority == localhost_bytes() {
                    spec_percent_decode(collapse_slashes(p.skip(k)))
                } else {
                    None
                }
            },
        }
    }
}

/// Turn a portal `file://` URI into path bytes: the scheme is required,
/// an authority must be empty or `localhost`, a doubled leading slash is
/// normalised away, and percent escapes are decoded.  The caller still
/// validates the bytes as text.  `Err` exactly when [`spec_uri_to_path`]
/// rejects the URI.
pub fn uri_to_path(uri: &Vec<u8>) -> (r: Result<Vec<u8>, UriError>)
    ensures
        (match r {
            Ok(path) => spec_uri_to_path(uri@) == Some(path@),
            Err(_) => spec_uri_to_path(uri@) is None,
        }),
{
    let scheme: [u8; 7] = [0x66, 0x69, 0x6c, 0x65, 0x3a, 0x2f, 0x2f];
    if uri.len() < 7 {
        proof {
            assert(uri@.len() < 7);
        }
        return Err(UriError::BadScheme);
    }
    let mut k: usize = 0;
    while k < 7
        invariant
            0 <= k <= 7,
            uri@.len() >= 7,
            scheme@ == file_scheme(),
            forall|j: int| 0 <= j < k ==> uri@[j] == file_scheme()[j],
        decreases 7 - k,
    {
        if uri[k] != scheme[k] {
            proof {
                assert(uri@.subrange(0, 7)[k as int] == uri@[k as int]);
                assert(uri@.subrange(0, 7) != file_scheme());
            }
            return Err(UriError::BadScheme);
        }
        k += 1;
    }
    proof {
        assert(uri@.subrange(0, 7) =~= file_scheme());
    }
    let ghost p = uri@.skip(7);
    let n = uri.len();
    let mut s: usize = 7;
    while s < n && uri[s] != 0x2f
        invariant
            7 <= s <= n,
            n == uri@.len(),
            p == uri@.skip(7),
            first_slash_from(p, 0) == first_slash_from(p, s - 7),
            forall|j: int| 7 <= j < s ==> uri@[j] != 0x2f,
        decreases n - s,
    {
        proof {
            assert(p[s - 7] == uri@[s as int]);
        }
        s += 1;
    }
    if s == n {
        proof {
            assert(first_slash_from(p, n - 7) is None);
        }
        return Err(UriError::NoPath);
    }
    proof {
        assert(p[s - 7] == uri@[s as int]);
        assert(first_slash_from(p, 0) == Some(s - 7));
    }
    let auth_len = s - 7;
    if auth_len != 0 {
        let localhost: [u8; 9] = [0x6c, 0x6f, 0x63, 0x61, 0x6c, 0x68, 0x6f, 0x73, 0x74];
        if auth_len != 9 {
            proof {
                assert(p.subrange(0, s - 7).len() != 9 && p.subrange(0, s - 7).len() != 0);
                assert(localhost_bytes().len() == 9);
            }
            return Err(UriError::BadAuthority);
        }
        let mut j: usize = 0;
        while j < 9
            invariant
                0 <= j <= 9,
                auth_len == 9,
                s == 16,
                n == uri@.len(),
                s < n,
                p == uri@.skip(7),
                localhost@ == localhost_bytes(),
                first_slash_from(p, 0) == Some(s - 7),
                forall|i: int| 0 <= i < j ==> p.subrange(0, 9)[i] == localhost_bytes()[i],
            decreases 9 - j,
        {
            if uri[7 + j] != localhost[j] {
                proof {
                    assert(p.subrange(0, 9)[j as int] == uri@[7 + j as int]);
                    assert(p.subrange(0, 9) != localhost_bytes());
                }
                return Err(UriError::BadAuthority);
            }
            proof {
                assert(p.subrange(0, 9)[j as int] == uri@[7 + j as int]);
            }
            j += 1;
        }
        proof {
            assert(p.subrange(0, 9) =~= localhost_bytes());
        }
    }
    proof {
        if auth_len == 0 {
            assert(p.subrange(0, 0) =~= Seq::<u8>::empty());
        }
    }
    let mut start: usize = s;
    proof {
        assert(p.skip(s - 7) =~= uri@.skip(s as int));
    }
    while start + 1 < n && uri[start] == 0x2f && uri[start + 1] == 0x2f
        invariant
            s <= start < n,
            n == uri@.len(),
            p == uri@.skip(7),
            uri@[start as int] == 0x2f,
            collapse_slashes(p.skip(s - 7)) == collapse_slashes(uri@.skip(start as int)),
        decreases n - start,
    {
        proof {
            let t = uri@.skip(start as int);
            assert(t[0] == uri@[start as int] && t[1] == uri@[start as int + 1]);
            assert(t.drop_first() =~= uri@.skip(start as int + 1));
        }
        start += 1;
    }
    proof {
        let t = uri@.skip(start as int);
        assert(t[0] == uri@[start as int]);
        if start as int + 1 < n {
            assert(t[1] == uri@[start as int + 1]);
        }
        assert(collapse_slashes(t) == t);
        assert(p.skip(s - 7) =~= uri@.skip(s as int));
    }
    let tail = vstd::slice::slice_to_vec(
        vstd::slice::slice_subrange(uri.as_slice(), start, n),
    );
    proof {
        assert(tail@ =~= uri@.skip(start as int));
    }
    match percent_decode(&tail) {
        Some(out) => Ok(out),
        None => Err(UriError::BadEscape),
    }
}

/// Why a portal URI was rejected.
#[derive(Debug, Clone, Copy, PartialEq, Eq, Structural)]
pub enum UriError {
    /// The URI does not start with `file://`.
    BadScheme,
    /// The authority is neither empty nor `localhost`.
    BadAuthority,
    /// No path follows the authority.
    NoPath,
    /// A percent escape is malformed or truncated.
    BadEscape,
}

/// The request token a portal call is tagged with, derived from a
/// timestamp the application supplies.
pub fn new_handle_token(nanos: u64) -> (r: String)
    ensures
        r@ == "capit_"@ + crate::paths::dec_chars_of(nanos as int),
{
    let mut s = String::from_str("capit_");
    let ts = crate::paths::u64_dec_string(nanos);
    s.append(ts.as_str());
    s
}

} // verus!
