//! Length-prefixed framing over a byte stream.
//!
//! A frame is a 4-byte little-endian payload length followed by that many
//! payload bytes.  The stream is modelled as a byte buffer: the surrounding
//! application moves bytes between this buffer and its socket, and hands
//! frames read from the socket to [`frame_len`] four header bytes at a time.

use vstd::prelude::*;
use vstd::string::StringExecFns;

use crate::codec::{dec_u32, enc_u32, lemma_dec_enc_u32, lemma_subrange_split};
use crate::errors::IpcError;

verus! {

/// Append one frame to the outgoing stream: the payload's length as a
/// 4-byte little-endian word, then the payload.  Fails, leaving the stream
/// unchanged, exactly when the length does not fit the length word.
pub fn write_frame(stream: &mut Vec<u8>, bytes: &Vec<u8>) -> (r: Result<(), IpcError>)
    ensures
        (match r {
            Ok(_) => bytes@.len() <= u32::MAX && final(stream)@ == old(stream)@ + enc_u32(
                bytes@.len() as u32,
            ) + bytes@,
            Err(e) => e == IpcError::FrameTooLarge && bytes@.len() > u32::MAX && final(stream)@
                == old(stream)@,
        }),
{
    if bytes.len() > u32::MAX as usize {
        return Err(IpcError::FrameTooLarge);
    }
    let len: u32 = bytes.len() as u32;
    let ghost s0 = stream@;
    let mut header = vstd::bytes::u32_to_le_bytes(len);
    stream.append(&mut header);
    let mut body = bytes.clone();
    stream.append(&mut body);
    proof {
        crate::codec::lemma_add_assoc(s0, enc_u32(len), bytes@);
    }
    Ok(())
}

/// Read one frame out of the incoming stream at `*pos`.
///
/// The 4-byte length is read first; a declared length above `max_len` fails
/// with `FrameTooLarge` after consuming exactly the header, so the payload
/// of a hostile peer is never pulled in.  A stream too short for the header
/// or for the declared payload fails as an I/O error.  On success the
/// payload bytes are returned and `*pos` moves past the frame.
pub fn read_frame(stream: &Vec<u8>, pos: &mut usize, max_len: usize) -> (r: Result<
    Vec<u8>,
    IpcError,
>)
    ensures
        (match r {
            Ok(payload) => dec_u32(stream@, *old(pos) as int) matches Some((len, j)) && (len as int
                <= max_len as int && j + len as int <= stream@.len() && payload@
                == stream@.subrange(j, j + len as int) && *final(pos) as int == j + len as int),
            Err(e) => (match dec_u32(stream@, *old(pos) as int) {
                Some((len, j)) => if len as int > max_len as int {
                    e == IpcError::FrameTooLarge && *final(pos) as int == j
                } else {
                    (e matches IpcError::Io(_)) && j + len as int > stream@.len()
                },
                None => (e matches IpcError::Io(_)),
            }),
        }),
{
    let len = match crate::wire::read_u32_at(stream, pos) {
        Some(v) => v,
        None => {
            return Err(IpcError::Io(String::from_str("unexpected end of stream")));
        },
    };
    let len_us = len as usize;
    if len_us > max_len {
        return Err(IpcError::FrameTooLarge);
    }
    if len_us > stream.len() - *pos {
        return Err(IpcError::Io(String::from_str("unexpected end of stream")));
    }
    let s = vstd::slice::slice_subrange(stream.as_slice(), *pos, *pos + len_us);
    let payload = vstd::slice::slice_to_vec(s);
    *pos = *pos + len_us;
    Ok(payload)
}

/// Decide a frame's payload length from its four header bytes, holding it
/// to `max_len`.  This is the per-frame decision the application's socket
/// loop relies on: it returns `Ok` exactly when the declared length fits.
pub fn frame_len(header: &Vec<u8>, max_len: usize) -> (r: Result<usize, IpcError>)
    requires
        header@.len() == 4,
    ensures
        (match r {
            Ok(l) => dec_u32(header@, 0) matches Some((len, _)) && l == len as usize && len as int
                <= max_len as int,
            Err(e) => e == IpcError::FrameTooLarge && (dec_u32(header@, 0) matches Some((len, _))
                && len as int > max_len as int),
        }),
{
    let mut p: usize = 0;
    let len = match crate::wire::read_u32_at(header, &mut p) {
        Some(v) => v,
        None => {
            proof {
                assert(header@.len() == 4);
                assert(false);
            }
            return Err(IpcError::FrameTooLarge);
        },
    };
    let len_us = len as usize;
    if len_us > max_len {
        Err(IpcError::FrameTooLarge)
    } else {
        Ok(len_us)
    }
}

/// Writing a frame and reading it back from the same position yields the
/// exact payload, whenever the read bound admits it.
pub proof fn lemma_frame_round_trip(prefix: Seq<u8>, payload: Seq<u8>, max_len: int)
    requires
        payload.len() <= u32::MAX,
        payload.len() <= max_len,
    ensures
        ({
            let stream = prefix + enc_u32(payload.len() as u32) + payload;
            &&& dec_u32(stream, prefix.len() as int) == Some(
                (payload.len() as u32, prefix.len() as int + 4),
            )
            &&& stream.subrange(prefix.len() as int + 4, prefix.len() as int + 4 + payload.len() as int) == payload
        }),
{
    let stream = prefix + enc_u32(payload.len() as u32) + payload;
    vstd::bytes::lemma_auto_spec_u32_to_from_le_bytes();
    assert(enc_u32(payload.len() as u32).len() == 4);
    crate::codec::lemma_add_assoc(prefix, enc_u32(payload.len() as u32), payload);
    assert(stream.subrange(0, stream.len() as int) =~= stream);
    lemma_subrange_split(stream, 0, prefix, enc_u32(payload.len() as u32) + payload);
    lemma_subrange_split(stream, prefix.len() as int, enc_u32(payload.len() as u32), payload);
    lemma_dec_enc_u32(stream, prefix.len() as int, payload.len() as u32);
}

} // verus!
