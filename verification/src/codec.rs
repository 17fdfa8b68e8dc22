//! Byte encoding of the wire vocabulary.
//!
//! The format is deliberately plain: little-endian 32-bit words, one-byte
//! tags for enum variants, strings as a character count followed by one
//! 32-bit scalar value per character, and lists as a count followed by the
//! items.  `enc_*` spec functions define the format; `dec_*` spec functions
//! parse it back, and the round-trip lemmas prove that decoding an encoding
//! returns the original value.

use vstd::prelude::*;

use crate::protocol::{
    Event,
    EventM,
    IpcHello,
    Mode,
    OutputInfo,
    OutputInfoM,
    Rect,
    Request,
    RequestM,
    Response,
    ResponseM,
    Target,
    TargetM,
    UiConfig,
    Wire,
    WireM,
};

verus! {

/// A `u32` whose value is a valid Unicode scalar value.
pub open spec fn valid_scalar(v: u32) -> bool {
    v < 0xD800 || (0xE000 <= v && v <= 0x10FFFF)
}

/// The character with the given scalar value; meaningful only when some
/// character has it, which every use site witnesses.
pub open spec fn char_of(v: u32) -> char {
    choose|c: char| (#[trigger] (c as u32)) == v
}

pub proof fn lemma_char_of(c: char)
    ensures
        char_of(c as u32) == c,
{
    let v = c as u32;
    assert(c as u32 == v);
    let c2 = char_of(v);
    assert(c2 as u32 == v);
}

pub proof fn lemma_char_scalar(c: char)
    ensures
        valid_scalar(c as u32),
{
}

pub open spec fn enc_u32(v: u32) -> Seq<u8> {
    vstd::bytes::spec_u32_to_le_bytes(v)
}

pub open spec fn dec_u32(b: Seq<u8>, i: int) -> Option<(u32, int)> {
    if 0 <= i && i + 4 <= b.len() {
        Some((vstd::bytes::spec_u32_from_le_bytes(b.subrange(i, i + 4)), i + 4))
    } else {
        None
    }
}

pub proof fn lemma_dec_enc_u32(b: Seq<u8>, i: int, v: u32)
    requires
        0 <= i,
        i + 4 <= b.len(),
        b.subrange(i, i + 4) == enc_u32(v),
    ensures
        dec_u32(b, i) == Some((v, i + 4)),
{
    vstd::bytes::lemma_auto_spec_u32_to_from_le_bytes();
    assert(vstd::bytes::spec_u32_to_le_bytes(v).len() == 4);
    assert(vstd::bytes::spec_u32_from_le_bytes(vstd::bytes::spec_u32_to_le_bytes(v)) == v);
}

pub open spec fn enc_i32(v: i32) -> Seq<u8> {
    enc_u32(v as u32)
}

pub open spec fn dec_i32(b: Seq<u8>, i: int) -> Option<(i32, int)> {
    match dec_u32(b, i) {
        Some((v, j)) => Some((v as i32, j)),
        None => None,
    }
}

pub proof fn lemma_dec_enc_i32(b: Seq<u8>, i: int, v: i32)
    requires
        0 <= i,
        i + 4 <= b.len(),
        b.subrange(i, i + 4) == enc_i32(v),
    ensures
        dec_i32(b, i) == Some((v, i + 4)),
{
    lemma_dec_enc_u32(b, i, v as u32);
    assert((v as u32) as i32 == v) by (bit_vector);
}

pub open spec fn enc_u8(v: u8) -> Seq<u8> {
    seq![v]
}

pub open spec fn dec_u8(b: Seq<u8>, i: int) -> Option<(u8, int)> {
    if 0 <= i && i + 1 <= b.len() {
        Some((b[i], i + 1))
    } else {
        None
    }
}

pub proof fn lemma_dec_enc_u8(b: Seq<u8>, i: int, v: u8)
    requires
        0 <= i,
        i + 1 <= b.len(),
        b.subrange(i, i + 1) == enc_u8(v),
    ensures
        dec_u8(b, i) == Some((v, i + 1)),
{
    assert(b.subrange(i, i + 1)[0] == b[i]);
}

pub open spec fn enc_bool(v: bool) -> Seq<u8> {
    seq![if v {
        1u8
    } else {
        0u8
    }]
}

/// Only the bytes 0 and 1 decode as a boolean, so every accepted frame has
/// exactly one reading.
pub open spec fn dec_bool(b: Seq<u8>, i: int) -> Option<(bool, int)> {
    match dec_u8(b, i) {
        Some((v, j)) => if v == 0 {
            Some((false, j))
        } else if v == 1 {
            Some((true, j))
        } else {
            None
        },
        None => None,
    }
}

pub proof fn lemma_dec_enc_bool(b: Seq<u8>, i: int, v: bool)
    requires
        0 <= i,
        i + 1 <= b.len(),
        b.subrange(i, i + 1) == enc_bool(v),
    ensures
        dec_bool(b, i) == Some((v, i + 1)),
{
    lemma_dec_enc_u8(
        b,
        i,
        if v {
            1u8
        } else {
            0u8
        },
    );
}

/// The characters of a string, one 32-bit scalar value each.
pub open spec fn enc_chars(s: Seq<char>) -> Seq<u8>
    decreases s.len(),
{
    if s.len() == 0 {
        Seq::empty()
    } else {
        enc_u32(s[0] as u32) + enc_chars(s.drop_first())
    }
}

pub proof fn lemma_enc_chars_len(s: Seq<char>)
    ensures
        enc_chars(s).len() == 4 * s.len(),
    decreases s.len(),
{
    vstd::bytes::lemma_auto_spec_u32_to_from_le_bytes();
    if s.len() > 0 {
        lemma_enc_chars_len(s.drop_first());
    }
}

pub proof fn lemma_enc_chars_push(s: Seq<char>, c: char)
    ensures
        enc_chars(s.push(c)) == enc_chars(s) + enc_u32(c as u32),
    decreases s.len(),
{
    vstd::bytes::lemma_auto_spec_u32_to_from_le_bytes();
    if s.len() == 0 {
        assert(s.push(c)[0] == c);
        assert(s.push(c).drop_first() =~= Seq::<char>::empty());
        assert(s =~= Seq::<char>::empty());
        assert(enc_chars(Seq::<char>::empty()) == Seq::<u8>::empty());
        assert(enc_chars(s.push(c)) =~= enc_chars(s) + enc_u32(c as u32));
    } else {
        assert(s.push(c)[0] == s[0]);
        assert(s.push(c).drop_first() =~= s.drop_first().push(c));
        lemma_enc_chars_push(s.drop_first(), c);
        lemma_add_assoc(enc_u32(s[0] as u32), enc_chars(s.drop_first()), enc_u32(c as u32));
    }
}

pub open spec fn dec_chars(b: Seq<u8>, i: int, n: int) -> Option<(Seq<char>, int)>
    decreases n,
{
    if n <= 0 {
        Some((Seq::empty(), i))
    } else {
        match dec_u32(b, i) {
            Some((v, j)) => if valid_scalar(v) {
                match dec_chars(b, j, n - 1) {
                    Some((rest, k)) => Some((seq![char_of(v)] + rest, k)),
                    None => None,
                }
            } else {
                None
            },
            None => None,
        }
    }
}

/// Parsing `n` characters splits into parsing `k`, then the remaining
/// `n - k` from where the first parse stopped.
pub proof fn lemma_dec_chars_split(b: Seq<u8>, i: int, k: int, n: int)
    requires
        0 <= k <= n,
    ensures
        dec_chars(b, i, n) == (match dec_chars(b, i, k) {
            Some((s1, j)) => match dec_chars(b, j, n - k) {
                Some((s2, l)) => Some((s1 + s2, l)),
                None => None::<(Seq<char>, int)>,
            },
            None => None::<(Seq<char>, int)>,
        }),
    decreases k,
{
    if k == 0 {
        match dec_chars(b, i, n) {
            Some((s, l)) => {
                assert(Seq::<char>::empty() + s =~= s);
            },
            None => {},
        }
    } else {
        match dec_u32(b, i) {
            Some((v, j)) => {
                if valid_scalar(v) {
                    lemma_dec_chars_split(b, j, k - 1, n - 1);
                    match dec_chars(b, j, k - 1) {
                        Some((s1t, j1)) => {
                            match dec_chars(b, j1, n - k) {
                                Some((s2, l)) => {
                                    assert((seq![char_of(v)] + s1t) + s2 =~= seq![char_of(v)] + (
                                    s1t + s2));
                                },
                                None => {},
                            }
                        },
                        None => {},
                    }
                }
            },
            None => {},
        }
    }
}

pub proof fn lemma_dec_enc_chars(b: Seq<u8>, i: int, s: Seq<char>)
    requires
        0 <= i,
        i + 4 * s.len() <= b.len(),
        b.subrange(i, i + 4 * s.len()) == enc_chars(s),
    ensures
        dec_chars(b, i, s.len() as int) == Some((s, i + 4 * s.len())),
    decreases s.len(),
{
    vstd::bytes::lemma_auto_spec_u32_to_from_le_bytes();
    lemma_enc_chars_len(s);
    if s.len() == 0 {
        assert(dec_chars(b, i, 0) == Some((Seq::<char>::empty(), i)));
        assert(s =~= Seq::<char>::empty());
    } else {
        let c = s[0];
        let tail = s.drop_first();
        lemma_enc_chars_len(tail);
        assert(b.subrange(i, i + 4) =~= enc_chars(s).subrange(0, 4));
        assert(enc_chars(s).subrange(0, 4) =~= enc_u32(c as u32));
        lemma_dec_enc_u32(b, i, c as u32);
        lemma_char_scalar(c);
        lemma_char_of(c);
        assert(b.subrange(i + 4, i + 4 + 4 * tail.len()) =~= enc_chars(s).subrange(
            4,
            4 + 4 * tail.len() as int,
        ));
        assert(enc_chars(s).subrange(4, 4 + 4 * tail.len() as int) =~= enc_chars(tail));
        lemma_dec_enc_chars(b, i + 4, tail);
        assert(seq![c] + tail =~= s);
    }
}

/// A string: its character count, then its characters.
pub open spec fn enc_string(s: Seq<char>) -> Seq<u8> {
    enc_u32(s.len() as u32) + enc_chars(s)
}

pub open spec fn dec_string(b: Seq<u8>, i: int) -> Option<(Seq<char>, int)> {
    match dec_u32(b, i) {
        Some((n, j)) => dec_chars(b, j, n as int),
        None => None,
    }
}

/// A string the codec can frame: its character count fits the count word.
pub open spec fn string_len_ok(s: Seq<char>) -> bool {
    s.len() <= 0xffff_ffff
}

pub proof fn lemma_dec_enc_string(b: Seq<u8>, i: int, s: Seq<char>)
    requires
        0 <= i,
        string_len_ok(s),
        i + 4 + 4 * s.len() <= b.len(),
        b.subrange(i, i + 4 + 4 * s.len()) == enc_string(s),
    ensures
        dec_string(b, i) == Some((s, i + 4 + 4 * s.len())),
{
    vstd::bytes::lemma_auto_spec_u32_to_from_le_bytes();
    lemma_enc_chars_len(s);
    assert(b.subrange(i, i + 4) =~= enc_string(s).subrange(0, 4));
    assert(enc_string(s).subrange(0, 4) =~= enc_u32(s.len() as u32));
    lemma_dec_enc_u32(b, i, s.len() as u32);
    assert(b.subrange(i + 4, i + 4 + 4 * s.len()) =~= enc_string(s).subrange(
        4,
        4 + 4 * s.len() as int,
    ));
    assert(enc_string(s).subrange(4, 4 + 4 * s.len() as int) =~= enc_chars(s));
    lemma_dec_enc_chars(b, i + 4, s);
}

/// Concatenation of sequences is associative.
pub proof fn lemma_add_assoc(a: Seq<u8>, m: Seq<u8>, z: Seq<u8>)
    ensures
        (a + m) + z == a + (m + z),
{
    assert((a + m) + z =~= a + (m + z));
}

/// Both halves of a concatenation sitting inside `b` at offset `i`.
pub proof fn lemma_subrange_split(b: Seq<u8>, i: int, s1: Seq<u8>, s2: Seq<u8>)
    requires
        0 <= i,
        i + s1.len() + s2.len() <= b.len(),
        b.subrange(i, i + s1.len() + s2.len()) == s1 + s2,
    ensures
        b.subrange(i, i + s1.len()) == s1,
        b.subrange(i + s1.len(), i + s1.len() + s2.len()) == s2,
{
    let l1 = s1.len() as int;
    let l2 = s2.len() as int;
    assert forall|j: int| 0 <= j < l1 implies b.subrange(i, i + l1)[j] == s1[j] by {
        assert(b.subrange(i, i + l1 + l2)[j] == (s1 + s2)[j]);
    }
    assert(b.subrange(i, i + l1) =~= s1);
    assert forall|j: int| 0 <= j < l2 implies b.subrange(i + l1, i + l1 + l2)[j] == s2[j] by {
        assert(b.subrange(i, i + l1 + l2)[l1 + j] == (s1 + s2)[l1 + j]);
    }
    assert(b.subrange(i + l1, i + l1 + l2) =~= s2);
}

pub open spec fn enc_mode(m: Mode) -> Seq<u8> {
    match m {
        Mode::Region => seq![0u8],
        Mode::Screen => seq![1u8],
        Mode::Window => seq![2u8],
        Mode::Record => seq![3u8],
    }
}

pub open spec fn dec_mode(b: Seq<u8>, i: int) -> Option<(Mode, int)> {
    match dec_u8(b, i) {
        Some((t, j)) => if t == 0 {
            Some((Mode::Region, j))
        } else if t == 1 {
            Some((Mode::Screen, j))
        } else if t == 2 {
            Some((Mode::Window, j))
        } else if t == 3 {
            Some((Mode::Record, j))
        } else {
            None
        },
        None => None,
    }
}

pub proof fn lemma_dec_enc_mode(b: Seq<u8>, i: int, m: Mode)
    requires
        0 <= i,
        i + enc_mode(m).len() <= b.len(),
        b.subrange(i, i + enc_mode(m).len()) == enc_mode(m),
    ensures
        dec_mode(b, i) == Some((m, i + enc_mode(m).len())),
{
    match m {
        Mode::Region => lemma_dec_enc_u8(b, i, 0),
        Mode::Screen => lemma_dec_enc_u8(b, i, 1),
        Mode::Window => lemma_dec_enc_u8(b, i, 2),
        Mode::Record => lemma_dec_enc_u8(b, i, 3),
    }
}

pub open spec fn enc_rect(r: Rect) -> Seq<u8> {
    enc_i32(r.x) + enc_i32(r.y) + enc_i32(r.w) + enc_i32(r.h)
}

pub open spec fn dec_rect(b: Seq<u8>, i: int) -> Option<(Rect, int)> {
    match dec_i32(b, i) {
        Some((x, i1)) => match dec_i32(b, i1) {
            Some((y, i2)) => match dec_i32(b, i2) {
                Some((w, i3)) => match dec_i32(b, i3) {
                    Some((h, i4)) => Some((Rect { x, y, w, h }, i4)),
                    None => None,
                },
                None => None,
            },
            None => None,
        },
        None => None,
    }
}

pub proof fn lemma_dec_enc_rect(b: Seq<u8>, i: int, r: Rect)
    requires
        0 <= i,
        i + enc_rect(r).len() <= b.len(),
        b.subrange(i, i + enc_rect(r).len()) == enc_rect(r),
    ensures
        dec_rect(b, i) == Some((r, i + enc_rect(r).len())),
        enc_rect(r).len() == 16,
{
    vstd::bytes::lemma_auto_spec_u32_to_from_le_bytes();
    let px = enc_i32(r.x);
    let py = enc_i32(r.y);
    let pw = enc_i32(r.w);
    let ph = enc_i32(r.h);
    assert(px.len() == 4 && py.len() == 4 && pw.len() == 4 && ph.len() == 4);
    lemma_add_assoc(px, py, pw);
    lemma_add_assoc(px, py + pw, ph);
    lemma_add_assoc(py, pw, ph);
    lemma_subrange_split(b, i, px, py + (pw + ph));
    lemma_dec_enc_i32(b, i, r.x);
    lemma_subrange_split(b, i + 4, py, pw + ph);
    lemma_dec_enc_i32(b, i + 4, r.y);
    lemma_subrange_split(b, i + 8, pw, ph);
    lemma_dec_enc_i32(b, i + 8, r.w);
    lemma_dec_enc_i32(b, i + 12, r.h);
}

pub open spec fn enc_ui_config(c: UiConfig) -> Seq<u8> {
    enc_u32(c.accent_colour) + enc_u32(c.bar_background_colour)
}

pub open spec fn dec_ui_config(b: Seq<u8>, i: int) -> Option<(UiConfig, int)> {
    match dec_u32(b, i) {
        Some((a, i1)) => match dec_u32(b, i1) {
            Some((g, i2)) => Some((UiConfig { accent_colour: a, bar_background_colour: g }, i2)),
            None => None,
        },
        None => None,
    }
}

pub proof fn lemma_dec_enc_ui_config(b: Seq<u8>, i: int, c: UiConfig)
    requires
        0 <= i,
        i + enc_ui_config(c).len() <= b.len(),
        b.subrange(i, i + enc_ui_config(c).len()) == enc_ui_config(c),
    ensures
        dec_ui_config(b, i) == Some((c, i + enc_ui_config(c).len())),
        enc_ui_config(c).len() == 8,
{
    vstd::bytes::lemma_auto_spec_u32_to_from_le_bytes();
    assert(enc_u32(c.accent_colour).len() == 4 && enc_u32(c.bar_background_colour).len() == 4);
    lemma_subrange_split(b, i, enc_u32(c.accent_colour), enc_u32(c.bar_background_colour));
    lemma_dec_enc_u32(b, i, c.accent_colour);
    lemma_dec_enc_u32(b, i + 4, c.bar_background_colour);
}

/// An optional string: an absent/present tag, then the string if present.
pub open spec fn enc_opt_string(s: Option<Seq<char>>) -> Seq<u8> {
    match s {
        None => seq![0u8],
        Some(t) => seq![1u8] + enc_string(t),
    }
}

pub open spec fn dec_opt_string(b: Seq<u8>, i: int) -> Option<(Option<Seq<char>>, int)> {
    match dec_u8(b, i) {
        Some((t, j)) => if t == 0 {
            Some((None, j))
        } else if t == 1 {
            match dec_string(b, j) {
                Some((s, k)) => Some((Some(s), k)),
                None => None,
            }
        } else {
            None
        },
        None => None,
    }
}

pub proof fn lemma_dec_enc_opt_string(b: Seq<u8>, i: int, s: Option<Seq<char>>)
    requires
        0 <= i,
        (s matches Some(t) ==> string_len_ok(t)),
        i + enc_opt_string(s).len() <= b.len(),
        b.subrange(i, i + enc_opt_string(s).len()) == enc_opt_string(s),
    ensures
        dec_opt_string(b, i) == Some((s, i + enc_opt_string(s).len())),
{
    match s {
        None => {
            lemma_dec_enc_u8(b, i, 0);
        },
        Some(t) => {
            lemma_enc_chars_len(t);
            vstd::bytes::lemma_auto_spec_u32_to_from_le_bytes();
            assert(enc_u32(t.len() as u32).len() == 4);
            lemma_subrange_split(b, i, enc_u8(1), enc_string(t));
            lemma_dec_enc_u8(b, i, 1);
            lemma_dec_enc_string(b, i + 1, t);
        },
    }
}

pub open spec fn enc_output(o: OutputInfoM) -> Seq<u8> {
    enc_opt_string(o.name) + enc_i32(o.x) + enc_i32(o.y) + enc_i32(o.width) + enc_i32(o.height)
        + enc_i32(o.scale)
}

pub open spec fn dec_output(b: Seq<u8>, i: int) -> Option<(OutputInfoM, int)> {
    match dec_opt_string(b, i) {
        Some((name, i1)) => match dec_i32(b, i1) {
            Some((x, i2)) => match dec_i32(b, i2) {
                Some((y, i3)) => match dec_i32(b, i3) {
                    Some((width, i4)) => match dec_i32(b, i4) {
                        Some((height, i5)) => match dec_i32(b, i5) {
                            Some((scale, i6)) => Some(
                                (OutputInfoM { name, x, y, width, height, scale }, i6),
                            ),
                            None => None,
                        },
                        None => None,
                    },
                    None => None,
                },
                None => None,
            },
            None => None,
        },
        None => None,
    }
}

/// An output's name fits the string count word.
pub open spec fn output_wf(o: OutputInfoM) -> bool {
    match o.name {
        Some(s) => string_len_ok(s),
        None => true,
    }
}

pub proof fn lemma_dec_enc_output(b: Seq<u8>, i: int, o: OutputInfoM)
    requires
        0 <= i,
        output_wf(o),
        i + enc_output(o).len() <= b.len(),
        b.subrange(i, i + enc_output(o).len()) == enc_output(o),
    ensures
        dec_output(b, i) == Some((o, i + enc_output(o).len())),
{
    vstd::bytes::lemma_auto_spec_u32_to_from_le_bytes();
    let p0 = enc_opt_string(o.name);
    let p1 = enc_i32(o.x);
    let p2 = enc_i32(o.y);
    let p3 = enc_i32(o.width);
    let p4 = enc_i32(o.height);
    let p5 = enc_i32(o.scale);
    let l0 = p0.len() as int;
    assert(p1.len() == 4 && p2.len() == 4 && p3.len() == 4 && p4.len() == 4 && p5.len() == 4);
    lemma_add_assoc(p0, p1, p2);
    lemma_add_assoc(p0, p1 + p2, p3);
    lemma_add_assoc(p0, (p1 + p2) + p3, p4);
    lemma_add_assoc(p0, ((p1 + p2) + p3) + p4, p5);
    lemma_subrange_split(b, i, p0, (((p1 + p2) + p3) + p4) + p5);
    lemma_dec_enc_opt_string(b, i, o.name);
    lemma_add_assoc(p1, p2, p3);
    lemma_add_assoc(p1, p2 + p3, p4);
    lemma_add_assoc(p1, (p2 + p3) + p4, p5);
    lemma_subrange_split(b, i + l0, p1, ((p2 + p3) + p4) + p5);
    lemma_dec_enc_i32(b, i + l0, o.x);
    lemma_add_assoc(p2, p3, p4);
    lemma_add_assoc(p2, p3 + p4, p5);
    lemma_subrange_split(b, i + l0 + 4, p2, (p3 + p4) + p5);
    lemma_dec_enc_i32(b, i + l0 + 4, o.y);
    lemma_add_assoc(p3, p4, p5);
    lemma_subrange_split(b, i + l0 + 8, p3, p4 + p5);
    lemma_dec_enc_i32(b, i + l0 + 8, o.width);
    lemma_subrange_split(b, i + l0 + 12, p4, p5);
    lemma_dec_enc_i32(b, i + l0 + 12, o.height);
    lemma_dec_enc_i32(b, i + l0 + 16, o.scale);
}

pub open spec fn enc_target(t: TargetM) -> Seq<u8> {
    match t {
        TargetM::AllScreens => seq![0u8],
        TargetM::OutputName(s) => seq![1u8] + enc_string(s),
        TargetM::OutputIndex(k) => seq![2u8] + enc_u32(k),
        TargetM::ActiveWindow => seq![3u8],
    }
}

pub open spec fn dec_target(b: Seq<u8>, i: int) -> Option<(TargetM, int)> {
    match dec_u8(b, i) {
        Some((t, j)) => if t == 0 {
            Some((TargetM::AllScreens, j))
        } else if t == 1 {
            match dec_string(b, j) {
                Some((s, k)) => Some((TargetM::OutputName(s), k)),
                None => None,
            }
        } else if t == 2 {
            match dec_u32(b, j) {
                Some((v, k)) => Some((TargetM::OutputIndex(v), k)),
                None => None,
            }
        } else if t == 3 {
            Some((TargetM::ActiveWindow, j))
        } else {
            None
        },
        None => None,
    }
}

/// A target's output name fits the string count word.
pub open spec fn target_wf(t: TargetM) -> bool {
    match t {
        TargetM::OutputName(s) => string_len_ok(s),
        _ => true,
    }
}

pub proof fn lemma_dec_enc_target(b: Seq<u8>, i: int, t: TargetM)
    requires
        0 <= i,
        target_wf(t),
        i + enc_target(t).len() <= b.len(),
        b.subrange(i, i + enc_target(t).len()) == enc_target(t),
    ensures
        dec_target(b, i) == Some((t, i + enc_target(t).len())),
{
    vstd::bytes::lemma_auto_spec_u32_to_from_le_bytes();
    match t {
        TargetM::AllScreens => {
            lemma_dec_enc_u8(b, i, 0);
        },
        TargetM::OutputName(s) => {
            lemma_enc_chars_len(s);
            assert(enc_u32(s.len() as u32).len() == 4);
            lemma_subrange_split(b, i, enc_u8(1), enc_string(s));
            lemma_dec_enc_u8(b, i, 1);
            lemma_dec_enc_string(b, i + 1, s);
        },
        TargetM::OutputIndex(k) => {
            assert(enc_u32(k).len() == 4);
            lemma_subrange_split(b, i, enc_u8(2), enc_u32(k));
            lemma_dec_enc_u8(b, i, 2);
            lemma_dec_enc_u32(b, i + 1, k);
        },
        TargetM::ActiveWindow => {
            lemma_dec_enc_u8(b, i, 3);
        },
    }
}

/// An optional capture mode: an absent/present tag, then the mode.
pub open spec fn enc_opt_mode(m: Option<Mode>) -> Seq<u8> {
    match m {
        None => seq![0u8],
        Some(k) => seq![1u8] + enc_mode(k),
    }
}

pub open spec fn dec_opt_mode(b: Seq<u8>, i: int) -> Option<(Option<Mode>, int)> {
    match dec_u8(b, i) {
        Some((t, j)) => if t == 0 {
            Some((None, j))
        } else if t == 1 {
            match dec_mode(b, j) {
                Some((k, l)) => Some((Some(k), l)),
                None => None,
            }
        } else {
            None
        },
        None => None,
    }
}

pub proof fn lemma_dec_enc_opt_mode(b: Seq<u8>, i: int, m: Option<Mode>)
    requires
        0 <= i,
        i + enc_opt_mode(m).len() <= b.len(),
        b.subrange(i, i + enc_opt_mode(m).len()) == enc_opt_mode(m),
    ensures
        dec_opt_mode(b, i) == Some((m, i + enc_opt_mode(m).len())),
{
    match m {
        None => {
            lemma_dec_enc_u8(b, i, 0);
        },
        Some(k) => {
            lemma_subrange_split(b, i, enc_u8(1), enc_mode(k));
            lemma_dec_enc_u8(b, i, 1);
            lemma_dec_enc_mode(b, i + 1, k);
        },
    }
}

/// An optional capture target: an absent/present tag, then the target.
pub open spec fn enc_opt_target(t: Option<TargetM>) -> Seq<u8> {
    match t {
        None => seq![0u8],
        Some(k) => seq![1u8] + enc_target(k),
    }
}

pub open spec fn dec_opt_target(b: Seq<u8>, i: int) -> Option<(Option<TargetM>, int)> {
    match dec_u8(b, i) {
        Some((t, j)) => if t == 0 {
            Some((None, j))
        } else if t == 1 {
            match dec_target(b, j) {
                Some((k, l)) => Some((Some(k), l)),
                None => None,
            }
        } else {
            None
        },
        None => None,
    }
}

pub proof fn lemma_dec_enc_opt_target(b: Seq<u8>, i: int, t: Option<TargetM>)
    requires
        0 <= i,
        (t matches Some(k) ==> target_wf(k)),
        i + enc_opt_target(t).len() <= b.len(),
        b.subrange(i, i + enc_opt_target(t).len()) == enc_opt_target(t),
    ensures
        dec_opt_target(b, i) == Some((t, i + enc_opt_target(t).len())),
{
    match t {
        None => {
            lemma_dec_enc_u8(b, i, 0);
        },
        Some(k) => {
            lemma_subrange_split(b, i, enc_u8(1), enc_target(k));
            lemma_dec_enc_u8(b, i, 1);
            lemma_dec_enc_target(b, i + 1, k);
        },
    }
}

/// The items of an output list, in order.
pub open spec fn enc_outputs(s: Seq<OutputInfoM>) -> Seq<u8>
    decreases s.len(),
{
    if s.len() == 0 {
        Seq::empty()
    } else {
        enc_output(s[0]) + enc_outputs(s.drop_first())
    }
}

pub open spec fn dec_outputs(b: Seq<u8>, i: int, n: int) -> Option<(Seq<OutputInfoM>, int)>
    decreases n,
{
    if n <= 0 {
        Some((Seq::empty(), i))
    } else {
        match dec_output(b, i) {
            Some((o, j)) => match dec_outputs(b, j, n - 1) {
                Some((rest, k)) => Some((seq![o] + rest, k)),
                None => None,
            },
            None => None,
        }
    }
}

/// Every output in the list can be framed.
pub open spec fn outputs_wf(s: Seq<OutputInfoM>) -> bool {
    s.len() <= 0xffff_ffff && (forall|k: int| 0 <= k < s.len() ==> output_wf(#[trigger] s[k]))
}

pub proof fn lemma_enc_outputs_push(s: Seq<OutputInfoM>, o: OutputInfoM)
    ensures
        enc_outputs(s.push(o)) == enc_outputs(s) + enc_output(o),
    decreases s.len(),
{
    if s.len() == 0 {
        assert(s.push(o)[0] == o);
        assert(s.push(o).drop_first() =~= Seq::<OutputInfoM>::empty());
        assert(s =~= Seq::<OutputInfoM>::empty());
        assert(enc_outputs(Seq::<OutputInfoM>::empty()) == Seq::<u8>::empty());
        assert(enc_outputs(s.push(o)) =~= enc_outputs(s) + enc_output(o));
    } else {
        assert(s.push(o)[0] == s[0]);
        assert(s.push(o).drop_first() =~= s.drop_first().push(o));
        lemma_enc_outputs_push(s.drop_first(), o);
        lemma_add_assoc(enc_output(s[0]), enc_outputs(s.drop_first()), enc_output(o));
    }
}

/// Parsing `n` outputs splits into parsing `k`, then the remaining `n - k`
/// from where the first parse stopped.
pub proof fn lemma_dec_outputs_split(b: Seq<u8>, i: int, k: int, n: int)
    requires
        0 <= k <= n,
    ensures
        dec_outputs(b, i, n) == (match dec_outputs(b, i, k) {
            Some((s1, j)) => match dec_outputs(b, j, n - k) {
                Some((s2, l)) => Some((s1 + s2, l)),
                None => None::<(Seq<OutputInfoM>, int)>,
            },
            None => None::<(Seq<OutputInfoM>, int)>,
        }),
    decreases k,
{
    if k == 0 {
        match dec_outputs(b, i, n) {
            Some((s, l)) => {
                assert(Seq::<OutputInfoM>::empty() + s =~= s);
            },
            None => {},
        }
    } else {
        match dec_output(b, i) {
            Some((o, j)) => {
                lemma_dec_outputs_split(b, j, k - 1, n - 1);
                match dec_outputs(b, j, k - 1) {
                    Some((s1t, j1)) => {
                        match dec_outputs(b, j1, n - k) {
                            Some((s2, l)) => {
                                assert((seq![o] + s1t) + s2 =~= seq![o] + (s1t + s2));
                            },
                            None => {},
                        }
                    },
                    None => {},
                }
            },
            None => {},
        }
    }
}

pub proof fn lemma_dec_enc_outputs(b: Seq<u8>, i: int, s: Seq<OutputInfoM>)
    requires
        0 <= i,
        (forall|k: int| 0 <= k < s.len() ==> output_wf(#[trigger] s[k])),
        i + enc_outputs(s).len() <= b.len(),
        b.subrange(i, i + enc_outputs(s).len()) == enc_outputs(s),
    ensures
        dec_outputs(b, i, s.len() as int) == Some((s, i + enc_outputs(s).len())),
    decreases s.len(),
{
    if s.len() == 0 {
        assert(s =~= Seq::<OutputInfoM>::empty());
    } else {
        let o = s[0];
        let tail = s.drop_first();
        lemma_subrange_split(b, i, enc_output(o), enc_outputs(tail));
        lemma_dec_enc_output(b, i, o);
        assert(forall|k: int| 0 <= k < tail.len() ==> output_wf(#[trigger] tail[k]));
        lemma_dec_enc_outputs(b, i + enc_output(o).len(), tail);
        assert(seq![o] + tail =~= s);
    }
}

/// A request, as one tag byte and the variant's fields.
pub open spec fn enc_request(m: RequestM) -> Seq<u8> {
    match m {
        RequestM::Hello(v) => seq![0u8] + enc_u32(v),
        RequestM::ListOutputs => seq![1u8],
        RequestM::GetUiConfig => seq![2u8],
        RequestM::StartCapture { mode, target, with_ui } => seq![3u8] + enc_mode(mode)
            + enc_opt_target(target) + enc_bool(with_ui),
        RequestM::SetSelection { rect } => seq![4u8] + enc_rect(rect),
        RequestM::ConfirmSelection => seq![5u8],
        RequestM::Cancel => seq![6u8],
        RequestM::Status => seq![7u8],
    }
}

pub open spec fn dec_request(b: Seq<u8>, i: int) -> Option<(RequestM, int)> {
    match dec_u8(b, i) {
        Some((t, j)) => if t == 0 {
            match dec_u32(b, j) {
                Some((v, k)) => Some((RequestM::Hello(v), k)),
                None => None,
            }
        } else if t == 1 {
            Some((RequestM::ListOutputs, j))
        } else if t == 2 {
            Some((RequestM::GetUiConfig, j))
        } else if t == 3 {
            match dec_mode(b, j) {
                Some((mode, k)) => match dec_opt_target(b, k) {
                    Some((target, l)) => match dec_bool(b, l) {
                        Some((with_ui, e)) => Some(
                            (RequestM::StartCapture { mode, target, with_ui }, e),
                        ),
                        None => None,
                    },
                    None => None,
                },
                None => None,
            }
        } else if t == 4 {
            match dec_rect(b, j) {
                Some((rect, k)) => Some((RequestM::SetSelection { rect }, k)),
                None => None,
            }
        } else if t == 5 {
            Some((RequestM::ConfirmSelection, j))
        } else if t == 6 {
            Some((RequestM::Cancel, j))
        } else if t == 7 {
            Some((RequestM::Status, j))
        } else {
            None
        },
        None => None,
    }
}

/// A request the codec can frame.
pub open spec fn request_wf(m: RequestM) -> bool {
    match m {
        RequestM::StartCapture { target: Some(t), .. } => target_wf(t),
        _ => true,
    }
}

pub proof fn lemma_dec_enc_request(b: Seq<u8>, i: int, m: RequestM)
    requires
        0 <= i,
        request_wf(m),
        i + enc_request(m).len() <= b.len(),
        b.subrange(i, i + enc_request(m).len()) == enc_request(m),
    ensures
        dec_request(b, i) == Some((m, i + enc_request(m).len())),
{
    vstd::bytes::lemma_auto_spec_u32_to_from_le_bytes();
    match m {
        RequestM::Hello(v) => {
            assert(enc_u32(v).len() == 4);
            lemma_subrange_split(b, i, enc_u8(0), enc_u32(v));
            lemma_dec_enc_u8(b, i, 0);
            lemma_dec_enc_u32(b, i + 1, v);
        },
        RequestM::ListOutputs => {
            lemma_dec_enc_u8(b, i, 1);
        },
        RequestM::GetUiConfig => {
            lemma_dec_enc_u8(b, i, 2);
        },
        RequestM::StartCapture { mode, target, with_ui } => {
            let p0 = enc_u8(3);
            let p1 = enc_mode(mode);
            let p2 = enc_opt_target(target);
            let p3 = enc_bool(with_ui);
            lemma_add_assoc(p0, p1, p2);
            lemma_add_assoc(p0, p1 + p2, p3);
            lemma_add_assoc(p1, p2, p3);
            lemma_subrange_split(b, i, p0, p1 + (p2 + p3));
            lemma_dec_enc_u8(b, i, 3);
            lemma_subrange_split(b, i + 1, p1, p2 + p3);
            lemma_dec_enc_mode(b, i + 1, mode);
            let i2 = i + 1 + p1.len() as int;
            lemma_subrange_split(b, i2, p2, p3);
            lemma_dec_enc_opt_target(b, i2, target);
            lemma_dec_enc_bool(b, i2 + p2.len() as int, with_ui);
        },
        RequestM::SetSelection { rect } => {
            lemma_subrange_split(b, i, enc_u8(4), enc_rect(rect));
            lemma_dec_enc_u8(b, i, 4);
            lemma_dec_enc_rect(b, i + 1, rect);
        },
        RequestM::ConfirmSelection => {
            lemma_dec_enc_u8(b, i, 5);
        },
        RequestM::Cancel => {
            lemma_dec_enc_u8(b, i, 6);
        },
        RequestM::Status => {
            lemma_dec_enc_u8(b, i, 7);
        },
    }
}

/// A response, as one tag byte and the variant's fields.
pub open spec fn enc_response(m: ResponseM) -> Seq<u8> {
    match m {
        ResponseM::Okay => seq![0u8],
        ResponseM::Outputs { outputs } => seq![1u8] + enc_u32(outputs.len() as u32) + enc_outputs(
            outputs,
        ),
        ResponseM::UiConfig { cfg } => seq![2u8] + enc_ui_config(cfg),
        ResponseM::Status { running, active_job } => seq![3u8] + enc_bool(running) + enc_opt_mode(
            active_job,
        ),
        ResponseM::Error { message } => seq![4u8] + enc_string(message),
    }
}

pub open spec fn dec_response(b: Seq<u8>, i: int) -> Option<(ResponseM, int)> {
    match dec_u8(b, i) {
        Some((t, j)) => if t == 0 {
            Some((ResponseM::Okay, j))
        } else if t == 1 {
            match dec_u32(b, j) {
                Some((n, k)) => match dec_outputs(b, k, n as int) {
                    Some((outputs, l)) => Some((ResponseM::Outputs { outputs }, l)),
                    None => None,
                },
                None => None,
            }
        } else if t == 2 {
            match dec_ui_config(b, j) {
                Some((cfg, k)) => Some((ResponseM::UiConfig { cfg }, k)),
                None => None,
            }
        } else if t == 3 {
            match dec_bool(b, j) {
                Some((running, k)) => match dec_opt_mode(b, k) {
                    Some((active_job, l)) => Some((ResponseM::Status { running, active_job }, l)),
                    None => None,
                },
                None => None,
            }
        } else if t == 4 {
            match dec_string(b, j) {
                Some((message, k)) => Some((ResponseM::Error { message }, k)),
                None => None,
            }
        } else {
            None
        },
        None => None,
    }
}

/// A response the codec can frame.
pub open spec fn response_wf(m: ResponseM) -> bool {
    match m {
        ResponseM::Outputs { outputs } => outputs_wf(outputs),
        ResponseM::Error { message } => string_len_ok(message),
        _ => true,
    }
}

pub proof fn lemma_dec_enc_response(b: Seq<u8>, i: int, m: ResponseM)
    requires
        0 <= i,
        response_wf(m),
        i + enc_response(m).len() <= b.len(),
        b.subrange(i, i + enc_response(m).len()) == enc_response(m),
    ensures
        dec_response(b, i) == Some((m, i + enc_response(m).len())),
{
    vstd::bytes::lemma_auto_spec_u32_to_from_le_bytes();
    match m {
        ResponseM::Okay => {
            lemma_dec_enc_u8(b, i, 0);
        },
        ResponseM::Outputs { outputs } => {
            let p0 = enc_u8(1);
            let p1 = enc_u32(outputs.len() as u32);
            let p2 = enc_outputs(outputs);
            assert(p1.len() == 4);
            lemma_add_assoc(p0, p1, p2);
            lemma_subrange_split(b, i, p0, p1 + p2);
            lemma_dec_enc_u8(b, i, 1);
            lemma_subrange_split(b, i + 1, p1, p2);
            lemma_dec_enc_u32(b, i + 1, outputs.len() as u32);
            lemma_dec_enc_outputs(b, i + 5, outputs);
        },
        ResponseM::UiConfig { cfg } => {
            lemma_subrange_split(b, i, enc_u8(2), enc_ui_config(cfg));
            lemma_dec_enc_u8(b, i, 2);
            lemma_dec_enc_ui_config(b, i + 1, cfg);
        },
        ResponseM::Status { running, active_job } => {
            let p0 = enc_u8(3);
            let p1 = enc_bool(running);
            let p2 = enc_opt_mode(active_job);
            lemma_add_assoc(p0, p1, p2);
            lemma_subrange_split(b, i, p0, p1 + p2);
            lemma_dec_enc_u8(b, i, 3);
            lemma_subrange_split(b, i + 1, p1, p2);
            lemma_dec_enc_bool(b, i + 1, running);
            lemma_dec_enc_opt_mode(b, i + 2, active_job);
        },
        ResponseM::Error { message } => {
            lemma_enc_chars_len(message);
            assert(enc_u32(message.len() as u32).len() == 4);
            lemma_subrange_split(b, i, enc_u8(4), enc_string(message));
            lemma_dec_enc_u8(b, i, 4);
            lemma_dec_enc_string(b, i + 1, message);
        },
    }
}

/// An event, as one tag byte and the variant's fields.
pub open spec fn enc_event(m: EventM) -> Seq<u8> {
    match m {
        EventM::CaptureStarted { mode } => seq![0u8] + enc_mode(mode),
        EventM::CaptureFinished { path } => seq![1u8] + enc_string(path),
        EventM::CaptureFailed { message } => seq![2u8] + enc_string(message),
        EventM::SelectionPreview { rect } => seq![3u8] + enc_rect(rect),
    }
}

pub open spec fn dec_event(b: Seq<u8>, i: int) -> Option<(EventM, int)> {
    match dec_u8(b, i) {
        Some((t, j)) => if t == 0 {
            match dec_mode(b, j) {
                Some((mode, k)) => Some((EventM::CaptureStarted { mode }, k)),
                None => None,
            }
        } else if t == 1 {
            match dec_string(b, j) {
                Some((path, k)) => Some((EventM::CaptureFinished { path }, k)),
                None => None,
            }
        } else if t == 2 {
            match dec_string(b, j) {
                Some((message, k)) => Some((EventM::CaptureFailed { message }, k)),
                None => None,
            }
        } else if t == 3 {
            match dec_rect(b, j) {
                Some((rect, k)) => Some((EventM::SelectionPreview { rect }, k)),
                None => None,
            }
        } else {
            None
        },
        None => None,
    }
}

/// An event the codec can frame.
pub open spec fn event_wf(m: EventM) -> bool {
    match m {
        EventM::CaptureFinished { path } => string_len_ok(path),
        EventM::CaptureFailed { message } => string_len_ok(message),
        _ => true,
    }
}

pub proof fn lemma_dec_enc_event(b: Seq<u8>, i: int, m: EventM)
    requires
        0 <= i,
        event_wf(m),
        i + enc_event(m).len() <= b.len(),
        b.subrange(i, i + enc_event(m).len()) == enc_event(m),
    ensures
        dec_event(b, i) == Some((m, i + enc_event(m).len())),
{
    vstd::bytes::lemma_auto_spec_u32_to_from_le_bytes();
    match m {
        EventM::CaptureStarted { mode } => {
            lemma_subrange_split(b, i, enc_u8(0), enc_mode(mode));
            lemma_dec_enc_u8(b, i, 0);
            lemma_dec_enc_mode(b, i + 1, mode);
        },
        EventM::CaptureFinished { path } => {
            lemma_enc_chars_len(path);
            assert(enc_u32(path.len() as u32).len() == 4);
            lemma_subrange_split(b, i, enc_u8(1), enc_string(path));
            lemma_dec_enc_u8(b, i, 1);
            lemma_dec_enc_string(b, i + 1, path);
        },
        EventM::CaptureFailed { message } => {
            lemma_enc_chars_len(message);
            assert(enc_u32(message.len() as u32).len() == 4);
            lemma_subrange_split(b, i, enc_u8(2), enc_string(message));
            lemma_dec_enc_u8(b, i, 2);
            lemma_dec_enc_string(b, i + 1, message);
        },
        EventM::SelectionPreview { rect } => {
            lemma_subrange_split(b, i, enc_u8(3), enc_rect(rect));
            lemma_dec_enc_u8(b, i, 3);
            lemma_dec_enc_rect(b, i + 1, rect);
        },
    }
}

/// A server-to-client envelope: a response/event tag, then the payload.
pub open spec fn enc_wire(m: WireM) -> Seq<u8> {
    match m {
        WireM::Response(r) => seq![0u8] + enc_response(r),
        WireM::Event(e) => seq![1u8] + enc_event(e),
    }
}

pub open spec fn dec_wire(b: Seq<u8>, i: int) -> Option<(WireM, int)> {
    match dec_u8(b, i) {
        Some((t, j)) => if t == 0 {
            match dec_response(b, j) {
                Some((r, k)) => Some((WireM::Response(r), k)),
                None => None,
            }
        } else if t == 1 {
            match dec_event(b, j) {
                Some((e, k)) => Some((WireM::Event(e), k)),
                None => None,
            }
        } else {
            None
        },
        None => None,
    }
}

/// An envelope the codec can frame.
pub open spec fn wire_wf(m: WireM) -> bool {
    match m {
        WireM::Response(r) => response_wf(r),
        WireM::Event(e) => event_wf(e),
    }
}

pub proof fn lemma_dec_enc_wire(b: Seq<u8>, i: int, m: WireM)
    requires
        0 <= i,
        wire_wf(m),
        i + enc_wire(m).len() <= b.len(),
        b.subrange(i, i + enc_wire(m).len()) == enc_wire(m),
    ensures
        dec_wire(b, i) == Some((m, i + enc_wire(m).len())),
{
    match m {
        WireM::Response(r) => {
            lemma_subrange_split(b, i, enc_u8(0), enc_response(r));
            lemma_dec_enc_u8(b, i, 0);
            lemma_dec_enc_response(b, i + 1, r);
        },
        WireM::Event(e) => {
            lemma_subrange_split(b, i, enc_u8(1), enc_event(e));
            lemma_dec_enc_u8(b, i, 1);
            lemma_dec_enc_event(b, i + 1, e);
        },
    }
}

/// Decoding a whole buffer as a request: the parse must consume every byte.
pub open spec fn spec_decode_request(b: Seq<u8>) -> Option<RequestM> {
    match dec_request(b, 0) {
        Some((m, j)) => if j == b.len() {
            Some(m)
        } else {
            None
        },
        None => None,
    }
}

/// Decoding a whole buffer as an envelope: the parse must consume every byte.
pub open spec fn spec_decode_wire(b: Seq<u8>) -> Option<WireM> {
    match dec_wire(b, 0) {
        Some((m, j)) => if j == b.len() {
            Some(m)
        } else {
            None
        },
        None => None,
    }
}

/// Decoding an encoded request returns the original request.
pub proof fn lemma_request_round_trip(m: RequestM)
    requires
        request_wf(m),
    ensures
        spec_decode_request(enc_request(m)) == Some(m),
{
    let b = enc_request(m);
    assert(b.subrange(0, b.len() as int) =~= b);
    lemma_dec_enc_request(b, 0, m);
}

/// Decoding an encoded envelope returns the original envelope, for every
/// response and event variant inside it.
pub proof fn lemma_wire_round_trip(m: WireM)
    requires
        wire_wf(m),
    ensures
        spec_decode_wire(enc_wire(m)) == Some(m),
{
    let b = enc_wire(m);
    assert(b.subrange(0, b.len() as int) =~= b);
    lemma_dec_enc_wire(b, 0, m);
}

} // verus!
