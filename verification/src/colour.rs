//! ARGB colour helpers (`0xAARRGGBB`) for deriving the bar's widget
//! colours from a single configured background.

use vstd::prelude::*;

verus! {

pub open spec fn spec_a(c: u32) -> u8 {
    ((c >> 24) & 0xFF) as u8
}

pub open spec fn spec_r(c: u32) -> u8 {
    ((c >> 16) & 0xFF) as u8
}

pub open spec fn spec_g(c: u32) -> u8 {
    ((c >> 8) & 0xFF) as u8
}

pub open spec fn spec_b(c: u32) -> u8 {
    (c & 0xFF) as u8
}

/// The colour word the four channels spell.
pub open spec fn spec_argb(a0: u8, r0: u8, g0: u8, b0: u8) -> u32 {
    ((a0 as u32) << 24) | ((r0 as u32) << 16) | ((g0 as u32) << 8) | (b0 as u32)
}

/// Alpha channel of an ARGB word.
pub fn a(argb0: u32) -> (r0: u8)
    ensures
        r0 == spec_a(argb0),
{
    ((argb0 >> 24) & 0xFF) as u8
}

/// Red channel of an ARGB word.
pub fn r(argb0: u32) -> (r0: u8)
    ensures
        r0 == spec_r(argb0),
{
    ((argb0 >> 16) & 0xFF) as u8
}

/// Green channel of an ARGB word.
pub fn g(argb0: u32) -> (r0: u8)
    ensures
        r0 == spec_g(argb0),
{
    ((argb0 >> 8) & 0xFF) as u8
}

/// Blue channel of an ARGB word.
pub fn b(argb0: u32) -> (r0: u8)
    ensures
        r0 == spec_b(argb0),
{
    (argb0 & 0xFF) as u8
}

/// Pack four channels into an ARGB word.
pub fn argb(a0: u8, r0: u8, g0: u8, b0: u8) -> (c: u32)
    ensures
        c == spec_argb(a0, r0, g0, b0),
{
    ((a0 as u32) << 24) | ((r0 as u32) << 16) | ((g0 as u32) << 8) | (b0 as u32)
}

pub open spec fn spec_clamp_u8(v: int) -> u8 {
    if v < 0 {
        0
    } else if v > 255 {
        255
    } else {
        v as u8
    }
}

/// Clamp a signed channel value into a byte.
pub fn clamp_u8(v: i32) -> (r0: u8)
    ensures
        r0 == spec_clamp_u8(v as int),
{
    if v < 0 {
        0
    } else if v > 255 {
        255
    } else {
        v as u8
    }
}

/// Each colour channel moved by `delta` and clamped; alpha kept.
pub open spec fn spec_shift_rgb(base: u32, delta: int) -> u32 {
    spec_argb(
        spec_a(base),
        spec_clamp_u8(spec_r(base) as int + delta),
        spec_clamp_u8(spec_g(base) as int + delta),
        spec_clamp_u8(spec_b(base) as int + delta),
    )
}

/// Additive lighten/darken by a signed per-channel delta; alpha unchanged.
pub fn shift_rgb(base: u32, delta: i16) -> (c: u32)
    ensures
        c == spec_shift_rgb(base, delta as int),
{
    let aa = a(base);
    let rr = clamp_u8(r(base) as i32 + delta as i32);
    let gg = clamp_u8(g(base) as i32 + delta as i32);
    let bb = clamp_u8(b(base) as i32 + delta as i32);
    argb(aa, rr, gg, bb)
}

/// Lighten a colour by a small amount.
pub fn lighten(base: u32, amount: u8) -> (c: u32)
    ensures
        c == spec_shift_rgb(base, amount as int),
{
    shift_rgb(base, amount as i16)
}

/// Darken a colour by a small amount.
pub fn darken(base: u32, amount: u8) -> (c: u32)
    ensures
        c == spec_shift_rgb(base, -(amount as int)),
{
    shift_rgb(base, -(amount as i16))
}

/// Keep a colour's RGB and replace its alpha.
pub fn with_alpha(accent: u32, alpha: u8) -> (c: u32)
    ensures
        c == ((accent & 0x00FF_FFFF) | ((alpha as u32) << 24)),
{
    (accent & 0x00FF_FFFF) | ((alpha as u32) << 24)
}

/// The widget colours the bar derives from its background.
#[derive(Clone, Copy, Debug, PartialEq, Eq, Structural)]
pub struct SlotColours {
    pub idle: u32,
    pub hover: u32,
    pub selected: u32,
    pub disabled: u32,
    pub disabled_border: u32,
    pub border: u32,
}

/// Derive the slot colours from the bar background: subtle lightenings for
/// the interactive states and darkenings for borders and disabled slots.
pub fn derive_slot_colours(bar_bg: u32) -> (sc: SlotColours)
    ensures
        sc == (SlotColours {
            idle: spec_shift_rgb(bar_bg, 8),
            hover: spec_shift_rgb(bar_bg, 16),
            selected: spec_shift_rgb(bar_bg, 26),
            disabled: spec_shift_rgb(bar_bg, -6),
            disabled_border: spec_shift_rgb(bar_bg, -14),
            border: spec_shift_rgb(bar_bg, -18),
        }),
{
    let border = darken(bar_bg, 18);
    SlotColours {
        idle: lighten(bar_bg, 8),
        hover: lighten(bar_bg, 16),
        selected: lighten(bar_bg, 26),
        disabled: darken(bar_bg, 6),
        disabled_border: darken(bar_bg, 14),
        border,
    }
}

} // verus!
