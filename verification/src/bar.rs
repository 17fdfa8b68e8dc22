//! The floating bar's layout decisions: three equal slots, hit-tested by
//! pointer position.  Rendering and Wayland plumbing stay in the
//! surrounding application.

use vstd::prelude::*;

use crate::protocol::Mode;

verus! {

/// Width of the bar surface, in logical pixels.
pub const BAR_W: i32 = 420;

/// Height of the bar surface.
pub const BAR_H: i32 = 80;

/// Width of one of the three slots.
pub const SLOT: i32 = 140;

/// Gap kept between the bar and the bottom screen edge.
pub const BAR_MARGIN_BOTTOM: i32 = 24;

/// Corner radius of the bar shape.
pub const RADIUS: i32 = 16;

/// One of the bar's three slots.
#[derive(Clone, Copy, Debug, PartialEq, Eq, Structural)]
pub enum Choice {
    Region,
    Screen,
    Window,
}

impl Choice {
    /// The capture mode a slot stands for.
    pub fn to_mode(self) -> (r: Mode)
        ensures
            r == (match self {
                Choice::Region => Mode::Region,
                Choice::Screen => Mode::Screen,
                Choice::Window => Mode::Window,
            }),
    {
        match self {
            Choice::Region => Mode::Region,
            Choice::Screen => Mode::Screen,
            Choice::Window => Mode::Window,
        }
    }
}

/// The slot under a pointer position on the bar surface, slot by thirds;
/// `None` outside the bar.
pub fn hit_choice(x: i32, y: i32) -> (r: Option<Choice>)
    ensures
        (match r {
            Some(Choice::Region) => 0 <= y < BAR_H && 0 <= x < SLOT,
            Some(Choice::Screen) => 0 <= y < BAR_H && SLOT <= x < 2 * SLOT,
            Some(Choice::Window) => 0 <= y < BAR_H && 2 * SLOT <= x < BAR_W,
            None => !(0 <= y < BAR_H) || !(0 <= x < BAR_W),
        }),
{
    if y < 0 || y >= BAR_H {
        return None;
    }
    if x < 0 || x >= BAR_W {
        return None;
    }
    let slot_idx = x / SLOT;
    if slot_idx == 0 {
        Some(Choice::Region)
    } else if slot_idx == 1 {
        Some(Choice::Screen)
    } else {
        Some(Choice::Window)
    }
}

/// What a confirm press on the bar picks: the selected slot, else the
/// hovered one; a window pick is refused while window capture is
/// unsupported, and no pick means the press does nothing.
pub fn confirm_choice(selected: Option<Choice>, hover: Option<Choice>, window_supported: bool) -> (
    r: Option<Mode>)
    ensures
        (match (match selected {
            Some(c) => Some(c),
            None => hover,
        }) {
            Some(Choice::Window) => r == (if window_supported {
                Some(Mode::Window)
            } else {
                None::<Mode>
            }),
            Some(Choice::Region) => r == Some(Mode::Region),
            Some(Choice::Screen) => r == Some(Mode::Screen),
            None => r is None,
        }),
{
    let picked = match selected {
        Some(c) => Some(c),
        None => hover,
    };
    match picked {
        Some(Choice::Window) => {
            if window_supported {
                Some(Mode::Window)
            } else {
                None
            }
        },
        Some(c) => Some(c.to_mode()),
        None => None,
    }
}

} // verus!
