//! Decisions behind desktop notifications.  Delivering them over the
//! session bus is the surrounding application's best-effort work; the
//! urgency and timeout each kind earns is decided here.

use vstd::prelude::*;

verus! {

/// The kind of a notification.
#[derive(Debug, Clone, Copy, PartialEq, Eq, Structural)]
pub enum Kind {
    Info,
    Error,
}

/// The freedesktop urgency level of a notification kind: normal for
/// information, critical for errors.
pub fn urgency(kind: Kind) -> (r: u8)
    ensures
        r == (match kind {
            Kind::Info => 1u8,
            Kind::Error => 2u8,
        }),
{
    match kind {
        Kind::Info => 1,
        Kind::Error => 2,
    }
}

/// How long a notification of this kind stays up, in milliseconds.
pub fn default_timeout_ms(kind: Kind) -> (r: i32)
    ensures
        r == (match kind {
            Kind::Info => 2500i32,
            Kind::Error => 6000i32,
        }),
{
    match kind {
        Kind::Info => 2500,
        Kind::Error => 6000,
    }
}

} // verus!
