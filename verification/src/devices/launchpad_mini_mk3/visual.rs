//! Desired appearance of one pad: off, a palette colour, a two-phase flash,
//! a pulse, or a full RGB triple.

use vstd::prelude::*;

use crate::devices::launchpad_mini_mk3::lpm3_pos_eq;
use crate::devices::launchpad_mini_mk3::spec_lpm3_name;
use crate::devices::launchpad_mini_mk3::LPM3Position;
use crate::MidiDriverError;
use crate::MidiPhysicalPosition;
use crate::MidiVisual;

verus! {

/// One visual element of the pad, carrying the position it applies to.
#[derive(Debug, Clone, Copy)]
pub enum LPM3Visual {
    Off(LPM3Position),
    Static(LPM3Position, u8),
    Flashing(LPM3Position, u8, u8),
    Pulsing(LPM3Position, u8),
    RGB(LPM3Position, u8, u8, u8),
}

impl LPM3Visual {
    /// The position this visual applies to.
    pub open spec fn spec_pos(&self) -> LPM3Position {
        match *self {
            LPM3Visual::Off(p) => p,
            LPM3Visual::Static(p, _) => p,
            LPM3Visual::Flashing(p, _, _) => p,
            LPM3Visual::Pulsing(p, _) => p,
            LPM3Visual::RGB(p, _, _, _) => p,
        }
    }

    /// The raw address this visual applies to, when its position is valid.
    pub open spec fn spec_raw(&self) -> Option<u8> {
        self.spec_pos().spec_raw()
    }

    /// Whether this visual leaves the pad dark.
    pub open spec fn spec_is_default(&self) -> bool {
        match *self {
            LPM3Visual::Off(_) => true,
            LPM3Visual::Static(_, v) => v == 0,
            LPM3Visual::Flashing(_, a, b) => a == 0 && b == 0,
            LPM3Visual::Pulsing(_, v) => v == 0,
            LPM3Visual::RGB(_, r, g, b) => r == 0 && g == 0 && b == 0,
        }
    }
}

/// Structural equality of visuals, with positions compared by raw address.
pub open spec fn lpm3_visual_eq(a: LPM3Visual, b: LPM3Visual) -> bool {
    match (a, b) {
        (LPM3Visual::Off(p), LPM3Visual::Off(q)) => lpm3_pos_eq(p, q),
        (LPM3Visual::Static(p, c), LPM3Visual::Static(q, d)) => lpm3_pos_eq(p, q) && c == d,
        (
            LPM3Visual::Flashing(p, a1, b1),
            LPM3Visual::Flashing(q, a2, b2),
        ) => lpm3_pos_eq(p, q) && a1 == a2 && b1 == b2,
        (LPM3Visual::Pulsing(p, c), LPM3Visual::Pulsing(q, d)) => lpm3_pos_eq(p, q) && c == d,
        (
            LPM3Visual::RGB(p, r1, g1, b1),
            LPM3Visual::RGB(q, r2, g2, b2),
        ) => lpm3_pos_eq(p, q) && r1 == r2 && g1 == g2 && b1 == b2,
        _ => false,
    }
}

impl PartialEq for LPM3Visual {
    /// Structural equality; the carried positions compare by raw address.
    fn eq(&self, other: &Self) -> (r: bool) {
        match (self, other) {
            (LPM3Visual::Off(p), LPM3Visual::Off(q)) => p == q,
            (LPM3Visual::Static(p, c), LPM3Visual::Static(q, d)) => p == q && *c == *d,
            (LPM3Visual::Flashing(p, a1, b1), LPM3Visual::Flashing(q, a2, b2)) => p == q
                && *a1 == *a2 && *b1 == *b2,
            (LPM3Visual::Pulsing(p, c), LPM3Visual::Pulsing(q, d)) => p == q && *c == *d,
            (LPM3Visual::RGB(p, r1, g1, b1), LPM3Visual::RGB(q, r2, g2, b2)) => p == q
                && *r1 == *r2 && *g1 == *g2 && *b1 == *b2,
            _ => false,
        }
    }
}

impl vstd::std_specs::cmp::PartialEqSpecImpl for LPM3Visual {
    open spec fn obeys_eq_spec() -> bool {
        true
    }

    open spec fn eq_spec(&self, other: &Self) -> bool {
        lpm3_visual_eq(*self, *other)
    }
}

impl MidiVisual for LPM3Visual {
    /// The validated raw address of the position this visual carries.
    fn get_raw_pos(&self) -> (r: Result<u8, MidiDriverError>)
        ensures
            r matches Ok(a) ==> self.spec_raw() == Some(a),
            r matches Err(e) ==> self.spec_raw() is None && (e matches
                MidiDriverError::InvalidPosition(device, _) && device@ == spec_lpm3_name()),
    {
        match self {
            LPM3Visual::Off(p) => p.to_raw(),
            LPM3Visual::Static(p, _) => p.to_raw(),
            LPM3Visual::Flashing(p, _, _) => p.to_raw(),
            LPM3Visual::Pulsing(p, _) => p.to_raw(),
            LPM3Visual::RGB(p, _, _, _) => p.to_raw(),
        }
    }

    /// Whether this visual leaves the pad dark.
    fn is_default(&self) -> (r: bool)
        ensures
            r == self.spec_is_default(),
    {
        match self {
            LPM3Visual::Off(_) => true,
            LPM3Visual::Static(_, v) => *v == 0,
            LPM3Visual::Flashing(_, a, b) => *a == 0 && *b == 0,
            LPM3Visual::Pulsing(_, v) => *v == 0,
            LPM3Visual::RGB(_, r, g, b) => *r == 0 && *g == 0 && *b == 0,
        }
    }

    /// The absorption policy of this device: a queued visual is redundant
    /// exactly when it equals the currently effective one.
    fn is_absorbed(&self, absorber: &Self) -> (r: bool)
        ensures
            r == lpm3_visual_eq(*self, *absorber),
    {
        self == absorber
    }
}

} // verus!
