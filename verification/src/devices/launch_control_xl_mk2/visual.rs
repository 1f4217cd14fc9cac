//! Desired appearance of one LED: off, or a red/green palette pair.

use vstd::prelude::*;

use crate::devices::launch_control_xl_mk2::lcxl2_pos_eq;
use crate::devices::launch_control_xl_mk2::spec_lcxl2_name;
use crate::devices::launch_control_xl_mk2::LCXL2Position;
use crate::MidiDriverError;
use crate::MidiPhysicalPosition;
use crate::MidiVisual;

verus! {

/// One visual element of the device, carrying the position it applies to.
/// `Static` carries the red and green channels, each valid in `0..=3`.
#[derive(Debug, Clone, Copy)]
pub enum LCXL2Visual {
    Off(LCXL2Position),
    Static(LCXL2Position, u8, u8),
}

impl LCXL2Visual {
    /// The position this visual applies to.
    pub open spec fn spec_pos(&self) -> LCXL2Position {
        match *self {
            LCXL2Visual::Off(p) => p,
            LCXL2Visual::Static(p, _, _) => p,
        }
    }

    /// The raw address this visual applies to, when its position is valid.
    pub open spec fn spec_raw(&self) -> Option<u8> {
        self.spec_pos().spec_raw()
    }

    /// Whether this visual leaves the LED dark.
    pub open spec fn spec_is_default(&self) -> bool {
        match *self {
            LCXL2Visual::Off(_) => true,
            LCXL2Visual::Static(_, r, g) => r == 0 && g == 0,
        }
    }
}

/// Structural equality of visuals, with positions compared by raw address.
pub open spec fn lcxl2_visual_eq(a: LCXL2Visual, b: LCXL2Visual) -> bool {
    match (a, b) {
        (LCXL2Visual::Off(p), LCXL2Visual::Off(q)) => lcxl2_pos_eq(p, q),
        (LCXL2Visual::Static(p, r1, g1), LCXL2Visual::Static(q, r2, g2)) => lcxl2_pos_eq(p, q)
            && r1 == r2 && g1 == g2,
        _ => false,
    }
}

impl PartialEq for LCXL2Visual {
    /// Structural equality; the carried positions compare by raw address.
    fn eq(&self, other: &Self) -> (r: bool) {
        match (self, other) {
            (LCXL2Visual::Off(p), LCXL2Visual::Off(q)) => p == q,
            (LCXL2Visual::Static(p, r1, g1), LCXL2Visual::Static(q, r2, g2)) => p == q && *r1
                == *r2 && *g1 == *g2,
            _ => false,
        }
    }
}

impl vstd::std_specs::cmp::PartialEqSpecImpl for LCXL2Visual {
    open spec fn obeys_eq_spec() -> bool {
        true
    }

    open spec fn eq_spec(&self, other: &Self) -> bool {
        lcxl2_visual_eq(*self, *other)
    }
}

impl MidiVisual for LCXL2Visual {
    /// The validated raw address of the position this visual carries.
    fn get_raw_pos(&self) -> (r: Result<u8, MidiDriverError>)
        ensures
            r matches Ok(a) ==> self.spec_raw() == Some(a),
            r matches Err(e) ==> self.spec_raw() is None && (e matches
                MidiDriverError::InvalidPosition(device, _) && device@ == spec_lcxl2_name()),
    {
        match self {
            LCXL2Visual::Off(p) => p.to_raw(),
            LCXL2Visual::Static(p, _, _) => p.to_raw(),
        }
    }

    /// Whether this visual leaves the LED dark.
    fn is_default(&self) -> (r: bool)
        ensures
            r == self.spec_is_default(),
    {
        match self {
            LCXL2Visual::Off(_) => true,
            LCXL2Visual::Static(_, r, g) => *r == 0 && *g == 0,
        }
    }

    /// The absorption policy of this device: a queued visual is redundant
    /// exactly when it equals the currently effective one.
    fn is_absorbed(&self, absorber: &Self) -> (r: bool)
        ensures
            r == lcxl2_visual_eq(*self, *absorber),
    {
        self == absorber
    }
}

} // verus!
