//! Launch Control XL MK2: a mixer-style controller with three rows of
//! knobs, eight sliders, two rows of bottom buttons and eight side buttons.
//!
//! Raw addresses are `0..=55`: knobs at `0..=23`, bottom buttons at
//! `24..=39`, side buttons at `40..=47` and sliders at `48..=55`. The
//! analog-capable controls (knobs and sliders) are exactly the addresses
//! outside `24..48`.

use vstd::prelude::*;

use crate::text::u8_decimal;
use crate::MidiDriverError;
use crate::MidiPhysicalPosition;

pub mod driver;
pub mod input;
pub mod output;
pub mod visual;

pub use driver::LCXL2Driver;
pub use input::LCXL2InputMessage;
pub use output::LCXL2OutputMessage;
pub use visual::LCXL2Visual;

verus! {

/// Position of a control on the device.
#[derive(Debug, Clone, Copy)]
pub enum LCXL2Position {
    Raw(u8),
    Knob(u8, u8),
    Slider(u8),
    Bottom(u8, u8),
    Up,
    Down,
    Left,
    Right,
    Device,
    Mute,
    Solo,
    Record,
}

/// The device name carried by this device's validation errors.
pub open spec fn spec_lcxl2_name() -> Seq<char> {
    "Launch Control XL MK2"@
}

/// The raw addresses this device actually has.
pub open spec fn lcxl2_raw_valid(r: u8) -> bool {
    r <= 55
}

/// The analog-capable addresses: knobs and sliders, which report a
/// continuous value, as opposed to the buttons at `24..48`.
pub open spec fn lcxl2_analog_raw(r: u8) -> bool {
    !(24 <= r < 48)
}

impl LCXL2Position {
    /// The raw address this position names, or `None` when the coordinates
    /// lie outside the device.
    ///
    /// Knob `(x, y)` with `x` in `1..=8` and row `y` in `1..=3` maps to
    /// `(y - 1) * 8 + (x - 1)`; slider `n` in `1..=8` to `47 + n`; bottom
    /// button `(x, y)` with row `y` in `1..=2` to `24 + (y - 1) * 8 +
    /// (x - 1)`; the eight named side buttons to `40..=47`.
    pub open spec fn spec_raw(&self) -> Option<u8> {
        match *self {
            LCXL2Position::Raw(pos) => if lcxl2_raw_valid(pos) {
                Some(pos)
            } else {
                None
            },
            LCXL2Position::Knob(x, y) => if 1 <= x <= 8 && 1 <= y <= 3 {
                Some((((y - 1) * 8 + (x - 1))) as u8)
            } else {
                None
            },
            LCXL2Position::Slider(pos) => if 1 <= pos <= 8 {
                Some((47 + pos) as u8)
            } else {
                None
            },
            LCXL2Position::Bottom(x, y) => if 1 <= x <= 8 && 1 <= y <= 2 {
                Some((24 + (y - 1) * 8 + (x - 1)) as u8)
            } else {
                None
            },
            LCXL2Position::Up => Some(44),
            LCXL2Position::Down => Some(45),
            LCXL2Position::Left => Some(46),
            LCXL2Position::Right => Some(47),
            LCXL2Position::Device => Some(40),
            LCXL2Position::Mute => Some(41),
            LCXL2Position::Solo => Some(42),
            LCXL2Position::Record => Some(43),
        }
    }

    /// Whether the position names a control of the device at all.
    pub open spec fn spec_valid(&self) -> bool {
        self.spec_raw() is Some
    }

    /// Whether this position is an analog-capable control.
    pub fn is_analog(&self) -> (r: Result<bool, MidiDriverError>)
        ensures
            self.spec_raw() matches Some(a) ==> r == Ok::<bool, MidiDriverError>(
                lcxl2_analog_raw(a),
            ),
            self.spec_raw() is None ==> (r matches Err(e) && e is InvalidPosition),
    {
        match self.to_raw() {
            Ok(raw) => Ok(Self::is_analog_raw(&raw)),
            Err(e) => Err(e),
        }
    }

    /// Whether a raw address is an analog-capable control.
    pub fn is_analog_raw(raw: &u8) -> (r: bool)
        ensures
            r == lcxl2_analog_raw(*raw),
    {
        !(24 <= *raw && *raw < 48)
    }
}

pub(crate) fn lcxl2_invalid_position(description: String) -> (e: MidiDriverError)
    ensures
        e matches MidiDriverError::InvalidPosition(device, d) && device@ == spec_lcxl2_name()
            && d == description,
{
    proof {
        reveal_strlit("Launch Control XL MK2");
    }
    MidiDriverError::InvalidPosition(String::from_str("Launch Control XL MK2"), description)
}

fn pair_description(prefix: &str, x: u8, y: u8) -> (s: String) {
    let mut s = String::from_str(prefix);
    s.append("(");
    s.append(u8_decimal(x).as_str());
    s.append(", ");
    s.append(u8_decimal(y).as_str());
    s.append(")");
    s
}

impl MidiPhysicalPosition for LCXL2Position {
    /// The validated raw address of this position.
    fn to_raw(&self) -> (r: Result<u8, MidiDriverError>)
        ensures
            r matches Ok(a) ==> self.spec_raw() == Some(a),
            r matches Err(e) ==> self.spec_raw() is None && (e matches
                MidiDriverError::InvalidPosition(device, _) && device@ == spec_lcxl2_name()),
    {
        match self {
            LCXL2Position::Raw(pos) => {
                if *pos > 55 {
                    return Err(lcxl2_invalid_position(u8_decimal(*pos)));
                }
                Ok(*pos)
            },
            LCXL2Position::Knob(x, y) => {
                if *x < 1 || *x > 8 || *y < 1 || *y > 3 {
                    return Err(lcxl2_invalid_position(pair_description("Knob ", *x, *y)));
                }
                Ok((y - 1) * 8 + (x - 1))
            },
            LCXL2Position::Slider(pos) => {
                if *pos < 1 || *pos > 8 {
                    let mut d = String::from_str("Slider ");
                    d.append(u8_decimal(*pos).as_str());
                    return Err(lcxl2_invalid_position(d));
                }
                Ok(47 + *pos)
            },
            LCXL2Position::Bottom(x, y) => {
                if *x < 1 || *x > 8 || *y < 1 || *y > 2 {
                    return Err(lcxl2_invalid_position(pair_description("Bottom ", *x, *y)));
                }
                Ok(24 + (y - 1) * 8 + (x - 1))
            },
            LCXL2Position::Up => Ok(44),
            LCXL2Position::Down => Ok(45),
            LCXL2Position::Left => Ok(46),
            LCXL2Position::Right => Ok(47),
            LCXL2Position::Device => Ok(40),
            LCXL2Position::Mute => Ok(41),
            LCXL2Position::Solo => Ok(42),
            LCXL2Position::Record => Ok(43),
        }
    }
}

/// Two positions are the same control exactly when they resolve to the same
/// raw address; positions that name no control at all also compare equal to
/// each other, and never to a real one.
pub open spec fn lcxl2_pos_eq(a: LCXL2Position, b: LCXL2Position) -> bool {
    a.spec_raw() == b.spec_raw()
}

impl PartialEq for LCXL2Position {
    /// Equality by resolved raw address, never by coordinate form.
    fn eq(&self, other: &Self) -> (r: bool) {
        let a = match self.to_raw() {
            Ok(v) => Some(v),
            Err(_) => None,
        };
        let b = match other.to_raw() {
            Ok(v) => Some(v),
            Err(_) => None,
        };
        match (a, b) {
            (Some(x), Some(y)) => x == y,
            (None, None) => true,
            _ => false,
        }
    }
}

impl vstd::std_specs::cmp::PartialEqSpecImpl for LCXL2Position {
    open spec fn obeys_eq_spec() -> bool {
        true
    }

    open spec fn eq_spec(&self, other: &Self) -> bool {
        lcxl2_pos_eq(*self, *other)
    }
}

/// The coordinate mapping is injective: distinct valid positions in
/// coordinate form name distinct controls. (Only `Raw` can alias another
/// form, since it can spell any address directly.)
pub proof fn lemma_lcxl2_to_raw_injective(p1: LCXL2Position, p2: LCXL2Position)
    requires
        p1.spec_valid(),
        p2.spec_valid(),
        !(p1 is Raw),
        !(p2 is Raw),
        p1 != p2,
    ensures
        p1.spec_raw() != p2.spec_raw(),
{
}

/// Two valid positions with the same raw address compare equal, whatever
/// coordinate form each is written in.
pub proof fn lemma_lcxl2_position_eq_by_raw(p1: LCXL2Position, p2: LCXL2Position)
    requires
        p1.spec_raw() is Some,
        p1.spec_raw() == p2.spec_raw(),
    ensures
        lcxl2_pos_eq(p1, p2),
{
}

} // verus!
