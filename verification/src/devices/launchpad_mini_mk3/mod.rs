//! Launchpad Mini MK3: a 9x9 grid controller whose controls all report
//! binary press/release events.
//!
//! Raw addresses are the two-digit values `11..=99` whose last digit is not
//! zero: the tens digit is the row counted from the bottom, the units digit
//! the column. The top row (`91..=99`) carries the named mode buttons, and
//! `19` the session/stop/mute button.

use vstd::prelude::*;

use crate::text::u8_decimal;
use crate::MidiDriverError;
use crate::MidiPhysicalPosition;

pub mod driver;
pub mod input;
pub mod output;
pub mod visual;

verus! {

/// Position of a key on the pad.
#[derive(Debug, Clone, Copy)]
pub enum LPM3Position {
    Raw(u8),
    Grid(u8, u8),
    Up,
    Down,
    Left,
    Right,
    Session,
    Drums,
    Keys,
    User,
    Logo,
    SSM,
}

/// The device name carried by this device's validation errors.
pub open spec fn spec_lpm3_name() -> Seq<char> {
    "Launchpad Mini MK3"@
}

/// The raw addresses this device actually has: two digits, neither of which
/// may make the value a multiple of ten nor push it outside `11..=99`.
pub open spec fn lpm3_raw_valid(r: u8) -> bool {
    11 <= r <= 99 && r % 10 != 0
}

impl LPM3Position {
    /// The raw address this position names, or `None` when the coordinates
    /// lie outside the device.
    ///
    /// A `Grid(x, y)` cell with `x` in `1..=9` counted from the left and `y`
    /// in `0..=8` counted from the top maps to `(9 - y) * 10 + x`; the named
    /// buttons map to the fixed addresses of the top row and `19`.
    pub open spec fn spec_raw(&self) -> Option<u8> {
        match *self {
            LPM3Position::Raw(pos) => if lpm3_raw_valid(pos) {
                Some(pos)
            } else {
                None
            },
            LPM3Position::Grid(x, y) => if 1 <= x <= 9 && y <= 8 {
                Some((((9 - y) * 10 + x)) as u8)
            } else {
                None
            },
            LPM3Position::Up => Some(91),
            LPM3Position::Down => Some(92),
            LPM3Position::Left => Some(93),
            LPM3Position::Right => Some(94),
            LPM3Position::Session => Some(95),
            LPM3Position::Drums => Some(96),
            LPM3Position::Keys => Some(97),
            LPM3Position::User => Some(98),
            LPM3Position::Logo => Some(99),
            LPM3Position::SSM => Some(19),
        }
    }

    /// Whether the position names a control of the device at all.
    pub open spec fn spec_valid(&self) -> bool {
        self.spec_raw() is Some
    }
}

fn lpm3_invalid_position(description: String) -> (e: MidiDriverError)
    ensures
        e matches MidiDriverError::InvalidPosition(device, d) && device@ == spec_lpm3_name()
            && d == description,
{
    proof {
        reveal_strlit("Launchpad Mini MK3");
    }
    MidiDriverError::InvalidPosition(String::from_str("Launchpad Mini MK3"), description)
}

fn grid_description(x: u8, y: u8) -> (s: String) {
    let mut s = String::from_str("(");
    s.append(u8_decimal(x).as_str());
    s.append(", ");
    s.append(u8_decimal(y).as_str());
    s.append(")");
    s
}

impl MidiPhysicalPosition for LPM3Position {
    /// The validated raw address of this position.
    fn to_raw(&self) -> (r: Result<u8, MidiDriverError>)
        ensures
            r matches Ok(a) ==> self.spec_raw() == Some(a),
            r matches Err(e) ==> self.spec_raw() is None && (e matches
                MidiDriverError::InvalidPosition(device, _) && device@ == spec_lpm3_name()),
    {
        match self {
            LPM3Position::Raw(pos) => {
                if *pos % 10 == 0 || *pos > 99 || *pos < 11 {
                    return Err(lpm3_invalid_position(u8_decimal(*pos)));
                }
                Ok(*pos)
            },
            LPM3Position::Grid(x, y) => {
                if *x < 1 || *x > 9 || *y > 8 {
                    return Err(lpm3_invalid_position(grid_description(*x, *y)));
                }
                Ok((9 - y) * 10 + x)
            },
            LPM3Position::Up => Ok(91),
            LPM3Position::Down => Ok(92),
            LPM3Position::Left => Ok(93),
            LPM3Position::Right => Ok(94),
            LPM3Position::Session => Ok(95),
            LPM3Position::Drums => Ok(96),
            LPM3Position::Keys => Ok(97),
            LPM3Position::User => Ok(98),
            LPM3Position::Logo => Ok(99),
            LPM3Position::SSM => Ok(19),
        }
    }
}

/// Two positions are the same control exactly when they resolve to the same
/// raw address; positions that name no control at all also compare equal to
/// each other, and never to a real one.
pub open spec fn lpm3_pos_eq(a: LPM3Position, b: LPM3Position) -> bool {
    a.spec_raw() == b.spec_raw()
}

impl PartialEq for LPM3Position {
    /// Equality by resolved raw address, never by coordinate form.
    fn eq(&self, other: &Self) -> (r: bool) {
        let a = match self.to_raw() {
            Ok(v) => Some(v),
            Err(_) => None,
        };
        let b = match other.to_raw() {
            Ok(v) => Some(v),
            Err(_) => None,
        };
        match (a, b) {
            (Some(x), Some(y)) => x == y,
            (None, None) => true,
            _ => false,
        }
    }
}

impl vstd::std_specs::cmp::PartialEqSpecImpl for LPM3Position {
    open spec fn obeys_eq_spec() -> bool {
        true
    }

    open spec fn eq_spec(&self, other: &Self) -> bool {
        lpm3_pos_eq(*self, *other)
    }
}

/// The grid mapping is injective: distinct cells name distinct controls.
/// (The named buttons deliberately alias the top grid row, and `Raw` can
/// spell any address, so injectivity is per coordinate form.)
pub proof fn lemma_lpm3_grid_injective(x1: u8, y1: u8, x2: u8, y2: u8)
    requires
        1 <= x1 <= 9,
        y1 <= 8,
        1 <= x2 <= 9,
        y2 <= 8,
        x1 != x2 || y1 != y2,
    ensures
        LPM3Position::Grid(x1, y1).spec_raw() != LPM3Position::Grid(x2, y2).spec_raw(),
{
}

/// Two valid positions with the same raw address compare equal, whatever
/// coordinate form each is written in.
pub proof fn lemma_lpm3_position_eq_by_raw(p1: LPM3Position, p2: LPM3Position)
    requires
        p1.spec_raw() is Some,
        p1.spec_raw() == p2.spec_raw(),
    ensures
        lpm3_pos_eq(p1, p2),
{
}

} // verus!
