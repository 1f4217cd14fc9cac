//! The matrix view on the pad. Its drawing rules are not written yet: both
//! operations leave the model and the driver exactly as they were.

use vstd::prelude::*;

use crate::devices::launchpad_mini_mk3::driver::LPM3Driver;
use crate::model::TinModel;
use crate::MidiDriverError;

verus! {

/// Paints the focused song's matrix onto the pad.
pub struct ViewLPM3Matrix {}

impl ViewLPM3Matrix {
    /// A fresh view with nothing drawn yet.
    pub fn new() -> (r: Self)
        ensures
            r == (ViewLPM3Matrix {  }),
    {
        Self {  }
    }

    /// Feeds the pad's input back into the model. Nothing reacts yet.
    pub fn update(&mut self, tin: &mut TinModel, lpm3: &mut LPM3Driver) -> (r: Result<
        (),
        MidiDriverError,
    >)
        ensures
            r is Ok,
            *final(tin) == *old(tin),
            *final(lpm3) == *old(lpm3),
    {
        Ok(())
    }

    /// Queues the visuals of the focused song's matrix. Nothing is drawn
    /// yet.
    pub fn draw(&self, tin: &TinModel, lpm3: &mut LPM3Driver) -> (r: Result<(), MidiDriverError>)
        ensures
            r is Ok,
            *final(lpm3) == *old(lpm3),
    {
        Ok(())
    }
}

} // verus!
