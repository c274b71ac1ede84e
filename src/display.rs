//! The presentation layer's side of the interpreter: what a front end that
//! shows the display and feeds the keypad provides.

use vstd::prelude::*;
use crate::chip::Chip;

verus! {

/// A front end: draws the machine's display and passes host input to it.
pub trait Display {
    /// Shows the machine's current display.
    fn draw(&mut self, chip: &Chip);

    /// Handles pending host events and passes key state to the machine.
    fn update(&mut self, chip: &mut Chip);

    /// Whether the user has asked to close the front end.
    fn should_close(&self) -> bool;
}

} // verus!
