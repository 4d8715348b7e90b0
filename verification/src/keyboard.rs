//! The keyboard of the terminal.

use vstd::prelude::*;

verus! {

/// The keyboard from which the keys are read.
#[derive(Debug, Clone, Copy, PartialEq, Eq, Structural)]
pub struct Keyboard;

} // verus!
