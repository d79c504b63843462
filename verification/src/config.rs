//! The constants an explorer of the set is configured with.
use vstd::prelude::*;

verus! {

/// Width of the pixel grid.
pub const WIDTH: usize = 500;

/// Height of the pixel grid.
pub const HEIGHT: usize = 500;

/// Largest number of steps of the iteration tried on a point.
pub const ITER: usize = 100;

/// Zoom factor of one frame at the nominal frame rate: `1.005` in
/// fixed-point units.
pub const ZOOM: i64 = 4526117625507348;

/// Nominal frame rate, in frames per second.
pub const FRAMERATE: u64 = 60;

/// Fraction of the way the centre moves toward the cursor in one frame:
/// `0.1` in fixed-point units.
pub const SMOOTHING: i64 = 450359962737050;

} // verus!
