//! Rendering settings shared by every stage.

use vstd::prelude::*;

verus! {

/// Image width in pixels.
pub const WIDTH: usize = 1200;

/// Image height in pixels: the width at an aspect ratio of three to two.
pub const HEIGHT: usize = 800;

/// Number of jittered samples averaged into one pixel.
pub const SAMPLE_PER_PIXEL: usize = 500;

/// Number of bounces after which a light path is cut off.
pub const MAX_DEPTH: usize = 50;

/// Upper bound on display refreshes per second.
pub const UPDATE_RATE: u64 = 30;

/// Length of one display time slice, in microseconds.
pub const MICRO_BETWEEN_FRAME: u64 = 1_000_000 / UPDATE_RATE;

} // verus!
