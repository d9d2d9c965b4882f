//! The table of sample offsets. One table of fixed size is made before
//! rendering begins and shared by every pixel: sample `i` of each pixel is
//! jittered by entry `i`.

use vstd::prelude::*;
use crate::settings::SAMPLE_PER_PIXEL;

verus! {

/// A table of `SAMPLE_PER_PIXEL` offsets, each a pair of a horizontal and a
/// vertical part.
pub struct NoiseTable<T> {
    samples: Vec<(T, T)>,
}

impl<T> View for NoiseTable<T> {
    type V = Seq<(T, T)>;

    closed spec fn view(&self) -> Seq<(T, T)> {
        self.samples@
    }
}

impl<T> NoiseTable<T> {
    /// The table has one entry for each sample of a pixel.
    pub closed spec fn wf(&self) -> bool {
        self.samples@.len() == SAMPLE_PER_PIXEL
    }
}

/// Makes the table from the offsets that were drawn for it, in their order.
pub fn set_noise<T>(samples: Vec<(T, T)>) -> (table: NoiseTable<T>)
    requires
        samples@.len() == SAMPLE_PER_PIXEL,
    ensures
        table.wf(),
        table@ == samples@,
{
    NoiseTable { samples }
}

/// The horizontal offset of sample `i`.
pub fn randx<T: Copy>(table: &NoiseTable<T>, i: usize) -> (dx: T)
    requires
        table.wf(),
        i < SAMPLE_PER_PIXEL,
    ensures
        dx == table@[i as int].0,
{
    table.samples[i].0
}

/// The vertical offset of sample `i`.
pub fn randy<T: Copy>(table: &NoiseTable<T>, i: usize) -> (dy: T)
    requires
        table.wf(),
        i < SAMPLE_PER_PIXEL,
    ensures
        dy == table@[i as int].1,
{
    table.samples[i].1
}

} // verus!
