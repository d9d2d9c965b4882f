//! An order in which to visit the pixels that scatters neighbouring jobs over
//! the image: job `xy` goes to ten times its index, wrapped round one more
//! than the number of pixels, read column by column.

use vstd::prelude::*;
use vstd::arithmetic::div_mod::lemma_fundamental_div_mod;
use crate::settings::{HEIGHT, WIDTH};

verus! {

/// The stride between consecutive jobs.
pub const STRIDE: usize = 10;

/// The position on the curve of job `xy`, before it is split into a column
/// and a row.
pub open spec fn curve_position(xy: int) -> int {
    (xy * STRIDE) % (WIDTH * HEIGHT + 1)
}

/// The column and row of job `xy`.
pub open spec fn curve_point(xy: int) -> (int, int) {
    (curve_position(xy) / (HEIGHT as int), curve_position(xy) % (HEIGHT as int))
}

/// The column and row that job `xy` renders. The row is inside the image; the
/// column is at most the image's width, which it reaches for one job only.
pub fn filling_curve(xy: usize) -> (point: (usize, usize))
    requires
        xy < WIDTH * HEIGHT,
    ensures
        (point.0 as int, point.1 as int) == curve_point(xy as int),
        point.0 <= WIDTH,
        point.1 < HEIGHT,
{
    let position: usize = (xy * STRIDE) % (WIDTH * HEIGHT + 1);
    let y: usize = position % HEIGHT;
    let x: usize = position / HEIGHT;
    (x, y)
}

/// No two jobs share a point: the curve visits every point at most once.
pub proof fn lemma_curve_visits_once(a: int, b: int)
    requires
        0 <= a < WIDTH * HEIGHT,
        0 <= b < WIDTH * HEIGHT,
        curve_point(a) == curve_point(b),
    ensures
        a == b,
{
    let m: int = WIDTH * HEIGHT + 1;
    let (pa, pb) = (curve_position(a), curve_position(b));
    lemma_fundamental_div_mod(pa, 800);
    lemma_fundamental_div_mod(pb, 800);
    assert(pa == pb);
    let (qa, qb) = ((a * 10) / 960001, (b * 10) / 960001);
    lemma_fundamental_div_mod(a * 10, 960001);
    lemma_fundamental_div_mod(b * 10, 960001);
    assert((a - b) * 10 == (qa - qb) * 960001);
}

} // verus!
