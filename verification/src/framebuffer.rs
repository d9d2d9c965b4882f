//! The framebuffer: a flat, row-major array of packed pixels that a single
//! writer fills in as pixel results arrive, in whatever order they arrive.

use vstd::prelude::*;
use crate::pixel::{channels, from_u8_0rgb, packed, to_rgb};

verus! {

/// Why a framebuffer could not be set up.
#[derive(Debug, Clone, Copy, PartialEq, Eq, Structural)]
pub enum ConfigError {
    /// The image has no pixels: its width or its height is zero.
    EmptyImage,
    /// The number of pixels does not fit the machine's address space.
    TooLarge,
}

/// A finished pixel: its index in the framebuffer and its three channels.
pub type PixelResult = (usize, (u8, u8, u8));

/// The packed word that a pixel result stores.
pub open spec fn word_of(result: PixelResult) -> u32 {
    packed(result.1.0, result.1.1, result.1.2) as u32
}

/// The pixels after the given results were written one after another, the
/// first of the sequence first.
pub open spec fn written(pixels: Seq<u32>, results: Seq<PixelResult>) -> Seq<u32>
    decreases results.len(),
{
    if results.len() == 0 {
        pixels
    } else {
        written(pixels, results.drop_last()).update(
            results.last().0 as int,
            word_of(results.last()),
        )
    }
}

/// No two results are for the same pixel.
pub open spec fn each_index_once(results: Seq<PixelResult>) -> bool {
    forall|i: int, j: int| 0 <= i < j < results.len() ==> results[i].0 != results[j].0
}

/// Every result is for a pixel of an image with `len` pixels.
pub open spec fn within(results: Seq<PixelResult>, len: nat) -> bool {
    forall|i: int| 0 <= i < results.len() ==> (#[trigger] results[i]).0 < len
}

/// Some result is for pixel `xy`.
pub open spec fn writes_to(results: Seq<PixelResult>, xy: int) -> bool {
    exists|k: int| 0 <= k < results.len() && (#[trigger] results[k]).0 == xy
}

/// The image-plane coordinates of the job that renders pixel `xy`: the column,
/// and the row counted from the bottom edge, so that the first row of the
/// buffer is row `height`.
pub open spec fn job_point(xy: int, width: int, height: int) -> (int, int) {
    (xy % width, height - xy / width)
}

/// The image being rendered: `width` times `height` packed pixels, row by
/// row from the top. Its view is the sequence of those pixels.
pub struct Framebuffer {
    width: usize,
    height: usize,
    pixels: Vec<u32>,
}

impl View for Framebuffer {
    type V = Seq<u32>;

    closed spec fn view(&self) -> Seq<u32> {
        self.pixels@
    }
}

impl Framebuffer {
    /// The buffer holds one word for each pixel of a non-empty image.
    pub closed spec fn wf(&self) -> bool {
        &&& self.width > 0
        &&& self.height > 0
        &&& self.pixels@.len() == self.width * self.height
    }

    /// The image's width in pixels.
    pub closed spec fn spec_width(&self) -> usize {
        self.width
    }

    /// The image's height in pixels.
    pub closed spec fn spec_height(&self) -> usize {
        self.height
    }

    /// A black framebuffer of the given size. An image without pixels is
    /// refused, and so is one with more pixels than can be addressed.
    pub fn new(width: usize, height: usize) -> (made: Result<Framebuffer, ConfigError>)
        ensures
            made.is_ok() <==> width > 0 && height > 0 && width * height <= usize::MAX,
            match made {
                Ok(buffer) => {
                    &&& buffer.wf()
                    &&& buffer.spec_width() == width
                    &&& buffer.spec_height() == height
                    &&& buffer@ == Seq::new((width * height) as nat, |i: int| 0u32)
                },
                Err(ConfigError::EmptyImage) => width == 0 || height == 0,
                Err(ConfigError::TooLarge) => width > 0 && height > 0,
            },
    {
        if width == 0 || height == 0 {
            return Err(ConfigError::EmptyImage);
        }
        match width.checked_mul(height) {
            None => Err(ConfigError::TooLarge),
            Some(len) => {
                let mut pixels: Vec<u32> = Vec::with_capacity(len);
                while pixels.len() < len
                    invariant
                        pixels@.len() <= len,
                        forall|i: int| 0 <= i < pixels@.len() ==> pixels@[i] == 0u32,
                    decreases len - pixels@.len(),
                {
                    pixels.push(0u32);
                }
                assert(pixels@ =~= Seq::new(len as nat, |i: int| 0u32));
                Ok(Framebuffer { width, height, pixels })
            },
        }
    }

    /// The image's width in pixels.
    pub fn width(&self) -> (width: usize)
        ensures
            width == self.spec_width(),
    {
        self.width
    }

    /// The image's height in pixels.
    pub fn height(&self) -> (height: usize)
        ensures
            height == self.spec_height(),
    {
        self.height
    }

    /// The number of pixels.
    pub fn len(&self) -> (len: usize)
        requires
            self.wf(),
        ensures
            len == self@.len(),
            len == self.spec_width() * self.spec_height(),
            len > 0,
    {
        proof {
            let (w, h) = (self.width as int, self.height as int);
            assert(w * h > 0) by (nonlinear_arith)
                requires
                    w > 0,
                    h > 0,
            ;
        }
        self.pixels.len()
    }

    /// All pixels in buffer order, as a display takes them.
    pub fn pixels(&self) -> (pixels: &Vec<u32>)
        ensures
            pixels@ == self@,
    {
        &self.pixels
    }

    /// The packed word of pixel `xy`.
    pub fn pixel(&self, xy: usize) -> (color: u32)
        requires
            xy < self@.len(),
        ensures
            color == self@[xy as int],
    {
        self.pixels[xy]
    }

    /// The red, green and blue channels of pixel `xy`.
    pub fn rgb(&self, xy: usize) -> (rgb: (u8, u8, u8))
        requires
            xy < self@.len(),
        ensures
            rgb == channels(self@[xy as int]),
    {
        to_rgb(self.pixels[xy])
    }

    /// Stores a finished pixel. Nothing else changes.
    pub fn write(&mut self, xy: usize, color: (u8, u8, u8))
        requires
            old(self).wf(),
            xy < old(self)@.len(),
        ensures
            final(self).wf(),
            final(self).spec_width() == old(self).spec_width(),
            final(self).spec_height() == old(self).spec_height(),
            final(self)@ == old(self)@.update(xy as int, word_of((xy, color))),
            final(self)@ == written(old(self)@, seq![(xy, color)]),
            channels(final(self)@[xy as int]) == color,
    {
        let word: u32 = from_u8_0rgb(color.0, color.1, color.2);
        self.pixels.set(xy, word);
        proof {
            let one = seq![(xy, color)];
            assert(one.drop_last().len() == 0);
            assert(written(old(self)@, one.drop_last()) == old(self)@);
            assert(one.last() == (xy, color));
        }
    }

    /// The channels of every pixel in buffer order, three bytes a pixel: the
    /// layout of an 8-bit RGB image. `None` where that many bytes cannot be
    /// addressed.
    pub fn to_rgb_bytes(&self) -> (bytes: Option<Vec<u8>>)
        requires
            self.wf(),
        ensures
            bytes.is_some() <==> 3 * self@.len() <= usize::MAX,
            bytes matches Some(out) ==> {
                &&& out@.len() == 3 * self@.len()
                &&& forall|xy: int|
                    0 <= xy < self@.len() ==> (out@[3 * xy], out@[3 * xy + 1], out@[3 * xy + 2])
                        == channels(#[trigger] self@[xy])
            },
    {
        let len: usize = self.pixels.len();
        if len > usize::MAX / 3 {
            return None;
        }
        let mut out: Vec<u8> = Vec::with_capacity(3 * len);
        let mut xy: usize = 0;
        while xy < len
            invariant
                len == self.pixels@.len(),
                len <= usize::MAX / 3,
                xy <= len,
                out@.len() == 3 * xy,
                forall|k: int|
                    0 <= k < xy ==> (out@[3 * k], out@[3 * k + 1], out@[3 * k + 2]) == channels(
                        #[trigger] self.pixels@[k],
                    ),
            decreases len - xy,
        {
            let (r, g, b) = to_rgb(self.pixels[xy]);
            out.push(r);
            out.push(g);
            out.push(b);
            xy += 1;
        }
        Some(out)
    }
}

/// The image-plane coordinates of the job that renders pixel `xy` of an image
/// of the given size. Every pixel has its own: the index is found again from
/// them.
pub fn job_coordinates(xy: usize, width: usize, height: usize) -> (point: (usize, usize))
    requires
        width > 0,
        xy < width * height,
    ensures
        (point.0 as int, point.1 as int) == job_point(xy as int, width as int, height as int),
        point.0 < width,
        1 <= point.1 <= height,
        xy == (height - point.1) * width + point.0,
{
    let x: usize = xy % width;
    let y: usize = xy / width;
    proof {
        let (w, h, n) = (width as int, height as int, xy as int);
        assert(n / w < h && n == (n / w) * w + n % w) by (nonlinear_arith)
            requires
                w > 0,
                0 <= n < w * h,
        ;
    }
    (x, height - y)
}

/// Writing one run of results and then another is writing the two runs as
/// one.
pub proof fn lemma_written_in_turn(
    pixels: Seq<u32>,
    first: Seq<PixelResult>,
    then: Seq<PixelResult>,
)
    ensures
        written(written(pixels, first), then) == written(pixels, first + then),
    decreases then.len(),
{
    if then.len() == 0 {
        assert(first + then =~= first);
    } else {
        lemma_written_in_turn(pixels, first, then.drop_last());
        assert((first + then).drop_last() =~= first + then.drop_last());
        assert((first + then).last() == then.last());
    }
}

/// What a run of writes leaves behind, pixel by pixel: a pixel that has a
/// result holds that result's word, every other pixel is untouched.
pub proof fn lemma_written_pixels(pixels: Seq<u32>, results: Seq<PixelResult>)
    requires
        each_index_once(results),
        within(results, pixels.len()),
    ensures
        written(pixels, results).len() == pixels.len(),
        forall|k: int|
            0 <= k < results.len() ==> written(pixels, results)[(#[trigger] results[k]).0 as int]
                == word_of(results[k]),
        forall|xy: int|
            0 <= xy < pixels.len() && !writes_to(results, xy) ==> #[trigger] written(
                pixels,
                results,
            )[xy] == pixels[xy],
    decreases results.len(),
{
    if results.len() > 0 {
        let init = results.drop_last();
        let last = results.last();
        assert forall|i: int| 0 <= i < init.len() implies #[trigger] init[i] == results[i] by {}
        assert(within(init, pixels.len()));
        lemma_written_pixels(pixels, init);
        assert(last == results[results.len() - 1]);
        assert forall|k: int| 0 <= k < results.len() implies written(pixels, results)[(
        #[trigger] results[k]).0 as int] == word_of(results[k]) by {
            if k < init.len() {
                assert(init[k] == results[k]);
                assert(results[k].0 != results[results.len() - 1].0);
            }
        }
        assert forall|xy: int| 0 <= xy < pixels.len() && !writes_to(results, xy) implies written(
            pixels,
            init,
        )[xy] == pixels[xy] by {
            if writes_to(init, xy) {
                let k = choose|k: int| 0 <= k < init.len() && (#[trigger] init[k]).0 == xy;
                assert(results[k].0 == xy);
            }
        }
        assert forall|xy: int| 0 <= xy < pixels.len() && !writes_to(results, xy) implies xy
            != last.0 by {
            if xy == last.0 {
                assert(results[results.len() - 1].0 == xy);
            }
        }
    }
}

/// A reordering of results that name each pixel once names each pixel once.
pub proof fn lemma_reordered_results(first: Seq<PixelResult>, second: Seq<PixelResult>, len: nat)
    requires
        each_index_once(first),
        within(first, len),
        first.to_multiset() == second.to_multiset(),
    ensures
        each_index_once(second),
        within(second, len),
        forall|r: PixelResult| first.contains(r) <==> second.contains(r),
{
    assert forall|r: PixelResult| first.contains(r) <==> second.contains(r) by {
        vstd::seq_lib::to_multiset_contains(first, r);
        vstd::seq_lib::to_multiset_contains(second, r);
    }
    assert forall|i: int| 0 <= i < second.len() implies (#[trigger] second[i]).0 < len by {
        assert(second.contains(second[i]));
        assert(first.contains(second[i]));
    }
    assert(first.no_duplicates());
    first.lemma_multiset_has_no_duplicates();
    second.lemma_multiset_has_no_duplicates_conv();
    assert forall|i: int, j: int| 0 <= i < j < second.len() implies second[i].0
        != second[j].0 by {
        assert(second.contains(second[i]));
        assert(second.contains(second[j]));
        assert(first.contains(second[i]));
        assert(first.contains(second[j]));
        let a = choose|a: int| 0 <= a < first.len() && first[a] == second[i];
        let b = choose|b: int| 0 <= b < first.len() && first[b] == second[j];
        assert(second[i] != second[j]);
        assert(a != b);
    }
}

/// The framebuffer does not depend on the order in which the results arrive:
/// where each pixel has at most one result, writing the same results in any
/// two orders leaves the same pixels.
pub proof fn lemma_write_order_is_irrelevant(
    pixels: Seq<u32>,
    first: Seq<PixelResult>,
    second: Seq<PixelResult>,
)
    requires
        each_index_once(first),
        within(first, pixels.len()),
        first.to_multiset() == second.to_multiset(),
    ensures
        written(pixels, first) == written(pixels, second),
{
    lemma_reordered_results(first, second, pixels.len());
    lemma_written_pixels(pixels, first);
    lemma_written_pixels(pixels, second);
    let one = written(pixels, first);
    let two = written(pixels, second);
    assert forall|xy: int| 0 <= xy < pixels.len() implies one[xy] == two[xy] by {
        if writes_to(first, xy) {
            let k = choose|k: int| 0 <= k < first.len() && (#[trigger] first[k]).0 == xy;
            assert(first.contains(first[k]));
            assert(second.contains(first[k]));
            let m = choose|m: int| 0 <= m < second.len() && second[m] == first[k];
            assert(two[second[m].0 as int] == word_of(second[m]));
        } else if writes_to(second, xy) {
            let m = choose|m: int| 0 <= m < second.len() && (#[trigger] second[m]).0 == xy;
            assert(second.contains(second[m]));
            assert(first.contains(second[m]));
            let k = choose|k: int| 0 <= k < first.len() && first[k] == second[m];
            assert(first[k].0 == xy);
        }
    }
    assert(one =~= two);
}

/// Results that name each pixel of an image once, and as many results as the
/// image has pixels, leave no pixel out.
pub proof fn lemma_complete_results_cover(results: Seq<PixelResult>, len: nat)
    requires
        each_index_once(results),
        within(results, len),
        results.len() == len,
    ensures
        forall|xy: int| 0 <= xy < len ==> writes_to(results, xy),
{
    let indices = Seq::new(results.len(), |k: int| results[k].0 as int);
    assert(indices.no_duplicates());
    indices.unique_seq_to_set();
    vstd::seq_lib::seq_to_set_is_finite(indices);
    vstd::set_lib::lemma_int_range(0, len as int);
    let all = vstd::set_lib::set_int_range(0, len as int);
    assert forall|xy: int| indices.to_set().contains(xy) implies all.contains(xy) by {
        let k = choose|k: int| 0 <= k < indices.len() && indices[k] == xy;
        assert(results[k].0 < len);
    }
    vstd::set_lib::lemma_subset_equality(indices.to_set(), all);
    assert forall|xy: int| 0 <= xy < len implies writes_to(results, xy) by {
        assert(all.contains(xy));
        assert(indices.contains(xy));
        let k = choose|k: int| 0 <= k < indices.len() && indices[k] == xy;
        assert(results[k].0 == xy);
    }
}

/// A complete render leaves nothing of what the framebuffer held before: once
/// every pixel has had its one result, the image is the same whatever it
/// started from.
pub proof fn lemma_complete_render_overwrites(
    before: Seq<u32>,
    other: Seq<u32>,
    results: Seq<PixelResult>,
)
    requires
        each_index_once(results),
        within(results, before.len()),
        results.len() == before.len(),
        other.len() == before.len(),
    ensures
        written(before, results) == written(other, results),
{
    lemma_complete_results_cover(results, before.len());
    lemma_written_pixels(before, results);
    lemma_written_pixels(other, results);
    let one = written(before, results);
    let two = written(other, results);
    assert forall|xy: int| 0 <= xy < before.len() implies one[xy] == two[xy] by {
        assert(writes_to(results, xy));
        let k = choose|k: int| 0 <= k < results.len() && (#[trigger] results[k]).0 == xy;
        assert(one[results[k].0 as int] == word_of(results[k]));
        assert(two[results[k].0 as int] == word_of(results[k]));
    }
    assert(one =~= two);
}

} // verus!
