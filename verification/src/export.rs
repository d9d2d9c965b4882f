//! The finished framebuffer as an 8-bit RGB image of the `image` crate, ready
//! to be encoded and saved.

use vstd::prelude::*;
use crate::framebuffer::Framebuffer;
use crate::pixel::channels;

verus! {

/// An 8-bit RGB image of the `image` crate. What it holds is known only
/// through `image_bytes` and `image_size`.
#[verifier::external_body]
pub struct RgbPicture {
    pub image: image::RgbImage,
}

/// The samples that an RGB image holds: three bytes a pixel, row by row.
pub uninterp spec fn image_bytes(picture: RgbPicture) -> Seq<u8>;

/// The width and height of an RGB image.
pub uninterp spec fn image_size(picture: RgbPicture) -> (u32, u32);

/// `image::ImageBuffer::from_raw` for 8-bit RGB. The call succeeds exactly
/// when three bytes for each pixel can be counted without overflow and the
/// buffer holds at least that many; the image then has the given size and
/// holds the buffer as it was handed in.
#[verifier::external_body]
fn rgb_image_from_raw(width: u32, height: u32, bytes: Vec<u8>) -> (made: Option<RgbPicture>)
    ensures
        made.is_some() == (3 * width <= usize::MAX && 3 * width * height <= bytes@.len()),
        made.is_some() ==> image_size(made.unwrap()) == (width, height),
        made.is_some() ==> image_bytes(made.unwrap()) == bytes@,
{
    match image::RgbImage::from_raw(width, height, bytes) {
        Some(image) => Some(RgbPicture { image }),
        None => None,
    }
}

/// The framebuffer as an RGB image of the same size, each pixel with the
/// channels that the framebuffer holds for it. `None` where the image's width
/// or height does not fit 32 bits, or its bytes cannot be addressed.
pub fn to_rgb_image(frame: &Framebuffer) -> (made: Option<RgbPicture>)
    requires
        frame.wf(),
    ensures
        made.is_some() <==> {
            &&& frame.spec_width() <= u32::MAX
            &&& frame.spec_height() <= u32::MAX
            &&& 3 * frame@.len() <= usize::MAX
        },
        made matches Some(image) ==> {
            &&& image_size(image) == (frame.spec_width() as u32, frame.spec_height() as u32)
            &&& image_bytes(image).len() == 3 * frame@.len()
            &&& forall|xy: int|
                0 <= xy < frame@.len() ==> (
                    image_bytes(image)[3 * xy],
                    image_bytes(image)[3 * xy + 1],
                    image_bytes(image)[3 * xy + 2],
                ) == channels(#[trigger] frame@[xy])
        },
{
    let (width, height): (usize, usize) = (frame.width(), frame.height());
    if width > u32::MAX as usize || height > u32::MAX as usize {
        return None;
    }
    let len: usize = frame.len();
    match frame.to_rgb_bytes() {
        None => None,
        Some(bytes) => {
            proof {
                let (w, h) = (width as int, height as int);
                assert(w > 0 && h > 0) by (nonlinear_arith)
                    requires
                        w >= 0,
                        h >= 0,
                        w * h > 0,
                ;
                assert(3 * w <= 3 * (w * h) && 3 * w * h == 3 * (w * h)) by (nonlinear_arith)
                    requires
                        w > 0,
                        h > 0,
                ;
            }
            rgb_image_from_raw(width as u32, height as u32, bytes)
        },
    }
}

} // verus!
