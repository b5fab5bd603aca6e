//! Trusted boundary to the `image` crate: the pixel-level operations the
//! pipeline needs (exact resize to RGB bytes, immutable crop). Everything
//! downstream of these calls is verified against the names stated here.

use vstd::prelude::*;

verus! {

/// Declares `image::DynamicImage` to the verifier: a decoded pixel grid,
/// opaque here, carried between the crop and resize calls below.
#[verifier::external_type_specification]
#[verifier::external_body]
pub struct ExDynamicImage(image::DynamicImage);

/// The RGB bytes of `img` after an exact resize to `w` by `h` with the
/// Catmull-Rom filter: `3 * w * h` bytes, row-major, interleaved R, G, B.
/// A pure function of the image value and the target size.
pub uninterp spec fn rgb_resized(img: image::DynamicImage, w: u32, h: u32) -> Seq<u8>;

/// The cut-out of `img` with top-left corner `(x, y)` and size `w` by `h`,
/// clipped to the image bounds. A pure function of its arguments.
pub uninterp spec fn cropped(img: image::DynamicImage, x: u32, y: u32, w: u32, h: u32) -> image::DynamicImage;

/// Relies on `image::DynamicImage::resize_exact` (with `to_rgb8` and
/// `into_raw` converting the result): resampling to exactly `w` by `h`
/// yields a buffer of `w * h` RGB pixels, three bytes each.
#[verifier::external_body]
pub(crate) fn resize_to_rgb(img: &image::DynamicImage, w: u32, h: u32) -> (r: Vec<u8>)
    requires
        1 <= w,
        1 <= h,
        3 * w * h <= usize::MAX,
    ensures
        r@ == rgb_resized(*img, w, h),
        r@.len() == 3 * w * h,
{
    img.resize_exact(w, h, image::imageops::FilterType::CatmullRom).to_rgb8().into_raw()
}

/// Relies on `image::DynamicImage::crop_imm`: a deterministic cut-out of the
/// requested rectangle, clipped to the image bounds.
#[verifier::external_body]
pub(crate) fn crop_region(img: &image::DynamicImage, x: u32, y: u32, w: u32, h: u32) -> (r:
    image::DynamicImage)
    ensures
        r == cropped(*img, x, y, w, h),
{
    img.crop_imm(x, y, w, h)
}

} // verus!
