//! Resampling of 8-bit RGB buffers, done by the `image` crate.
//!
//! Nothing in this file is proved: each item states what the `image` crate
//! is taken to do. The colours that resampling computes are not described at
//! all. They come out of floating-point sums whose rounding differs between
//! processors, so only the dimensions of the result are stated.

use crate::filter::FilterKind;
use vstd::prelude::*;

verus! {

/// `image::imageops::FilterType`, the `image` crate's choice of filter.
#[verifier::external_type_specification]
#[verifier::external_body]
pub struct ExFilterType(image::imageops::FilterType);

/// The dimensions that `image::DynamicImage::resize` gives an image of
/// `width` by `height` pixels that is to fit a box of `box_width` by
/// `box_height`: the largest size of the same aspect ratio inside the box,
/// each side rounded to a whole number of pixels.
pub uninterp spec fn fit_dimensions(width: u32, height: u32, box_width: u32, box_height: u32) -> (
    u32,
    u32,
);

/// The longest side, in pixels, that is handed to the `image` crate.
///
/// The crate finds the place of every new pixel among the old ones in 32-bit
/// floating point, and divides by the sum of the weights of the old pixels
/// around that place. Up to this limit all sides and all places plus a half
/// are exact, and the place is off by less than half a pixel: by a quarter
/// from the rounded ratio of the sides and by an eighth from the rounded
/// product. The old pixel nearest to the place then lies less than one pixel
/// from it, also at the border of the image, and keeps a weight that
/// outweighs the negative ones, so the sum is not zero. Above the limit the
/// two roundings can add up to half a pixel and more, the sum can be zero,
/// and the crate panics on the quotient; this was seen on sides of 2^23
/// pixels.
pub const MAX_SIDE: u32 = 0x40_0000;

/// `scaled` is what `side` becomes where `from` pixels become `to`: the
/// product of `side` and `to / from`, rounded to the nearest whole number,
/// or one pixel where that would be none.
pub open spec fn scaled_side(from: int, to: int, side: int, scaled: int) -> bool {
    ||| -from <= 2 * (scaled * from - side * to) <= from
    ||| scaled == 1 && 2 * (side * to) < from
}

/// `out_width` by `out_height` is the largest size of the proportions of
/// `width` by `height` inside the box: no side is shorter than one pixel or
/// longer than the box, one side is as long as the box, and the other side
/// is scaled as that one is.
pub open spec fn largest_fit(
    width: int,
    height: int,
    box_width: int,
    box_height: int,
    out_width: int,
    out_height: int,
) -> bool {
    &&& 1 <= out_width <= box_width
    &&& 1 <= out_height <= box_height
    &&& {
        ||| out_width == box_width && scaled_side(width, box_width, height, out_height)
        ||| out_height == box_height && scaled_side(height, box_height, width, out_width)
    }
}

/// An image of `width` by `height` pixels can be resampled to `new_width` by
/// `new_height`: no side is longer than `MAX_SIDE`, and the buffers that are
/// allocated on the way can be addressed. These are an intermediate image of
/// `width` by `new_height` pixels with four 32-bit channels, and the result
/// with three 8-bit channels.
pub open spec fn resample_fits(width: u32, height: u32, new_width: u32, new_height: u32) -> bool {
    &&& width <= MAX_SIDE
    &&& height <= MAX_SIDE
    &&& new_width <= MAX_SIDE
    &&& new_height <= MAX_SIDE
    &&& 16 * (width * new_height) <= isize::MAX
    &&& 3 * (new_width * new_height) <= isize::MAX
}

/// Names the variant of `image::imageops::FilterType` that stands for
/// `kind`. The variants carry the same names as the filters.
#[verifier::external_body]
pub(crate) fn filter_type(kind: FilterKind) -> image::imageops::FilterType {
    match kind {
        FilterKind::Nearest => image::imageops::FilterType::Nearest,
        FilterKind::Triangle => image::imageops::FilterType::Triangle,
        FilterKind::CatmullRom => image::imageops::FilterType::CatmullRom,
        FilterKind::Gaussian => image::imageops::FilterType::Gaussian,
        FilterKind::Lanczos3 => image::imageops::FilterType::Lanczos3,
    }
}

/// Calls `image::DynamicImage::resize_exact` on the RGB image of `width` by
/// `height` pixels in `data`. The result has exactly the dimensions asked
/// for, whatever the aspect ratio, so its buffer holds three bytes for each
/// of `new_width` by `new_height` pixels. An image without pixels gives a
/// blank image of those dimensions. The call panics where a buffer cannot be
/// allocated or a side is too long for its arithmetic, which `resample_fits`
/// rules out.
#[verifier::external_body]
pub(crate) fn resize_exact(
    data: &Vec<u8>,
    width: u32,
    height: u32,
    new_width: u32,
    new_height: u32,
    filter: image::imageops::FilterType,
) -> (out: Vec<u8>)
    requires
        data@.len() == 3 * (width * height),
        resample_fits(width, height, new_width, new_height),
    ensures
        out@.len() == 3 * (new_width * new_height),
{
    let source = image::RgbImage::from_raw(width, height, data.clone()).unwrap();
    let image = image::DynamicImage::ImageRgb8(source);
    image.resize_exact(new_width, new_height, filter).into_rgb8().into_raw()
}

/// Calls `image::DynamicImage::resize` on the RGB image of `width` by
/// `height` pixels in `data`, and hands back the width, the height and the
/// buffer of the result. The image is scaled, keeping its aspect ratio, to
/// the largest size that fits the box: no side is longer than the box, one
/// is as long, and the other is scaled by the same ratio and rounded.
/// Neither side comes out shorter than one pixel. The crate works the two
/// sides out in 64-bit floating point; up to `MAX_SIDE` its error is far
/// below what could move the rounded side. The dimensions depend on the four
/// numbers alone. Images without pixels and boxes without area are left out
/// here.
#[verifier::external_body]
pub(crate) fn resize_to_fit(
    data: &Vec<u8>,
    width: u32,
    height: u32,
    box_width: u32,
    box_height: u32,
    filter: image::imageops::FilterType,
) -> (out: (u32, u32, Vec<u8>))
    requires
        data@.len() == 3 * (width * height),
        width >= 1,
        height >= 1,
        box_width >= 1,
        box_height >= 1,
        resample_fits(width, height, box_width, box_height),
    ensures
        (out.0, out.1) == fit_dimensions(width, height, box_width, box_height),
        largest_fit(
            width as int,
            height as int,
            box_width as int,
            box_height as int,
            out.0 as int,
            out.1 as int,
        ),
        out.2@.len() == 3 * (out.0 * out.1),
{
    let source = image::RgbImage::from_raw(width, height, data.clone()).unwrap();
    let image = image::DynamicImage::ImageRgb8(source);
    let fitted = image.resize(box_width, box_height, filter).into_rgb8();
    (fitted.width(), fitted.height(), fitted.into_raw())
}

} // verus!
