//! The two resizing steps between the decoded image and its encoding.
//!
//! A character cell is about two and a half times as high as it is wide.
//! The first step therefore stretches the image to three times its width, so
//! that a grid of cells shows it in its own proportions. The second step
//! scales the stretched image into the box that was asked for, if any,
//! keeping the proportions that the first step gave it.

use crate::encoder::{count_of, image_bytes, lemma_encoding_shows_the_grid, line_bytes, line_count};
use crate::grid::{GridModel, PixelGrid};
use crate::filter::FilterKind;
use crate::resample::{
    filter_type, fit_dimensions, largest_fit, resize_exact, resize_to_fit, scaled_side, MAX_SIDE,
};
use vstd::prelude::*;

verus! {

/// How many columns stand for one column of the image.
pub const ASPECT_FACTOR: u32 = 3;

/// Resizing is left to do nothing where there is nothing to scale or no room
/// to scale into: the image has no pixels, or the box has no area.
pub open spec fn nothing_to_fit(width: nat, height: nat, fit: (u32, u32)) -> bool {
    width == 0 || height == 0 || fit.0 == 0 || fit.1 == 0
}

/// The dimensions of the transformed image. Without a box they are those of
/// the stretched image. With a box they are the dimensions of the largest
/// image of the stretched proportions that fits it; where there is nothing
/// to fit, the result has no pixels and its dimensions are zero.
pub open spec fn transformed_dimensions(width: nat, height: nat, fit: Option<(u32, u32)>) -> (
    nat,
    nat,
) {
    match fit {
        None => ((ASPECT_FACTOR * width) as nat, height),
        Some(bounds) => if nothing_to_fit(width, height, bounds) {
            (0, 0)
        } else {
            let fitted = fit_dimensions(
                (ASPECT_FACTOR * width) as u32,
                height as u32,
                bounds.0,
                bounds.1,
            );
            (fitted.0 as nat, fitted.1 as nat)
        },
    }
}

/// The image can be transformed: no side of the stretched image or of the
/// box is longer than `MAX_SIDE`, and the buffers of both steps can be
/// addressed on this machine. A box is not looked at where there is nothing
/// to fit.
pub open spec fn can_be_transformed(width: nat, height: nat, fit: Option<(u32, u32)>) -> bool {
    &&& ASPECT_FACTOR * width <= MAX_SIDE
    &&& height <= MAX_SIDE
    &&& 16 * (width * height) <= isize::MAX
    &&& match fit {
        Some(bounds) => nothing_to_fit(width, height, bounds) || {
            &&& bounds.0 <= MAX_SIDE
            &&& bounds.1 <= MAX_SIDE
            &&& 16 * (ASPECT_FACTOR * width * bounds.1) <= isize::MAX
            &&& 3 * (bounds.0 * bounds.1) <= isize::MAX
        },
        None => true,
    }
}

/// Whether `transform` can be called on an image of these dimensions.
pub fn check_transformable(width: u32, height: u32, fit: Option<(u32, u32)>) -> (possible: bool)
    ensures
        possible == can_be_transformed(width as nat, height as nat, fit),
{
    let limit: u64 = isize::MAX as u64;
    if width > MAX_SIDE / ASPECT_FACTOR || height > MAX_SIDE {
        return false;
    }
    let wide: u64 = ASPECT_FACTOR as u64 * width as u64;
    assert(width * height <= 0x40_0000 * 0x40_0000) by (nonlinear_arith)
        requires
            0 <= width <= 0x40_0000,
            0 <= height <= 0x40_0000,
    ;
    if 16 * (width as u64 * height as u64) > limit {
        return false;
    }
    match fit {
        Some(bounds) => {
            if width == 0 || height == 0 || bounds.0 == 0 || bounds.1 == 0 {
                return true;
            }
            if bounds.0 > MAX_SIDE || bounds.1 > MAX_SIDE {
                return false;
            }
            assert(wide * bounds.1 <= 0x40_0000 * 0x40_0000) by (nonlinear_arith)
                requires
                    0 <= wide <= 0x40_0000,
                    0 <= bounds.1 <= 0x40_0000,
            ;
            assert(bounds.0 * bounds.1 <= 0x40_0000 * 0x40_0000) by (nonlinear_arith)
                requires
                    0 <= bounds.0 <= 0x40_0000,
                    0 <= bounds.1 <= 0x40_0000,
            ;
            16 * (wide * bounds.1 as u64) <= limit && 3 * (bounds.0 as u64 * bounds.1 as u64)
                <= limit
        },
        None => true,
    }
}

/// Transforms a decoded image for display. The image is first stretched to
/// three times its width, whatever comes after. With `fit` of `None` that is
/// the result. With a box, the stretched image is then scaled to the largest
/// size of its proportions that fits the box: it lies inside the box,
/// reaches it on one side, and has the other side scaled alike and rounded
/// to whole pixels. Both steps use `filter`.
///
/// A box with a side of zero has room for no pixel, and an image without
/// pixels has nothing to scale: in both cases fitting gives the grid
/// without pixels.
pub fn transform(source: &PixelGrid, filter: FilterKind, fit: Option<(u32, u32)>) -> (out:
    PixelGrid)
    requires
        can_be_transformed(source@.width, source@.height, fit),
    ensures
        out@.wf(),
        (out@.width, out@.height) == transformed_dimensions(source@.width, source@.height, fit),
        fit matches Some(bounds) ==> out@.width <= bounds.0 && out@.height <= bounds.1,
        fit matches Some(bounds) ==> (out@.is_empty() <==> nothing_to_fit(
            source@.width,
            source@.height,
            bounds,
        )),
        fit matches Some(bounds) ==> out@.is_empty() || largest_fit(
            ASPECT_FACTOR * source@.width,
            source@.height as int,
            bounds.0 as int,
            bounds.1 as int,
            out@.width as int,
            out@.height as int,
        ),
{
    let width = source.width();
    let height = source.height();
    let kind = filter_type(filter);
    let wide = ASPECT_FACTOR * width;
    assert(16 * (width * height) >= 3 * (wide * height)) by (nonlinear_arith)
        requires
            wide == 3 * width,
            0 <= width,
            0 <= height,
    ;
    let stretched = resize_exact(source.as_raw(), width, height, wide, height, kind);
    match fit {
        None => PixelGrid::assemble(wide, height, stretched),
        Some(bounds) => {
            if wide == 0 || height == 0 || bounds.0 == 0 || bounds.1 == 0 {
                PixelGrid::empty()
            } else {
                let fitted = resize_to_fit(&stretched, wide, height, bounds.0, bounds.1, kind);
                PixelGrid::assemble(fitted.0, fitted.1, fitted.2)
            }
        },
    }
}

/// The largest fit keeps the proportions of the image up to the rounding of
/// one side. Where the box leaves every side at least one pixel to scale to,
/// the result reaches the box on one side, and the two cross products of its
/// sides with those of the image differ by less than the longer side of the
/// image.
pub proof fn lemma_largest_fit_keeps_proportions(
    width: int,
    height: int,
    box_width: int,
    box_height: int,
    out_width: int,
    out_height: int,
)
    requires
        width >= 1,
        height >= 1,
        box_width * height >= width,
        width * box_height >= height,
        largest_fit(width, height, box_width, box_height, out_width, out_height),
    ensures
        out_width == box_width || out_height == box_height,
        out_width * height - out_height * width < width || out_width * height - out_height * width
            < height,
        out_height * width - out_width * height < width || out_height * width - out_width * height
            < height,
{
    if out_width == box_width && scaled_side(width, box_width, height, out_height) {
        assert(height * box_width == box_width * height) by (nonlinear_arith);
        assert(out_width * height == height * box_width) by (nonlinear_arith)
            requires
                out_width == box_width,
        ;
    } else {
        assert(width * box_height == box_height * width) by (nonlinear_arith);
        assert(out_height * width == width * box_height) by (nonlinear_arith)
            requires
                out_height == box_height,
        ;
    }
}

/// An image that keeps its size is shown stretched: the encoding of the
/// result has one line for each row of the image, and every line holds three
/// cells for each of its columns.
pub proof fn lemma_unfitted_image_is_shown_stretched(width: nat, height: nat, out: GridModel)
    requires
        width >= 1,
        height >= 1,
        (out.width, out.height) == transformed_dimensions(width, height, None),
    ensures
        line_count(out) == height,
        count_of(image_bytes(out), 0x0au8) == height,
        forall|y: int| #[trigger] count_of(line_bytes(out, y), 0x20u8) == 3 * width,
{
    lemma_encoding_shows_the_grid(out);
}

/// An image that is fitted is shown inside its box: the encoding of the
/// result has at least one line and no more lines than the box is high, and
/// every line holds at least one cell and no more cells than the box is
/// wide.
pub proof fn lemma_fitted_image_is_shown_inside_the_box(
    width: nat,
    height: nat,
    bounds: (u32, u32),
    out: GridModel,
)
    requires
        largest_fit(
            ASPECT_FACTOR * width,
            height as int,
            bounds.0 as int,
            bounds.1 as int,
            out.width as int,
            out.height as int,
        ),
    ensures
        1 <= line_count(out) <= bounds.1,
        count_of(image_bytes(out), 0x0au8) == line_count(out),
        forall|y: int| 1 <= #[trigger] count_of(line_bytes(out, y), 0x20u8) <= bounds.0,
{
    lemma_encoding_shows_the_grid(out);
}

} // verus!
