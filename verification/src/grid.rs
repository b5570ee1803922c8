//! Pixel grids: rectangular images of 8-bit RGB colours.

use vstd::prelude::*;

verus! {

/// One colour: red, green and blue, each from 0 to 255.
#[derive(Clone, Copy, Debug, PartialEq, Eq, Structural)]
pub struct Rgb {
    pub red: u8,
    pub green: u8,
    pub blue: u8,
}

/// What a pixel grid is: its dimensions and its colours, row after row from
/// the top, each row from the left.
pub struct GridModel {
    pub width: nat,
    pub height: nat,
    pub pixels: Seq<Rgb>,
}

impl GridModel {
    /// There is one colour for each position.
    pub open spec fn wf(self) -> bool {
        self.pixels.len() == self.width * self.height
    }

    /// The grid has no pixel at all.
    pub open spec fn is_empty(self) -> bool {
        self.width == 0 || self.height == 0
    }

    /// The colour in column `x` of row `y`.
    pub open spec fn pixel(self, x: int, y: int) -> Rgb
        recommends
            0 <= x < self.width,
            0 <= y < self.height,
    {
        self.pixels[y * self.width + x]
    }
}

/// The colours that a buffer of interleaved red, green and blue bytes holds.
pub open spec fn pixels_of(data: Seq<u8>) -> Seq<Rgb> {
    Seq::new(
        data.len() / 3,
        |i: int| Rgb { red: data[3 * i], green: data[3 * i + 1], blue: data[3 * i + 2] },
    )
}

/// The grid of the given dimensions whose colours are those of `data`.
pub open spec fn grid_of(width: u32, height: u32, data: Seq<u8>) -> GridModel {
    GridModel { width: width as nat, height: height as nat, pixels: pixels_of(data) }
}

/// A rectangular image. The colours are stored as interleaved red, green and
/// blue bytes, three for each pixel, row by row.
#[derive(Debug)]
pub struct PixelGrid {
    width: u32,
    height: u32,
    data: Vec<u8>,
}

impl View for PixelGrid {
    type V = GridModel;

    closed spec fn view(&self) -> GridModel {
        grid_of(self.width, self.height, self.data@)
    }
}

/// A position inside a grid lies inside its buffer.
proof fn lemma_position_in_bounds(width: int, height: int, x: int, y: int)
    requires
        0 <= x < width,
        0 <= y < height,
    ensures
        0 <= y * width + x < width * height,
        0 <= y * width,
{
    assert(0 <= y * width) by (nonlinear_arith)
        requires
            0 <= y,
            0 <= width,
    ;
    assert((y + 1) * width <= height * width) by (nonlinear_arith)
        requires
            y + 1 <= height,
            0 <= width,
    ;
    assert((y + 1) * width == y * width + width) by (nonlinear_arith);
}

impl PixelGrid {
    #[verifier::type_invariant]
    spec fn holds_every_pixel(self) -> bool {
        self.data@.len() == 3 * (self.width * self.height)
    }

    /// Makes a grid from interleaved red, green and blue bytes, where there
    /// are exactly three for each pixel.
    pub fn new(width: u32, height: u32, data: Vec<u8>) -> (made: Option<PixelGrid>)
        ensures
            made is Some <==> data@.len() == 3 * (width * height),
            made matches Some(grid) ==> grid@ == grid_of(width, height, data@) && grid@.wf(),
    {
        assert(width * height <= 0xffff_ffff * 0xffff_ffff) by (nonlinear_arith)
            requires
                0 <= width <= 0xffff_ffff,
                0 <= height <= 0xffff_ffff,
        ;
        let needed: u128 = 3 * (width as u128 * height as u128);
        if data.len() as u128 == needed {
            Some(PixelGrid { width, height, data })
        } else {
            None
        }
    }

    /// Makes a grid from a buffer that is known to have the right length.
    pub(crate) fn assemble(width: u32, height: u32, data: Vec<u8>) -> (grid: PixelGrid)
        requires
            data@.len() == 3 * (width * height),
        ensures
            grid@ == grid_of(width, height, data@),
            grid@.wf(),
    {
        PixelGrid { width, height, data }
    }

    /// The grid without pixels.
    pub fn empty() -> (grid: PixelGrid)
        ensures
            grid@.width == 0,
            grid@.height == 0,
            grid@.pixels.len() == 0,
            grid@.wf(),
    {
        PixelGrid { width: 0, height: 0, data: Vec::new() }
    }

    /// The number of columns.
    pub fn width(&self) -> (width: u32)
        ensures
            width == self@.width,
    {
        self.width
    }

    /// The number of rows.
    pub fn height(&self) -> (height: u32)
        ensures
            height == self@.height,
    {
        self.height
    }

    /// The interleaved bytes of the grid, three for each pixel.
    pub fn as_raw(&self) -> (data: &Vec<u8>)
        ensures
            self@ == grid_of(self@.width as u32, self@.height as u32, data@),
            data@.len() == 3 * (self@.width * self@.height),
            self@.wf(),
    {
        proof {
            use_type_invariant(self);
        }
        &self.data
    }

    /// The colour in column `x` of row `y`.
    pub fn pixel(&self, x: u32, y: u32) -> (colour: Rgb)
        requires
            x < self@.width,
            y < self@.height,
        ensures
            colour == self@.pixel(x as int, y as int),
            self@.wf(),
    {
        proof {
            use_type_invariant(self);
            lemma_position_in_bounds(self.width as int, self.height as int, x as int, y as int);
            assert(self.data.len() == self.data@.len());
        }
        let at: usize = 3 * (y as usize * self.width as usize + x as usize);
        Rgb { red: self.data[at], green: self.data[at + 1], blue: self.data[at + 2] }
    }
}

} // verus!
