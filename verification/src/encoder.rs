//! The terminal encoding of a pixel grid.
//!
//! Every pixel becomes one character cell: an escape sequence that selects
//! the pixel's colour as background, a space, and an escape sequence that
//! resets the attributes. The cells of a row follow each other without
//! anything between them and every row ends in a newline. A grid without
//! pixels is a single empty line.

use crate::grid::{GridModel, PixelGrid, Rgb};
use vstd::prelude::*;

verus! {

/// The number `n` in base ten, as ASCII digits without leading zeros.
pub open spec fn decimal_digits(n: nat) -> Seq<u8>
    decreases n,
{
    if n < 10 {
        seq![(48 + n) as u8]
    } else {
        decimal_digits(n / 10).push((48 + n % 10) as u8)
    }
}

/// `ESC [ 4 8 ; 2 ;`, which opens the choice of a 24-bit background colour.
pub open spec fn colour_prefix() -> Seq<u8> {
    seq![0x1bu8, 0x5bu8, 0x34u8, 0x38u8, 0x3bu8, 0x32u8, 0x3bu8]
}

/// `m`, which closes the choice of colour, then a space, then `ESC [ 0 m`,
/// which resets the attributes.
pub open spec fn colour_suffix() -> Seq<u8> {
    seq![0x6du8, 0x20u8, 0x1bu8, 0x5bu8, 0x30u8, 0x6du8]
}

/// The bytes of one cell: `ESC[48;2;R;G;Bm`, a space, `ESC[0m`.
pub open spec fn cell_bytes(colour: Rgb) -> Seq<u8> {
    colour_prefix() + decimal_digits(colour.red as nat) + seq![0x3bu8] + decimal_digits(
        colour.green as nat,
    ) + seq![0x3bu8] + decimal_digits(colour.blue as nat) + colour_suffix()
}

/// The cells of the first `count` pixels of row `y`, from the left.
pub open spec fn cells_bytes(grid: GridModel, y: int, count: int) -> Seq<u8>
    decreases count,
{
    if count <= 0 {
        Seq::empty()
    } else {
        cells_bytes(grid, y, count - 1) + cell_bytes(grid.pixel(count - 1, y))
    }
}

/// The number of lines in the encoding: one for each row, and one for a grid
/// without pixels.
pub open spec fn line_count(grid: GridModel) -> nat {
    if grid.is_empty() {
        1
    } else {
        grid.height
    }
}

/// Line `y` of the encoding: the cells of row `y` and a newline. The one line
/// of a grid without pixels is the newline alone.
pub open spec fn line_bytes(grid: GridModel, y: int) -> Seq<u8> {
    if grid.is_empty() {
        seq![0x0au8]
    } else {
        cells_bytes(grid, y, grid.width as int).push(0x0au8)
    }
}

/// The first `count` lines of the encoding.
pub open spec fn lines_bytes(grid: GridModel, count: int) -> Seq<u8>
    decreases count,
{
    if count <= 0 {
        Seq::empty()
    } else {
        lines_bytes(grid, count - 1) + line_bytes(grid, count - 1)
    }
}

/// The encoding of a grid: all of its lines, from the top.
pub open spec fn image_bytes(grid: GridModel) -> Seq<u8> {
    lines_bytes(grid, line_count(grid) as int)
}

/// Appends `value` in base ten, without leading zeros.
pub fn write_decimal(value: u8, out: &mut Vec<u8>)
    ensures
        final(out)@ == old(out)@ + decimal_digits(value as nat),
{
    proof {
        reveal_with_fuel(decimal_digits, 3);
    }
    if value >= 100 {
        out.push(48 + value / 100);
    }
    if value >= 10 {
        out.push(48 + (value / 10) % 10);
    }
    out.push(48 + value % 10);
}

/// Appends the cell of one colour.
pub fn write_cell(colour: Rgb, out: &mut Vec<u8>)
    ensures
        final(out)@ == old(out)@ + cell_bytes(colour),
{
    out.push(0x1b);
    out.push(0x5b);
    out.push(0x34);
    out.push(0x38);
    out.push(0x3b);
    out.push(0x32);
    out.push(0x3b);
    write_decimal(colour.red, out);
    out.push(0x3b);
    write_decimal(colour.green, out);
    out.push(0x3b);
    write_decimal(colour.blue, out);
    out.push(0x6d);
    out.push(0x20);
    out.push(0x1b);
    out.push(0x5b);
    out.push(0x30);
    out.push(0x6d);
}

/// The number of lines that the encoding of `grid` has.
pub fn count_lines(grid: &PixelGrid) -> (count: u32)
    ensures
        count == line_count(grid@),
        count >= 1,
{
    if grid.width() == 0 || grid.height() == 0 {
        1
    } else {
        grid.height()
    }
}

/// Appends line `y` of the encoding of `grid`.
pub fn write_line(grid: &PixelGrid, y: u32, out: &mut Vec<u8>)
    requires
        y < line_count(grid@),
    ensures
        final(out)@ == old(out)@ + line_bytes(grid@, y as int),
{
    let width = grid.width();
    if width != 0 && grid.height() != 0 {
        let mut x: u32 = 0;
        while x < width
            invariant
                x <= width,
                width == grid@.width,
                y < grid@.height,
                out@ == old(out)@ + cells_bytes(grid@, y as int, x as int),
            decreases width - x,
        {
            write_cell(grid.pixel(x, y), out);
            x += 1;
        }
    }
    out.push(0x0a);
}

/// Appends the encoding of `grid`: its rows from the top, each from the
/// left, one cell for each pixel and a newline after each row.
pub fn write_image(grid: &PixelGrid, out: &mut Vec<u8>)
    ensures
        final(out)@ == old(out)@ + image_bytes(grid@),
{
    let count = count_lines(grid);
    let mut y: u32 = 0;
    while y < count
        invariant
            y <= count,
            count == line_count(grid@),
            out@ == old(out)@ + lines_bytes(grid@, y as int),
        decreases count - y,
    {
        write_line(grid, y, out);
        y += 1;
    }
}

/// The encoding of `grid` as a buffer of its own.
pub fn encode(grid: &PixelGrid) -> (bytes: Vec<u8>)
    ensures
        bytes@ == image_bytes(grid@),
{
    let mut bytes: Vec<u8> = Vec::new();
    write_image(grid, &mut bytes);
    bytes
}

/// No byte of `bytes` is a newline.
pub open spec fn no_newline(bytes: Seq<u8>) -> bool {
    forall|i: int| 0 <= i < bytes.len() ==> bytes[i] != 0x0au8
}

/// A number is written as one digit at least, and as ASCII digits only.
pub proof fn lemma_decimal_digits_are_digits(n: nat)
    ensures
        decimal_digits(n).len() >= 1,
        forall|i: int|
            0 <= i < decimal_digits(n).len() ==> 0x30u8 <= #[trigger] decimal_digits(n)[i]
                <= 0x39u8,
    decreases n,
{
    if n >= 10 {
        lemma_decimal_digits_are_digits(n / 10);
    }
}

/// A number below ten is written as one digit, a number below a hundred as
/// two, and a byte never as more than three.
pub proof fn lemma_decimal_digits_len(value: u8)
    ensures
        decimal_digits(value as nat).len() == if value < 10 {
            1nat
        } else if value < 100 {
            2nat
        } else {
            3nat
        },
        value >= 10 ==> decimal_digits(value as nat)[0] != 0x30u8,
{
    reveal_with_fuel(decimal_digits, 3);
}

/// A cell holds no newline.
pub proof fn lemma_cell_has_no_newline(colour: Rgb)
    ensures
        no_newline(cell_bytes(colour)),
{
    lemma_decimal_digits_are_digits(colour.red as nat);
    lemma_decimal_digits_are_digits(colour.green as nat);
    lemma_decimal_digits_are_digits(colour.blue as nat);
}

/// The cells of a row hold no newline.
pub proof fn lemma_cells_have_no_newline(grid: GridModel, y: int, count: int)
    ensures
        no_newline(cells_bytes(grid, y, count)),
    decreases count,
{
    if count > 0 {
        lemma_cells_have_no_newline(grid, y, count - 1);
        lemma_cell_has_no_newline(grid.pixel(count - 1, y));
    }
}

/// Every line of the encoding is one row of the grid: it ends in a newline
/// and holds no other, so rows are never wrapped or joined.
pub proof fn lemma_line_ends_in_its_only_newline(grid: GridModel, y: int)
    ensures
        line_bytes(grid, y).len() >= 1,
        line_bytes(grid, y).last() == 0x0au8,
        no_newline(line_bytes(grid, y).drop_last()),
{
    if !grid.is_empty() {
        lemma_cells_have_no_newline(grid, y, grid.width as int);
    }
}

/// How often `byte` occurs in `bytes`.
pub open spec fn count_of(bytes: Seq<u8>, byte: u8) -> nat
    decreases bytes.len(),
{
    if bytes.len() == 0 {
        0
    } else {
        count_of(bytes.drop_last(), byte) + if bytes.last() == byte {
            1nat
        } else {
            0nat
        }
    }
}

/// A byte occurs in two texts in a row as often as in the one and in the
/// other together.
pub proof fn lemma_count_of_both(first: Seq<u8>, second: Seq<u8>, byte: u8)
    ensures
        count_of(first + second, byte) == count_of(first, byte) + count_of(second, byte),
    decreases second.len(),
{
    if second.len() == 0 {
        assert(first + second =~= first);
    } else {
        lemma_count_of_both(first, second.drop_last(), byte);
        assert((first + second).drop_last() =~= first + second.drop_last());
    }
}

/// A byte that is nowhere in a text occurs in it no times.
pub proof fn lemma_count_of_none(bytes: Seq<u8>, byte: u8)
    requires
        forall|i: int| 0 <= i < bytes.len() ==> bytes[i] != byte,
    ensures
        count_of(bytes, byte) == 0,
    decreases bytes.len(),
{
    if bytes.len() > 0 {
        lemma_count_of_none(bytes.drop_last(), byte);
    }
}

/// A cell holds exactly one space: the character that shows the colour.
pub proof fn lemma_cell_has_one_space(colour: Rgb)
    ensures
        count_of(cell_bytes(colour), 0x20u8) == 1,
{
    let red = decimal_digits(colour.red as nat);
    let green = decimal_digits(colour.green as nat);
    let blue = decimal_digits(colour.blue as nat);
    let semicolon = seq![0x3bu8];
    lemma_decimal_digits_are_digits(colour.red as nat);
    lemma_decimal_digits_are_digits(colour.green as nat);
    lemma_decimal_digits_are_digits(colour.blue as nat);
    lemma_count_of_none(colour_prefix(), 0x20u8);
    lemma_count_of_none(red, 0x20u8);
    lemma_count_of_none(green, 0x20u8);
    lemma_count_of_none(blue, 0x20u8);
    lemma_count_of_none(semicolon, 0x20u8);
    assert(count_of(colour_suffix(), 0x20u8) == 1) by {
        let before = seq![0x6du8];
        let space = seq![0x20u8];
        let after = seq![0x1bu8, 0x5bu8, 0x30u8, 0x6du8];
        lemma_count_of_none(before, 0x20u8);
        lemma_count_of_none(after, 0x20u8);
        lemma_count_of_none(space.drop_last(), 0x20u8);
        assert(count_of(space, 0x20u8) == 1);
        lemma_count_of_both(before, space, 0x20u8);
        lemma_count_of_both(before + space, after, 0x20u8);
        assert(colour_suffix() =~= before + space + after);
    }
    lemma_count_of_both(colour_prefix(), red, 0x20u8);
    lemma_count_of_both(colour_prefix() + red, semicolon, 0x20u8);
    lemma_count_of_both(colour_prefix() + red + semicolon, green, 0x20u8);
    lemma_count_of_both(colour_prefix() + red + semicolon + green, semicolon, 0x20u8);
    lemma_count_of_both(colour_prefix() + red + semicolon + green + semicolon, blue, 0x20u8);
    lemma_count_of_both(
        colour_prefix() + red + semicolon + green + semicolon + blue,
        colour_suffix(),
        0x20u8,
    );
}

/// The first `count` cells of a row hold `count` spaces: one for each pixel.
pub proof fn lemma_cells_hold_one_space_each(grid: GridModel, y: int, count: int)
    requires
        count >= 0,
    ensures
        count_of(cells_bytes(grid, y, count), 0x20u8) == count,
    decreases count,
{
    if count > 0 {
        lemma_cells_hold_one_space_each(grid, y, count - 1);
        lemma_cell_has_one_space(grid.pixel(count - 1, y));
        lemma_count_of_both(
            cells_bytes(grid, y, count - 1),
            cell_bytes(grid.pixel(count - 1, y)),
            0x20u8,
        );
    }
}

/// A line of a grid with pixels holds one cell for each column of the grid,
/// and one newline.
pub proof fn lemma_line_holds_one_cell_per_column(grid: GridModel, y: int)
    requires
        !grid.is_empty(),
    ensures
        count_of(line_bytes(grid, y), 0x20u8) == grid.width,
        count_of(line_bytes(grid, y), 0x0au8) == 1,
{
    let cells = cells_bytes(grid, y, grid.width as int);
    lemma_cells_hold_one_space_each(grid, y, grid.width as int);
    lemma_cells_have_no_newline(grid, y, grid.width as int);
    lemma_count_of_none(cells, 0x0au8);
    assert(line_bytes(grid, y).drop_last() =~= cells);
}

/// The first `count` lines of a grid with pixels hold `count` newlines, and
/// one cell for each pixel of as many rows.
pub proof fn lemma_lines_hold_their_rows(grid: GridModel, count: int)
    requires
        !grid.is_empty(),
        count >= 0,
    ensures
        count_of(lines_bytes(grid, count), 0x0au8) == count,
        count_of(lines_bytes(grid, count), 0x20u8) == count * grid.width,
    decreases count,
{
    if count > 0 {
        lemma_lines_hold_their_rows(grid, count - 1);
        lemma_line_holds_one_cell_per_column(grid, count - 1);
        lemma_count_of_both(lines_bytes(grid, count - 1), line_bytes(grid, count - 1), 0x0au8);
        lemma_count_of_both(lines_bytes(grid, count - 1), line_bytes(grid, count - 1), 0x20u8);
        assert(count * grid.width == (count - 1) * grid.width + grid.width) by (nonlinear_arith);
    }
}

/// The encoding shows the grid as it is: a grid with pixels is encoded as one
/// line for each of its rows and one cell for each of its pixels, and every
/// line holds as many cells as the grid has columns.
pub proof fn lemma_encoding_shows_the_grid(grid: GridModel)
    requires
        !grid.is_empty(),
    ensures
        line_count(grid) == grid.height,
        count_of(image_bytes(grid), 0x0au8) == grid.height,
        count_of(image_bytes(grid), 0x20u8) == grid.height * grid.width,
        forall|y: int| #[trigger] count_of(line_bytes(grid, y), 0x20u8) == grid.width,
{
    lemma_lines_hold_their_rows(grid, grid.height as int);
    assert forall|y: int| #[trigger] count_of(line_bytes(grid, y), 0x20u8) == grid.width by {
        lemma_line_holds_one_cell_per_column(grid, y);
    }
}

/// The encoding is the lines one after the other: it begins with nothing,
/// every line is added behind those before it, and all lines together are
/// the image. Writing the lines in turn therefore writes the image.
pub proof fn lemma_image_is_its_lines(grid: GridModel, count: int)
    requires
        0 < count <= line_count(grid),
    ensures
        lines_bytes(grid, 0) == Seq::<u8>::empty(),
        lines_bytes(grid, count) == lines_bytes(grid, count - 1) + line_bytes(grid, count - 1),
        image_bytes(grid) == lines_bytes(grid, line_count(grid) as int),
{
}

/// Encoding is a function of the grid: encoding the same pixels again gives
/// the same bytes.
pub proof fn lemma_encoding_repeats(first: PixelGrid, second: PixelGrid, once: Seq<u8>, again: Seq<u8>)
    requires
        first@ == second@,
        once == image_bytes(first@),
        again == image_bytes(second@),
    ensures
        once == again,
{
}

/// The encoding of every grid ends in a newline.
pub proof fn lemma_encoding_ends_in_newline(grid: GridModel)
    ensures
        image_bytes(grid).len() > 0,
        image_bytes(grid).last() == 0x0au8,
{
    let count = line_count(grid) as int;
}

} // verus!
