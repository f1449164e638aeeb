//! From the radiance of each pixel to the picture.
//!
//! The rows of a picture are independent of each other, so a caller may
//! evaluate them on as many workers as it likes, one row to a worker at a
//! time. What it hands in here is, for each pixel, the averaged and
//! gamma-corrected radiance, held to [0, 1] and scaled by 255.99.

use crate::utils::{Image, Rgb8};
use crate::vector::Vector3;
use vstd::prelude::*;

verus! {

/// The height of the picture of a default render.
pub const DIM: u32 = 200;

pub const HEIGHT: u32 = DIM;

pub const WIDTH: u32 = DIM * 2;

/// The rays that are averaged for one pixel.
pub const ANTIALIASING: i32 = 50;

/// The casts through which a path is followed.
pub const DEPTH: i32 = 3;

/// The place of column `x` of row `y` among the pixels of a picture that is
/// `width` wide: rows come one after the other, the top row first.
pub open spec fn place(width: nat, x: int, y: int) -> int {
    y * width + x
}

/// Every pixel of a grid has its place among the pixels of the picture.
pub proof fn lemma_place_in_grid(width: nat, height: nat, x: int, y: int)
    requires
        0 <= x < width,
        0 <= y < height,
    ensures
        0 <= place(width, x, y) < width * height,
{
    assert(y * width + width <= height * width) by (nonlinear_arith)
        requires
            0 <= y < height,
    ;
    assert(0 <= y * width) by (nonlinear_arith)
        requires
            0 <= y,
    ;
    assert(height * width == width * height) by (nonlinear_arith);
}

/// No two pixels share a place: rows do not overlap, so what is written for
/// one row leaves every other row as it was.
pub proof fn lemma_places_apart(width: nat, x1: int, y1: int, x2: int, y2: int)
    requires
        0 <= x1 < width,
        0 <= x2 < width,
        0 <= y1,
        0 <= y2,
        x1 != x2 || y1 != y2,
    ensures
        place(width, x1, y1) != place(width, x2, y2),
{
    if y1 < y2 {
        assert(y1 * width + width <= y2 * width) by (nonlinear_arith)
            requires
                y1 < y2,
        ;
    } else if y2 < y1 {
        assert(y2 * width + width <= y1 * width) by (nonlinear_arith)
            requires
                y2 < y1,
        ;
    }
}

/// The pixel of a scaled radiance: each channel cut down to a byte.
pub open spec fn quantized(scaled: Vector3) -> Rgb8 {
    Rgb8 {
        r: scaled.x.truncated() as u8,
        g: scaled.y.truncated() as u8,
        b: scaled.z.truncated() as u8,
    }
}

/// Cuts a scaled radiance down to a pixel.
pub fn quantize(scaled: Vector3) -> (pixel: Rgb8)
    ensures
        pixel == quantized(scaled),
{
    Rgb8 { r: scaled.x.to_byte(), g: scaled.y.to_byte(), b: scaled.z.to_byte() }
}

/// Why no picture was made.
#[derive(Clone, Copy, Debug, PartialEq, Eq, Structural)]
pub enum RenderError {
    /// The samples of a row or of the picture, three to a pixel, cannot be
    /// counted in `usize`.
    TooLarge,
    /// There are not as many rows as the picture is high.
    RowCount,
    /// Row `row` is the first that is not as long as the picture is wide.
    RowLength { row: usize },
}

/// Whether the samples of a picture of the given width and height, three to
/// a pixel, can be counted in `usize`, those of one row and those of all.
pub open spec fn fits(width: u32, height: u32) -> bool {
    3 * width <= usize::MAX && 3 * width * height <= usize::MAX
}

/// Whether `rows` are the rows of a grid of the given width and height.
pub open spec fn is_grid(width: u32, height: u32, rows: Seq<Vec<Vector3>>) -> bool {
    &&& rows.len() == height
    &&& forall|y: int| 0 <= y < rows.len() ==> (#[trigger] rows[y]).len() == width
}

/// Makes the picture of the scaled radiances in `rows`, the top row first:
/// the pixel in column `x` of row `y` is that of `rows[y][x]`.
pub fn render(width: u32, height: u32, rows: &Vec<Vec<Vector3>>) -> (picture: Result<
    Image,
    RenderError,
>)
    ensures
        match picture {
            Ok(image) => {
                &&& fits(width, height)
                &&& is_grid(width, height, rows@)
                &&& image.wf()
                &&& image.width() == width
                &&& image.height() == height
                &&& forall|x: int, y: int|
                    0 <= x < width && 0 <= y < height ==> #[trigger] image.at(x, y) == quantized(
                        rows[y][x],
                    )
            },
            Err(RenderError::TooLarge) => !fits(width, height),
            Err(RenderError::RowCount) => fits(width, height) && rows.len() != height,
            Err(RenderError::RowLength { row }) => {
                &&& fits(width, height)
                &&& rows.len() == height
                &&& row < rows.len()
                &&& rows[row as int].len() != width
                &&& forall|y: int| 0 <= y < row ==> (#[trigger] rows[y]).len() == width
            },
        },
{
    assert((width as u128) * (height as u128) <= 0xffff_ffff * 0xffff_ffff) by (nonlinear_arith)
        requires
            width <= 0xffff_ffff,
            height <= 0xffff_ffff,
    ;
    assert(3 * width * height == 3 * (width * height)) by (nonlinear_arith);
    if 3 * (width as u128) > usize::MAX as u128 || 3 * ((width as u128) * (height as u128))
        > usize::MAX as u128 {
        return Err(RenderError::TooLarge);
    }
    if rows.len() != height as usize {
        return Err(RenderError::RowCount);
    }
    let mut counted: usize = 0;
    while counted < rows.len()
        invariant
            counted <= rows.len(),
            rows.len() == height,
            fits(width, height),
            forall|y: int| 0 <= y < counted ==> (#[trigger] rows[y]).len() == width,
        decreases rows.len() - counted,
    {
        if rows[counted].len() != width as usize {
            return Err(RenderError::RowLength { row: counted });
        }
        counted += 1;
    }
    let mut image = Image::new(width, height);
    let mut y: u32 = 0;
    while y < height
        invariant
            y <= height,
            is_grid(width, height, rows@),
            image.wf(),
            image.width() == width,
            image.height() == height,
            forall|i: int, j: int|
                0 <= i < width && 0 <= j < y ==> #[trigger] image.at(i, j) == quantized(rows[j][i]),
        decreases height - y,
    {
        let row = &rows[y as usize];
        let mut x: u32 = 0;
        while x < width
            invariant
                x <= width,
                y < height,
                is_grid(width, height, rows@),
                *row == rows[y as int],
                image.wf(),
                image.width() == width,
                image.height() == height,
                forall|i: int, j: int|
                    0 <= i < width && 0 <= j < y ==> #[trigger] image.at(i, j) == quantized(
                        rows[j][i],
                    ),
                forall|i: int| 0 <= i < x ==> #[trigger] image.at(i, y as int) == quantized(row[i]),
            decreases width - x,
        {
            let ghost before = image;
            let pixel = quantize(row[x as usize]);
            image.set(x, y, pixel);
            proof {
                lemma_place_in_grid(width as nat, height as nat, x as int, y as int);
                assert forall|i: int, j: int|
                    0 <= i < width && 0 <= j < y implies #[trigger] image.at(i, j) == quantized(
                    rows[j][i],
                ) by {
                    lemma_places_apart(width as nat, i, j, x as int, y as int);
                    lemma_place_in_grid(width as nat, height as nat, i, j);
                    assert(before.at(i, j) == quantized(rows[j][i]));
                }
                assert forall|i: int| 0 <= i < x + 1 implies #[trigger] image.at(i, y as int)
                    == quantized(row[i]) by {
                    lemma_place_in_grid(width as nat, height as nat, i, y as int);
                    if i < x {
                        lemma_places_apart(width as nat, i, y as int, x as int, y as int);
                        assert(before.at(i, y as int) == quantized(row[i]));
                    }
                }
            }
            x += 1;
        }
        y += 1;
    }
    Ok(image)
}

} // verus!
