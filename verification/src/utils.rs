//! The picture that a render fills, and a stopwatch for the caller's
//! progress reports.

use image::{ImageBuffer, Rgb};
use std::time::{Duration, Instant};
use vstd::prelude::*;

verus! {

#[verifier::external_type_specification]
#[verifier::external_body]
pub struct ExInstant(Instant);

/// `Instant::now` reads the clock; nothing is claimed of the moment it returns.
pub assume_specification[ Instant::now ]() -> (now: Instant);

/// `Instant::elapsed` reads the clock again; nothing is claimed of the time
/// it returns.
pub assume_specification[ Instant::elapsed ](start: &Instant) -> (elapsed: Duration);

/// A stopwatch: the moment at which it was started.
pub struct Timer(Instant);

impl Timer {
    /// Starts a stopwatch now.
    pub fn new() -> (timer: Timer) {
        Timer(Instant::now())
    }

    /// The time that has passed since the stopwatch was started.
    pub fn elapsed(&self) -> (elapsed: Duration) {
        self.0.elapsed()
    }
}

/// One picture element: red, green and blue.
#[derive(Clone, Copy, Debug, PartialEq, Eq, Structural)]
pub struct Rgb8 {
    pub r: u8,
    pub g: u8,
    pub b: u8,
}

/// A picture: a grid of pixels, `width` to a row and `height` rows, the
/// first row on top. It is kept in a buffer of the `image` crate.
#[verifier::external_body]
pub struct Image(ImageBuffer<Rgb<u8>, Vec<u8>>);

/// The width and the height of a buffer: what `ImageBuffer::dimensions`
/// returns.
pub uninterp spec fn buffer_grid(buffer: Image) -> (nat, nat);

/// The pixels of a buffer, row by row from the top, each row from the left:
/// what `ImageBuffer::pixels` walks through.
pub uninterp spec fn buffer_pixels(buffer: Image) -> Seq<Rgb8>;

/// `ImageBuffer::new`: a buffer of the given width and height whose samples
/// are all zero. It counts the samples, three to a pixel, first of a row and
/// then of all rows, and panics where either count does not fit in `usize`.
#[verifier::external_body]
fn buffer_new(width: u32, height: u32) -> (buffer: Image)
    requires
        3 * width <= usize::MAX,
        3 * width * height <= usize::MAX,
    ensures
        buffer_grid(buffer) == (width as nat, height as nat),
        buffer_pixels(buffer) == Seq::new(
            (width * height) as nat,
            |i: int| Rgb8 { r: 0, g: 0, b: 0 },
        ),
{
    Image(ImageBuffer::new(width, height))
}

/// The pixels that `samples` spell out, three samples to a pixel.
pub open spec fn pixels_of(samples: Seq<u8>, count: nat) -> Seq<Rgb8> {
    Seq::new(
        count,
        |i: int| Rgb8 { r: samples[3 * i], g: samples[3 * i + 1], b: samples[3 * i + 2] },
    )
}

/// `ImageBuffer::from_raw`: a buffer of the given width and height over
/// `samples`, where the samples of a row, three to a pixel, can be counted in
/// `usize` and `samples` holds at least those of all rows; none otherwise.
/// The pixels are read off the samples in row order.
#[verifier::external_body]
fn buffer_from_raw(width: u32, height: u32, samples: Vec<u8>) -> (buffer: Option<Image>)
    ensures
        buffer is Some <==> (3 * width <= usize::MAX && 3 * width * height <= samples.len()),
        buffer matches Some(b) ==> {
            &&& buffer_grid(b) == (width as nat, height as nat)
            &&& buffer_pixels(b) == pixels_of(samples@, (width * height) as nat)
        },
{
    match ImageBuffer::from_raw(width, height, samples) {
        Some(buffer) => Some(Image(buffer)),
        None => None,
    }
}

/// `ImageBuffer::into_raw`: the samples under the buffer. They start with
/// those of its pixels in row order, three to a pixel.
#[verifier::external_body]
fn buffer_into_raw(buffer: Image) -> (samples: Vec<u8>)
    ensures
        3 * buffer_pixels(buffer).len() <= samples.len(),
        buffer_pixels(buffer) == pixels_of(samples@, buffer_pixels(buffer).len()),
{
    buffer.0.into_raw()
}

/// `ImageBuffer::dimensions`: width and height. A buffer holds one pixel for
/// each place in that grid.
#[verifier::external_body]
fn buffer_dimensions(buffer: &Image) -> (dimensions: (u32, u32))
    ensures
        buffer_grid(*buffer) == (dimensions.0 as nat, dimensions.1 as nat),
        buffer_pixels(*buffer).len() == dimensions.0 * dimensions.1,
{
    buffer.0.dimensions()
}

/// `ImageBuffer::get_pixel`: the pixel in column `x` of row `y`, which is
/// pixel `y * width + x` in row order. It panics outside the grid.
#[verifier::external_body]
fn buffer_get(buffer: &Image, x: u32, y: u32) -> (pixel: Rgb8)
    requires
        x < buffer_grid(*buffer).0,
        y < buffer_grid(*buffer).1,
    ensures
        pixel == buffer_pixels(*buffer)[y * buffer_grid(*buffer).0 + x],
{
    let Rgb([r, g, b]) = *buffer.0.get_pixel(x, y);
    Rgb8 { r, g, b }
}

/// `ImageBuffer::get_pixel_mut`, written through: the pixel in column `x` of
/// row `y` becomes `pixel`, and nothing else changes. It panics outside the
/// grid.
#[verifier::external_body]
fn buffer_set(buffer: &mut Image, x: u32, y: u32, pixel: Rgb8)
    requires
        x < buffer_grid(*old(buffer)).0,
        y < buffer_grid(*old(buffer)).1,
    ensures
        buffer_grid(*final(buffer)) == buffer_grid(*old(buffer)),
        buffer_pixels(*final(buffer)) == buffer_pixels(*old(buffer)).update(
            y * buffer_grid(*old(buffer)).0 + x,
            pixel,
        ),
{
    *buffer.0.get_pixel_mut(x, y) = Rgb([pixel.r, pixel.g, pixel.b]);
}

impl Image {
    pub closed spec fn width(&self) -> nat {
        buffer_grid(*self).0
    }

    pub closed spec fn height(&self) -> nat {
        buffer_grid(*self).1
    }

    /// The pixels row by row from the top, each row from the left.
    pub closed spec fn pixels(&self) -> Seq<Rgb8> {
        buffer_pixels(*self)
    }

    /// The pixel in column `x` of row `y`.
    pub open spec fn at(&self, x: int, y: int) -> Rgb8 {
        self.pixels()[crate::parallel::place(self.width(), x, y)]
    }

    /// A picture holds one pixel for each place in its grid.
    pub open spec fn wf(&self) -> bool {
        self.pixels().len() == self.width() * self.height()
    }

    /// A black picture of the given width and height. The samples of a row,
    /// three to a pixel, and those of the picture must not outnumber `usize`.
    pub fn new(width: u32, height: u32) -> (image: Image)
        requires
            3 * width <= usize::MAX,
            3 * width * height <= usize::MAX,
        ensures
            image.wf(),
            image.width() == width,
            image.height() == height,
            forall|i: int|
                0 <= i < width * height ==> image.pixels()[i] == (Rgb8 { r: 0, g: 0, b: 0 }),
    {
        buffer_new(width, height)
    }

    /// Width and height.
    pub fn dimensions(&self) -> (dimensions: (u32, u32))
        ensures
            dimensions.0 == self.width(),
            dimensions.1 == self.height(),
            self.wf(),
    {
        buffer_dimensions(self)
    }

    /// The pixel in column `x` of row `y`.
    pub fn pixel(&self, x: u32, y: u32) -> (pixel: Rgb8)
        requires
            x < self.width(),
            y < self.height(),
        ensures
            pixel == self.at(x as int, y as int),
    {
        buffer_get(self, x, y)
    }

    /// The pixel in column `x` of row `y`, or none outside the grid.
    pub fn get(&self, x: u32, y: u32) -> (pixel: Option<Rgb8>)
        ensures
            pixel == if x < self.width() && y < self.height() {
                Some(self.at(x as int, y as int))
            } else {
                None
            },
    {
        let (width, height) = self.dimensions();
        if x < width && y < height {
            Some(self.pixel(x, y))
        } else {
            None
        }
    }

    /// Sets the pixel in column `x` of row `y` and tells whether there is
    /// one: outside the grid nothing changes.
    pub fn set(&mut self, x: u32, y: u32, value: Rgb8) -> (inside: bool)
        ensures
            inside == (x < old(self).width() && y < old(self).height()),
            final(self).width() == old(self).width(),
            final(self).height() == old(self).height(),
            final(self).pixels() == if inside {
                old(self).pixels().update(
                    crate::parallel::place(old(self).width(), x as int, y as int),
                    value,
                )
            } else {
                old(self).pixels()
            },
    {
        let (width, height) = self.dimensions();
        if x < width && y < height {
            buffer_set(self, x, y, value);
            true
        } else {
            false
        }
    }

    /// Sets the pixel in column `x` of row `y`, and no other.
    pub fn assign_pixel(&mut self, x: i32, y: i32, value: Rgb8)
        requires
            0 <= x < old(self).width(),
            0 <= y < old(self).height(),
        ensures
            final(self).width() == old(self).width(),
            final(self).height() == old(self).height(),
            final(self).pixels() == old(self).pixels().update(
                crate::parallel::place(old(self).width(), x as int, y as int),
                value,
            ),
    {
        buffer_set(self, x as u32, y as u32, value);
    }

    /// The picture of the given width and height that `samples` spell out
    /// row by row, three samples to a pixel; none where they are too few, or
    /// where the samples of a row outnumber `usize`. Samples beyond the last
    /// pixel are kept and not shown.
    pub fn from_raw(width: u32, height: u32, samples: Vec<u8>) -> (image: Option<Image>)
        ensures
            image is Some <==> (3 * width <= usize::MAX && 3 * width * height <= samples.len()),
            image matches Some(i) ==> {
                &&& i.wf()
                &&& i.width() == width
                &&& i.height() == height
                &&& i.pixels() == pixels_of(samples@, (width * height) as nat)
            },
    {
        buffer_from_raw(width, height, samples)
    }

    /// The samples of the picture row by row, three to a pixel, and after
    /// them whatever the picture kept and did not show.
    pub fn into_raw(self) -> (samples: Vec<u8>)
        ensures
            3 * self.pixels().len() <= samples.len(),
            self.pixels() == pixels_of(samples@, self.pixels().len()),
    {
        buffer_into_raw(self)
    }
}

} // verus!
