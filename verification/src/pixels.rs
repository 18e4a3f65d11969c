//! The pixels of a decoded image, row by row, and the average colour of
//! each row.

use vstd::prelude::*;
use crate::FIXED_ONE;

verus! {

/// A decoded image with four bytes per pixel, as the `image` crate holds
/// it. Nothing inside it is visible to the proofs; the library reads it
/// through `dimensions_of` and `pixel_of` only.
#[verifier::external_body]
pub struct DecodedImage {
    pub buffer: image::RgbaImage,
}

/// The width and the height of `image`, in pixels, as `dimensions` reports them.
pub uninterp spec fn image_dimensions(image: DecodedImage) -> (u32, u32);

/// The red, green, blue and alpha bytes of the pixel in column `x` of row
/// `y` of `image`, as `get_pixel` reports them.
pub uninterp spec fn image_pixel(image: DecodedImage, x: u32, y: u32) -> [u8; 4];

/// Calls `ImageBuffer::dimensions`, which returns the width and the height
/// that the buffer was made with. Assumed: the pair is a function of the
/// image.
#[verifier::external_body]
fn dimensions_of(image: &DecodedImage) -> (size: (u32, u32))
    ensures
        size == image_dimensions(*image),
{
    image.buffer.dimensions()
}

/// Calls `ImageBuffer::get_pixel` and hands out the pixel's four bytes.
/// `get_pixel` panics outside the image, so the coordinates must lie inside
/// it. Assumed: the bytes are a function of the image and the coordinates.
#[verifier::external_body]
fn pixel_of(image: &DecodedImage, x: u32, y: u32) -> (pixel: [u8; 4])
    requires
        x < image_dimensions(*image).0,
        y < image_dimensions(*image).1,
    ensures
        pixel == image_pixel(*image, x, y),
{
    image.buffer.get_pixel(x, y).0
}

/// The sum of one colour channel over the pixels of `row`.
pub open spec fn channel_sum(row: Seq<[u8; 4]>, channel: int) -> int
    decreases row.len(),
{
    if row.len() == 0 {
        0
    } else {
        channel_sum(row.drop_last(), channel) + row.last()[channel]
    }
}

/// The mean of one colour channel over the pixels of `row`, as a
/// fixed-point number: the exact mean times `FIXED_ONE`, rounded down.
pub open spec fn channel_average(row: Seq<[u8; 4]>, channel: int) -> int {
    channel_sum(row, channel) * FIXED_ONE / (row.len() as int)
}

/// A channel's sum is at most 255 per pixel.
pub proof fn lemma_channel_sum_bounds(row: Seq<[u8; 4]>, channel: int)
    requires
        0 <= channel < 4,
    ensures
        0 <= channel_sum(row, channel) <= 255 * row.len(),
    decreases row.len(),
{
    if row.len() > 0 {
        lemma_channel_sum_bounds(row.drop_last(), channel);
    }
}

/// The average colour of a row of pixels: the mean of each of the four
/// channels, as fixed-point numbers.
pub fn average_color(row: &Vec<[u8; 4]>) -> (average: [i64; 4])
    requires
        row@.len() > 0,
    ensures
        forall|channel: int|
            0 <= channel < 4 ==> #[trigger] average[channel] == channel_average(row@, channel),
{
    let count: usize = row.len();
    let mut acc: [u128; 4] = [0, 0, 0, 0];
    let mut x: usize = 0;
    while x < count
        invariant
            x <= count,
            count == row@.len(),
            forall|channel: int|
                0 <= channel < 4 ==> #[trigger] acc[channel] == channel_sum(
                    row@.take(x as int),
                    channel,
                ),
        decreases count - x,
    {
        proof {
            assert(row@.take(x + 1).drop_last() == row@.take(x as int));
            lemma_channel_sum_bounds(row@.take(x as int), 0);
            lemma_channel_sum_bounds(row@.take(x as int), 1);
            lemma_channel_sum_bounds(row@.take(x as int), 2);
            lemma_channel_sum_bounds(row@.take(x as int), 3);
        }
        let p = row[x];
        acc = [
            acc[0] + p[0] as u128,
            acc[1] + p[1] as u128,
            acc[2] + p[2] as u128,
            acc[3] + p[3] as u128,
        ];
        x = x + 1;
    }
    proof {
        assert(row@.take(count as int) == row@);
        lemma_channel_sum_bounds(row@, 0);
        lemma_channel_sum_bounds(row@, 1);
        lemma_channel_sum_bounds(row@, 2);
        lemma_channel_sum_bounds(row@, 3);
    }
    let one: u128 = FIXED_ONE as u128;
    let width: u128 = count as u128;
    let r: u128 = acc[0] * one / width;
    let g: u128 = acc[1] * one / width;
    let b: u128 = acc[2] * one / width;
    let a: u128 = acc[3] * one / width;
    proof {
        lemma_average_bounds(acc[0] as int, width as int);
        lemma_average_bounds(acc[1] as int, width as int);
        lemma_average_bounds(acc[2] as int, width as int);
        lemma_average_bounds(acc[3] as int, width as int);
    }
    [r as i64, g as i64, b as i64, a as i64]
}

/// The mean of values of at most 255 is at most 255.
proof fn lemma_average_bounds(sum: int, count: int)
    requires
        count > 0,
        0 <= sum <= 255 * count,
    ensures
        0 <= sum * FIXED_ONE / count <= 255 * FIXED_ONE,
{
    assert(0 <= sum * 65536 / count <= 255 * 65536) by (nonlinear_arith)
        requires
            count > 0,
            0 <= sum <= 255 * count,
    ;
}

/// An image as rows of pixels, each pixel its red, green, blue and alpha
/// byte.
pub struct ImageData {
    width: u32,
    height: u32,
    rows: Vec<Vec<[u8; 4]>>,
}

impl ImageData {
    /// The number of pixels in each row.
    pub closed spec fn spec_width(self) -> nat {
        self.width as nat
    }

    /// The number of rows.
    pub closed spec fn spec_height(self) -> nat {
        self.height as nat
    }

    /// The rows from top to bottom, each from left to right.
    pub closed spec fn spec_rows(self) -> Seq<Seq<[u8; 4]>> {
        Seq::new(self.rows@.len(), |y: int| self.rows@[y]@)
    }

    /// There are `height` rows of `width` pixels each.
    pub open spec fn wf(self) -> bool {
        &&& self.spec_rows().len() == self.spec_height()
        &&& forall|y: int|
            0 <= y < self.spec_rows().len() ==> (#[trigger] self.spec_rows()[y]).len()
                == self.spec_width()
    }

    /// The number of pixels in each row.
    pub fn width(&self) -> (width: u32)
        ensures
            width == self.spec_width(),
    {
        self.width
    }

    /// The number of rows.
    pub fn height(&self) -> (height: u32)
        ensures
            height == self.spec_height(),
    {
        self.height
    }

    /// Copies the pixels out of a decoded image.
    pub fn new(image: DecodedImage) -> (data: ImageData)
        ensures
            data.wf(),
            data.spec_width() == image_dimensions(image).0,
            data.spec_height() == image_dimensions(image).1,
            forall|x: int, y: int|
                0 <= y < data.spec_height() && 0 <= x < data.spec_width()
                    ==> (#[trigger] data.spec_rows()[y][x])
                    == image_pixel(image, x as u32, y as u32),
    {
        let (width, height) = dimensions_of(&image);
        let mut rows: Vec<Vec<[u8; 4]>> = Vec::new();
        let mut y: u32 = 0;
        while y < height
            invariant
                (width, height) == image_dimensions(image),
                y <= height,
                rows@.len() == y,
                forall|j: int| 0 <= j < y ==> (#[trigger] rows@[j])@.len() == width,
                forall|i: int, j: int|
                    0 <= j < y && 0 <= i < width ==> (#[trigger] rows@[j]@[i]) == image_pixel(
                        image,
                        i as u32,
                        j as u32,
                    ),
            decreases height - y,
        {
            let mut row_data: Vec<[u8; 4]> = Vec::new();
            let mut x: u32 = 0;
            while x < width
                invariant
                    (width, height) == image_dimensions(image),
                    y < height,
                    x <= width,
                    row_data@.len() == x,
                    forall|i: int|
                        0 <= i < x ==> (#[trigger] row_data@[i]) == image_pixel(
                            image,
                            i as u32,
                            y,
                        ),
                decreases width - x,
            {
                let pixel = pixel_of(&image, x, y);
                row_data.push(pixel);
                x = x + 1;
            }
            rows.push(row_data);
            y = y + 1;
        }
        ImageData { width, height, rows }
    }

    /// The average colour of every row, from top to bottom.
    pub fn get_row_averages(&self) -> (averages: Vec<[i64; 4]>)
        requires
            self.wf(),
            self.spec_height() > 0 ==> self.spec_width() > 0,
        ensures
            averages@.len() == self.spec_height(),
            forall|y: int, channel: int|
                0 <= y < self.spec_height() && 0 <= channel < 4 ==> #[trigger] averages@[y][channel]
                    == channel_average(self.spec_rows()[y], channel),
    {
        let mut averages: Vec<[i64; 4]> = Vec::new();
        let mut y: usize = 0;
        while y < self.rows.len()
            invariant
                self.wf(),
                self.spec_height() > 0 ==> self.spec_width() > 0,
                y <= self.rows@.len(),
                averages@.len() == y,
                forall|j: int, channel: int|
                    0 <= j < y && 0 <= channel < 4 ==> #[trigger] averages@[j][channel]
                        == channel_average(self.spec_rows()[j], channel),
            decreases self.rows@.len() - y,
        {
            assert(self.spec_rows()[y as int] == self.rows@[y as int]@);
            let average = average_color(&self.rows[y]);
            averages.push(average);
            y = y + 1;
        }
        averages
    }
}

} // verus!
