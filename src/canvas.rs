//! What the library takes from the `image` crate: decoding, the canvas
//! buffer and copying a tile into it.
//!
//! The canvas is an RGBA image buffer. Its contents are named by
//! [`canvas_pixels`] and [`canvas_size`], those of a decoded image by
//! [`image_pixels`] and [`image_size`]; the contracts speak of them.

use vstd::prelude::*;

verus! {

/// A decoded image of any pixel layout.
#[verifier::external_type_specification]
#[verifier::external_body]
pub struct ExDynamicImage(image::DynamicImage);

/// A decoding error of the `image` crate.
#[verifier::external_type_specification]
#[verifier::external_body]
pub struct ExImageError(image::ImageError);

/// An I/O error, as reported by format inference.
#[verifier::external_type_specification]
#[verifier::external_body]
pub struct ExIoError(std::io::Error);

/// The output bitmap: an 8-bit RGBA image buffer of the `image` crate.
#[verifier::external_body]
pub struct CanvasBuffer {
    buffer: image::ImageBuffer<image::Rgba<u8>, Vec<u8>>,
}

/// The pixels of a canvas, by (column, row), each as its four channels.
pub uninterp spec fn canvas_pixels(c: CanvasBuffer) -> Map<(int, int), Seq<u8>>;

/// The width and height of a canvas.
pub uninterp spec fn canvas_size(c: CanvasBuffer) -> (int, int);

/// The pixels of a decoded image as RGBA, by (column, row), each as its four
/// channels.
pub uninterp spec fn image_pixels(t: image::DynamicImage) -> Map<(int, int), Seq<u8>>;

/// The width and height of a decoded image.
pub uninterp spec fn image_size(t: image::DynamicImage) -> (int, int);

/// The size and the RGBA pixels of a decoded image.
pub struct DecodedImage {
    pub width: int,
    pub height: int,
    pub pixels: Map<(int, int), Seq<u8>>,
}

/// The image that `bytes` decode to, the format inferred from the content;
/// `None` where they do not decode.
pub uninterp spec fn decoded(bytes: Seq<u8>) -> Option<DecodedImage>;

/// The points of a `width` by `height` rectangle at the origin.
pub open spec fn in_rect(p: (int, int), width: int, height: int) -> bool {
    0 <= p.0 < width && 0 <= p.1 < height
}

/// A `width` by `height` bitmap of transparent black.
pub open spec fn blank(width: int, height: int) -> Map<(int, int), Seq<u8>> {
    Map::new(|p: (int, int)| in_rect(p, width, height), |p: (int, int)| seq![0u8, 0u8, 0u8, 0u8])
}

/// `base` with the `width` by `height` bitmap `tile` written over it with
/// its corner at (`x`, `y`).
pub open spec fn pasted(
    base: Map<(int, int), Seq<u8>>,
    tile: Map<(int, int), Seq<u8>>,
    x: int,
    y: int,
    width: int,
    height: int,
) -> Map<(int, int), Seq<u8>> {
    Map::new(
        |p: (int, int)| base.dom().contains(p),
        |p: (int, int)|
            if x <= p.0 < x + width && y <= p.1 < y + height {
                tile[(p.0 - x, p.1 - y)]
            } else {
                base[p]
            },
    )
}

/// The bytes of a `width` by `height` bitmap, row after row, four channels
/// per pixel.
pub open spec fn row_major(pixels: Map<(int, int), Seq<u8>>, width: int, height: int) -> Seq<u8> {
    Seq::new((4 * width * height) as nat, |i: int| pixels[((i / 4) % width, (i / 4) / width)][i % 4])
}

impl CanvasBuffer {
    /// Relies on `ImageBuffer::new`: a buffer of the given size with every
    /// channel zero. It panics where four bytes per pixel, times the width
    /// and then times the height, overflow `usize`.
    #[verifier::external_body]
    pub(crate) fn blank(width: u32, height: u32) -> (c: CanvasBuffer)
        requires
            4 * width <= usize::MAX,
            4 * width * height <= usize::MAX,
        ensures
            canvas_size(c) == (width as int, height as int),
            canvas_pixels(c) == blank(width as int, height as int),
    {
        CanvasBuffer { buffer: image::ImageBuffer::new(width, height) }
    }

    /// Relies on `GenericImage::copy_from` of `ImageBuffer`: where the image
    /// fits the canvas at (`x`, `y`) each of its pixels, as
    /// `GenericImageView::get_pixel` gives it, is written there; otherwise the
    /// canvas is left alone and an error returned. Its bounds check adds `x`
    /// and `y` to the image's size in `u32`.
    #[verifier::external_body]
    pub(crate) fn copy_from(&mut self, t: &image::DynamicImage, x: u32, y: u32) -> (r: Result<(), image::ImageError>)
        requires
            x + image_size(*t).0 <= u32::MAX,
            y + image_size(*t).1 <= u32::MAX,
        ensures
            canvas_size(*final(self)) == canvas_size(*old(self)),
            ({
                let fits = x + image_size(*t).0 <= canvas_size(*old(self)).0
                    && y + image_size(*t).1 <= canvas_size(*old(self)).1;
                &&& fits ==> r is Ok && canvas_pixels(*final(self)) == pasted(
                    canvas_pixels(*old(self)),
                    image_pixels(*t),
                    x as int,
                    y as int,
                    image_size(*t).0,
                    image_size(*t).1,
                )
                &&& !fits ==> r is Err && canvas_pixels(*final(self)) == canvas_pixels(*old(self))
            }),
        no_unwind
    {
        image::GenericImage::copy_from(&mut self.buffer, t, x, y)
    }

    /// Relies on `ImageBuffer::into_raw`: the channels of the pixels, row
    /// after row.
    #[verifier::external_body]
    pub(crate) fn into_raw(self) -> (r: Vec<u8>)
        ensures
            r@ == row_major(canvas_pixels(self), canvas_size(self).0, canvas_size(self).1),
    {
        self.buffer.into_raw()
    }
}

/// Relies on `GenericImageView::dimensions` of `DynamicImage`: its width
/// and height.
#[verifier::external_body]
pub(crate) fn image_dimensions(t: &image::DynamicImage) -> (r: (u32, u32))
    ensures
        (r.0 as int, r.1 as int) == image_size(*t),
{
    image::GenericImageView::dimensions(t)
}

/// Relies on `image::io::Reader::with_guessed_format`, which infers the
/// container format from the first bytes, and `Reader::decode`; each one's
/// error is kept in its own variant. The outcome depends on the bytes alone.
#[verifier::external_body]
pub(crate) fn decode_bytes(bytes: Vec<u8>) -> (r: Result<image::DynamicImage, RipError>)
    ensures
        (r is Ok) == (decoded(bytes@) is Some),
        r is Ok ==> ({
            let d = decoded(bytes@)->0;
            image_size(r->Ok_0) == (d.width, d.height) && image_pixels(r->Ok_0) == d.pixels
        }),
        r is Err ==> (r->Err_0 is ImageError || r->Err_0 is ImageFormatGuessError),
{
    image::io::Reader::new(std::io::Cursor::new(bytes))
        .with_guessed_format()
        .map_err(RipError::ImageFormatGuessError)?
        .decode()
        .map_err(RipError::ImageError)
}

/// Relies on `Itertools::cartesian_product` over two ranges, which yields
/// each column with every row in turn.
#[verifier::external_body]
pub(crate) fn grid_cells(columns: usize, rows: usize) -> (r: Vec<(usize, usize)>)
    requires
        columns * rows <= isize::MAX / 16,
    ensures
        r@.len() == columns * rows,
        forall|i: int| 0 <= i < r@.len() ==> #[trigger] r@[i] == ((i / rows as int) as usize, (i % rows as int) as usize),
{
    itertools::Itertools::cartesian_product(0..columns, 0..rows).collect()
}

/// Failure to fetch or to assemble an image.
#[derive(Debug)]
pub enum RipError {
    /// A request failed.
    HttpError(reqwest::Error),
    /// A tile could not be decoded.
    ImageError(image::ImageError),
    /// The format of a tile could not be inferred.
    ImageFormatGuessError(std::io::Error),
    /// The grid's size in pixels does not fit an image buffer.
    CanvasTooLarge,
    /// A tile does not fit the canvas at its place.
    TileOutOfBounds,
}

} // verus!
