//! Compositing tiles into one canvas.
//!
//! The tile at column `x` and row `y` goes to pixel offset
//! (`x` · tile width, `y` · tile height). Tiles arrive in any order; the
//! first failure, of a fetch, a decode or a placement, is kept and ends the
//! assembly.

use vstd::prelude::*;
use crate::canvas::{
    CanvasBuffer, RipError, blank, canvas_pixels, decoded, canvas_size, decode_bytes, grid_cells,
    image_dimensions, image_pixels, image_size, pasted, row_major,
};

verus! {

/// A decoded tile together with its size in pixels.
pub struct Tile {
    image: image::DynamicImage,
    width: u32,
    height: u32,
}

/// The abstract value of a tile: its size and its RGBA pixels.
pub struct TileView {
    pub width: int,
    pub height: int,
    pub pixels: Map<(int, int), Seq<u8>>,
}

impl View for Tile {
    type V = TileView;

    closed spec fn view(&self) -> TileView {
        TileView { width: self.width as int, height: self.height as int, pixels: image_pixels(self.image) }
    }
}

impl Tile {
    #[verifier::type_invariant]
    spec fn well_formed(&self) -> bool {
        image_size(self.image) == (self.width as int, self.height as int)
    }

    /// Decodes the bytes of a tile, inferring the container format from the
    /// content alone.
    pub fn decode(bytes: Vec<u8>) -> (r: Result<Tile, RipError>)
        ensures
            (r is Ok) == (decoded(bytes@) is Some),
            r is Ok ==> ({
                let d = decoded(bytes@)->0;
                r->Ok_0@ == TileView { width: d.width, height: d.height, pixels: d.pixels }
            }),
            r is Err ==> (r->Err_0 is ImageError || r->Err_0 is ImageFormatGuessError),
    {
        match decode_bytes(bytes) {
            Err(e) => Err(e),
            Ok(image) => {
                let (width, height) = image_dimensions(&image);
                Ok(Tile { image, width, height })
            },
        }
    }

    /// The width of the tile in pixels.
    pub fn width(&self) -> (r: u32)
        ensures
            r == self@.width,
    {
        self.width
    }

    /// The height of the tile in pixels.
    pub fn height(&self) -> (r: u32)
        ensures
            r == self@.height,
    {
        self.height
    }
}

/// A finished image: `width` by `height` pixels, four channels each (RGBA),
/// row after row.
pub struct Bitmap {
    pub width: u32,
    pub height: u32,
    pub rgba: Vec<u8>,
}

/// The abstract state of an assembly.
pub struct AssemblyView {
    pub columns: int,
    pub rows: int,
    pub tile_width: int,
    pub tile_height: int,
    pub pixels: Map<(int, int), Seq<u8>>,
    pub failure: Option<RipError>,
}

/// The width of the canvas of an assembly.
pub open spec fn canvas_width(a: AssemblyView) -> int {
    a.columns * a.tile_width
}

/// The height of the canvas of an assembly.
pub open spec fn canvas_height(a: AssemblyView) -> int {
    a.rows * a.tile_height
}

/// The grid and the tile size can be held: the canvas fits `u32` sides and
/// `usize` bytes, and the cells can be listed.
pub open spec fn grid_fits(columns: int, rows: int, tile_width: int, tile_height: int) -> bool {
    &&& columns * tile_width <= u32::MAX
    &&& 4 * (columns * tile_width) <= usize::MAX
    &&& rows * tile_height <= u32::MAX
    &&& 4 * (columns * tile_width) * (rows * tile_height) <= usize::MAX
    &&& columns * rows <= isize::MAX / 16
}

/// The assembly of a `columns` by `rows` grid right after the head tile was
/// written at the origin.
pub open spec fn started(columns: int, rows: int, head: TileView) -> AssemblyView {
    AssemblyView {
        columns,
        rows,
        tile_width: head.width,
        tile_height: head.height,
        pixels: pasted(
            blank(columns * head.width, rows * head.height),
            head.pixels,
            0,
            0,
            head.width,
            head.height,
        ),
        failure: None,
    }
}

/// The tile `t` fits the canvas of `a` at the place of cell (`x`, `y`).
pub open spec fn fits(a: AssemblyView, x: int, y: int, t: TileView) -> bool {
    x * a.tile_width + t.width <= canvas_width(a) && y * a.tile_height + t.height <= canvas_height(a)
}

/// The assembly after the outcome of the fetch of cell (`x`, `y`) arrived.
/// After a failure nothing changes; a failed fetch is recorded; a tile is
/// written at its place, or a failure recorded where it does not fit.
pub open spec fn accepted(a: AssemblyView, x: int, y: int, fetched: Result<TileView, RipError>) -> AssemblyView {
    if a.failure is Some {
        a
    } else {
        match fetched {
            Err(e) => AssemblyView { failure: Some(e), ..a },
            Ok(t) => if fits(a, x, y, t) {
                AssemblyView {
                    pixels: pasted(a.pixels, t.pixels, x * a.tile_width, y * a.tile_height, t.width, t.height),
                    ..a
                }
            } else {
                AssemblyView { failure: Some(RipError::TileOutOfBounds), ..a }
            },
        }
    }
}

/// The abstract value of a fetch outcome.
pub open spec fn fetched_view(fetched: Result<Tile, RipError>) -> Result<TileView, RipError> {
    match fetched {
        Ok(t) => Ok(t@),
        Err(e) => Err(e),
    }
}

/// The canvas being filled, with the grid and the tile size.
pub struct Assembler {
    canvas: CanvasBuffer,
    columns: usize,
    rows: usize,
    tile_width: u32,
    tile_height: u32,
    width: u32,
    height: u32,
    failure: Option<RipError>,
}

impl View for Assembler {
    type V = AssemblyView;

    closed spec fn view(&self) -> AssemblyView {
        AssemblyView {
            columns: self.columns as int,
            rows: self.rows as int,
            tile_width: self.tile_width as int,
            tile_height: self.tile_height as int,
            pixels: canvas_pixels(self.canvas),
            failure: self.failure,
        }
    }
}

impl Assembler {
    #[verifier::type_invariant]
    spec fn well_formed(&self) -> bool {
        &&& self.width == self.columns * self.tile_width
        &&& self.height == self.rows * self.tile_height
        &&& canvas_size(self.canvas) == (self.width as int, self.height as int)
        &&& self.columns * self.rows <= isize::MAX / 16
    }

    /// Allocates the canvas for a `columns` by `rows` grid of tiles of the
    /// head tile's size and writes the head tile at the origin.
    pub fn new(columns: usize, rows: usize, head: Tile) -> (r: Result<Assembler, RipError>)
        ensures
            !grid_fits(columns as int, rows as int, head@.width, head@.height)
                ==> r is Err && r->Err_0 is CanvasTooLarge,
            grid_fits(columns as int, rows as int, head@.width, head@.height)
                && !(head@.width <= columns * head@.width && head@.height <= rows * head@.height)
                ==> r is Err && r->Err_0 is TileOutOfBounds,
            grid_fits(columns as int, rows as int, head@.width, head@.height)
                && head@.width <= columns * head@.width && head@.height <= rows * head@.height
                ==> r is Ok && r->Ok_0@ == started(columns as int, rows as int, head@),
    {
        proof { use_type_invariant(&head); }
        let tw = head.width;
        let th = head.height;
        assert(columns as u128 * tw as u128 <= 0xffff_ffff_ffff_ffffu128 * 0xffff_ffffu128) by (nonlinear_arith)
            requires columns <= 0xffff_ffff_ffff_ffffu128, tw <= 0xffff_ffffu128;
        assert(rows as u128 * th as u128 <= 0xffff_ffff_ffff_ffffu128 * 0xffff_ffffu128) by (nonlinear_arith)
            requires rows <= 0xffff_ffff_ffff_ffffu128, th <= 0xffff_ffffu128;
        let w_wide = columns as u128 * tw as u128;
        let h_wide = rows as u128 * th as u128;
        if w_wide > u32::MAX as u128 || h_wide > u32::MAX as u128 {
            return Err(RipError::CanvasTooLarge);
        }
        let width = w_wide as u32;
        let height = h_wide as u32;
        assert((width as u128) * (height as u128) <= 0xffff_ffffu128 * 0xffff_ffffu128) by (nonlinear_arith)
            requires width <= 0xffff_ffffu128, height <= 0xffff_ffffu128;
        assert(columns as u128 * rows as u128 <= 0xffff_ffff_ffff_ffffu128 * 0xffff_ffff_ffff_ffffu128) by (nonlinear_arith)
            requires columns <= 0xffff_ffff_ffff_ffffu128, rows <= 0xffff_ffff_ffff_ffffu128;
        let bytes = 4 * ((width as u128) * (height as u128));
        let cells = columns as u128 * rows as u128;
        assert(4 * (columns * tw) * (rows * th) == 4 * ((columns * tw) * (rows * th))) by (nonlinear_arith);
        if 4 * (width as u128) > usize::MAX as u128 || bytes > usize::MAX as u128
            || cells > (isize::MAX / 16) as u128 {
            return Err(RipError::CanvasTooLarge);
        }
        if tw > width || th > height {
            return Err(RipError::TileOutOfBounds);
        }
        let mut canvas = CanvasBuffer::blank(width, height);
        match canvas.copy_from(&head.image, 0, 0) {
            Ok(()) => {},
            Err(e) => { return Err(RipError::ImageError(e)); },
        }
        Ok(Assembler { canvas, columns, rows, tile_width: tw, tile_height: th, width, height, failure: None })
    }

    /// Every cell of the grid but the origin, column after column, each
    /// column from the top.
    pub fn remaining_cells(&self) -> (r: Vec<(usize, usize)>)
        ensures
            r@.len() == if self@.columns * self@.rows == 0 { 0 } else { self@.columns * self@.rows - 1 },
            forall|i: int| 0 <= i < r@.len() ==> #[trigger] r@[i] == (
                ((i + 1) / self@.rows) as usize,
                ((i + 1) % self@.rows) as usize,
            ),
    {
        proof { use_type_invariant(self); }
        let mut cells = grid_cells(self.columns, self.rows);
        if cells.len() > 0 {
            cells.remove(0);
        }
        cells
    }

    /// Whether a failure has been recorded.
    pub fn has_failed(&self) -> (r: bool)
        ensures
            r == (self@.failure is Some),
    {
        self.failure.is_some()
    }

    /// Takes the outcome of the fetch of cell (`x`, `y`) of the grid.
    pub fn accept(&mut self, x: usize, y: usize, fetched: Result<Tile, RipError>)
        requires
            x < old(self)@.columns,
            y < old(self)@.rows,
        ensures
            final(self)@ == accepted(old(self)@, x as int, y as int, fetched_view(fetched)),
    {
        proof { use_type_invariant(&*self); }
        if self.failure.is_some() {
            return;
        }
        match fetched {
            Err(e) => {
                self.failure = Some(e);
            },
            Ok(t) => {
                proof {
                    use_type_invariant(&t);
                    vstd::arithmetic::mul::lemma_mul_inequality(x as int, self.columns as int, self.tile_width as int);
                    vstd::arithmetic::mul::lemma_mul_inequality(y as int, self.rows as int, self.tile_height as int);
                }
                let ox = (x as u64 * self.tile_width as u64) as u32;
                let oy = (y as u64 * self.tile_height as u64) as u32;
                if ox as u64 + t.width as u64 <= self.width as u64 && oy as u64 + t.height as u64 <= self.height as u64 {
                    match self.canvas.copy_from(&t.image, ox, oy) {
                        Ok(()) => {},
                        Err(e) => {
                            self.failure = Some(RipError::ImageError(e));
                        },
                    }
                } else {
                    self.failure = Some(RipError::TileOutOfBounds);
                }
            },
        }
    }

    /// The finished image, or the first failure recorded.
    pub fn finish(self) -> (r: Result<Bitmap, RipError>)
        ensures
            self@.failure is Some ==> r == Err::<Bitmap, RipError>(self@.failure->0),
            self@.failure is None ==> r is Ok
                && r->Ok_0.width == canvas_width(self@)
                && r->Ok_0.height == canvas_height(self@)
                && r->Ok_0.rgba@ == row_major(self@.pixels, canvas_width(self@), canvas_height(self@)),
    {
        proof { use_type_invariant(&self); }
        match self.failure {
            Some(e) => Err(e),
            None => {
                let width = self.width;
                let height = self.height;
                let rgba = self.canvas.into_raw();
                Ok(Bitmap { width, height, rgba })
            },
        }
    }
}

} // verus!
