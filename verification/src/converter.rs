//! The converter: a picture and the settings of one conversion.

use crate::color::RasciiColor;
use crate::raster::{buffer_dimensions, buffer_samples, PixelBuffer};
use crate::sampler::{cell, cell_of, tile_samples};
use crate::tiler::{grid_fits, lemma_tile_inside, tile_at, tiles, RasciiError};
use vstd::prelude::*;

verus! {

/// The grid of a conversion: rows from the top, and in each row the cells
/// from the left, each a character and the colour to print it in.
pub type RasciiOutput = Vec<Vec<(char, RasciiColor)>>;

/// The settings a conversion is asked for.
#[derive(Debug, Clone)]
pub struct Opt {
    /// Keep the colour of the picture.
    pub color: bool,
    /// Braille mode: taken, and without effect.
    pub braille: bool,
    /// Width of the grid in characters.
    pub width: u32,
    /// Which ramp to draw the characters from: the long one above 10.
    pub depth: u8,
    /// Height of the grid in characters, where one is asked for.
    pub height: Option<u32>,
    /// Colour the background of the characters as well.
    pub bg: bool,
}

/// A picture with the settings to convert it by.
pub struct Rascii {
    /// The picture.
    pub image: PixelBuffer,
    /// Columns and rows of the grid.
    pub dim: (u32, u32),
    /// Keep the colour of the picture.
    pub color: bool,
    /// Which ramp to draw the characters from: the long one above 10.
    pub depth: u8,
    /// Braille mode: taken, and without effect.
    pub braille: bool,
}

impl Rascii {
    /// Whether the grid fits the picture, so that the conversion gives a grid.
    pub open spec fn fits(self) -> bool {
        grid_fits(
            buffer_dimensions(self.image).0,
            buffer_dimensions(self.image).1,
            self.dim.0,
            self.dim.1,
        )
    }

    /// The cell in row `row` and column `col` of the grid: that of the tile in
    /// the same place. No border is left out.
    pub open spec fn cell_at(self, row: int, col: int) -> (char, RasciiColor) {
        cell_of(
            self.image,
            tile_at(
                buffer_dimensions(self.image).0,
                buffer_dimensions(self.image).1,
                self.dim.0,
                self.dim.1,
                row,
                col,
            ),
            self.color,
            self.depth,
        )
    }

    /// Whether `grid` is the grid of this conversion: as many rows and columns
    /// as were asked for, and in each place the cell of that place.
    pub open spec fn is_grid(self, grid: RasciiOutput) -> bool {
        &&& grid@.len() == self.dim.1
        &&& forall|row: int| 0 <= row < self.dim.1 ==> (#[trigger] grid@[row])@.len() == self.dim.0
        &&& forall|row: int, col: int|
            0 <= row < self.dim.1 && 0 <= col < self.dim.0 ==> grid@[row]@[col]
                == #[trigger] self.cell_at(row, col)
    }

    /// Puts a picture and the settings of a conversion together. The grid is
    /// as wide as the settings say, and as high as they say; where they name
    /// no height, it is `aspect_height` high.
    pub fn from_opt(opt: &Opt, image: PixelBuffer, aspect_height: u32) -> (rascii: Rascii)
        ensures
            rascii.image == image,
            rascii.dim.0 == opt.width,
            rascii.dim.1 == (match opt.height {
                Some(height) => height,
                None => aspect_height,
            }),
            rascii.color == opt.color,
            rascii.depth == opt.depth,
            rascii.braille == opt.braille,
    {
        let height = match opt.height {
            Some(height) => height,
            None => aspect_height,
        };
        Rascii {
            image,
            dim: (opt.width, height),
            depth: opt.depth,
            color: opt.color,
            braille: opt.braille,
        }
    }

    /// Converts the picture: one cell for each tile of the grid, row by row.
    /// A grid that does not fit the picture is refused, and no part of a grid
    /// is given then. The converter is left as it was.
    pub fn run(&mut self) -> (result: Result<RasciiOutput, RasciiError>)
        ensures
            *final(self) == *old(self),
            result is Ok <==> old(self).fits(),
            result matches Err(error) ==> error == RasciiError::InvalidGridSpec,
            result matches Ok(grid) ==> old(self).is_grid(grid),
    {
        let (width, height) = crate::raster::dimensions(&self.image);
        let cols = self.dim.0;
        let rows = self.dim.1;
        let list = match tiles(width, height, cols, rows) {
            Ok(list) => list,
            Err(error) => {
                return Err(error);
            },
        };
        let mut output: RasciiOutput = Vec::new();
        let mut next: usize = 0;
        let mut row: u32 = 0;
        while row < rows
            invariant
                *self == *old(self),
                width == buffer_dimensions(self.image).0,
                height == buffer_dimensions(self.image).1,
                cols == self.dim.0,
                rows == self.dim.1,
                grid_fits(width, height, cols, rows),
                list@.len() == cols * rows,
                forall|r: int, c: int|
                    0 <= r < rows && 0 <= c < cols ==> list@[r * cols + c] == #[trigger] tile_at(
                        width,
                        height,
                        cols,
                        rows,
                        r,
                        c,
                    ),
                row <= rows,
                next == row * cols,
                output@.len() == row,
                forall|r: int| 0 <= r < row ==> (#[trigger] output@[r])@.len() == cols,
                forall|r: int, c: int|
                    0 <= r < row && 0 <= c < cols ==> output@[r]@[c] == #[trigger] self.cell_at(
                        r,
                        c,
                    ),
            decreases rows - row,
        {
            let mut row_tiles: Vec<(char, RasciiColor)> = Vec::new();
            let mut col: u32 = 0;
            while col < cols
                invariant
                    *self == *old(self),
                    width == buffer_dimensions(self.image).0,
                    height == buffer_dimensions(self.image).1,
                    cols == self.dim.0,
                    rows == self.dim.1,
                    grid_fits(width, height, cols, rows),
                    list@.len() == cols * rows,
                    forall|r: int, c: int|
                        0 <= r < rows && 0 <= c < cols ==> list@[r * cols + c]
                            == #[trigger] tile_at(width, height, cols, rows, r, c),
                    row < rows,
                    col <= cols,
                    next == row * cols + col,
                    row_tiles@.len() == col,
                    forall|c: int|
                        0 <= c < col ==> row_tiles@[c] == #[trigger] self.cell_at(row as int, c),
                decreases cols - col,
            {
                proof {
                    lemma_tile_inside(width, height, cols, rows, row as int, col as int);
                    assert(row * cols + col < cols * rows) by (nonlinear_arith)
                        requires
                            0 <= row < rows,
                            0 <= col < cols,
                    ;
                    assert(list@[row * cols + col] == tile_at(
                        width,
                        height,
                        cols,
                        rows,
                        row as int,
                        col as int,
                    ));
                }
                let made = cell(&self.image, &list[next], self.color, self.depth);
                row_tiles.push(made);
                assert(next < list.len());
                next = next + 1;
                col = col + 1;
            }
            output.push(row_tiles);
            assert((row + 1) * cols == row * cols + cols) by (nonlinear_arith);
            row = row + 1;
        }
        Ok(output)
    }
}

/// The grid depends on nothing but the samples and size of the picture, the
/// size of the grid, the colour setting and the depth: two converters that
/// agree in these give the same cell in every place, and fit or fail
/// together. Braille mode changes nothing.
pub proof fn lemma_same_input_same_cell(a: Rascii, b: Rascii, row: int, col: int)
    requires
        buffer_dimensions(a.image) == buffer_dimensions(b.image),
        buffer_samples(a.image) == buffer_samples(b.image),
        a.dim == b.dim,
        a.color == b.color,
        a.depth == b.depth,
    ensures
        a.fits() == b.fits(),
        a.cell_at(row, col) == b.cell_at(row, col),
{
    let tile = tile_at(
        buffer_dimensions(a.image).0,
        buffer_dimensions(a.image).1,
        a.dim.0,
        a.dim.1,
        row,
        col,
    );
    assert(tile_samples(a.image, tile, a.color) =~= tile_samples(b.image, tile, b.color));
}

/// Converting twice gives the same grid twice: two grids of one converter
/// have the same rows, and the same cell in every place.
pub proof fn lemma_grid_unique(rascii: Rascii, first: RasciiOutput, second: RasciiOutput)
    requires
        rascii.is_grid(first),
        rascii.is_grid(second),
    ensures
        first@.len() == second@.len(),
        forall|row: int| 0 <= row < first@.len() ==> #[trigger] first@[row]@ == second@[row]@,
{
    assert forall|row: int| 0 <= row < first@.len() implies #[trigger] first@[row]@
        == second@[row]@ by {
        assert(first@[row]@.len() == second@[row]@.len());
        assert forall|col: int| 0 <= col < first@[row]@.len() implies first@[row]@[col]
            == second@[row]@[col] by {
            assert(first@[row]@[col] == rascii.cell_at(row, col));
            assert(second@[row]@[col] == rascii.cell_at(row, col));
        }
        assert(first@[row]@ =~= second@[row]@);
    }
}

} // verus!
