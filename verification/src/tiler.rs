//! Cuts a picture into the tiles of a grid, one tile for each character.

use vstd::prelude::*;

verus! {

/// Why a conversion was refused.
#[derive(Debug, Clone, Copy, PartialEq, Eq, Structural)]
pub enum RasciiError {
    /// The grid has no columns or no rows, or more of them than the picture
    /// has pixels that way, so that a tile would hold no pixel.
    InvalidGridSpec,
}

/// A block of pixels that becomes one character: `width x height` pixels
/// with the top left one at `(x0, y0)`.
#[derive(Debug, Clone, Copy, PartialEq, Eq, Structural)]
pub struct Tile {
    pub x0: u32,
    pub y0: u32,
    pub width: u32,
    pub height: u32,
}

/// Whether a picture of `width x height` pixels can be cut into `cols x rows`
/// tiles of at least one pixel each.
pub open spec fn grid_fits(width: u32, height: u32, cols: u32, rows: u32) -> bool {
    1 <= cols <= width && 1 <= rows <= height
}

/// The tile in row `row` and column `col` of the grid, both counted from 0 at
/// the top left. Every tile is `width / cols` pixels wide and `height / rows`
/// high, rounded down; the pixels left over on the right and at the bottom
/// belong to no tile.
pub open spec fn tile_at(width: u32, height: u32, cols: u32, rows: u32, row: int, col: int) -> Tile {
    Tile {
        x0: (col * (width / cols)) as u32,
        y0: (row * (height / rows)) as u32,
        width: width / cols,
        height: height / rows,
    }
}

/// Whether two tiles have a pixel in common.
pub open spec fn tiles_overlap(a: Tile, b: Tile) -> bool {
    &&& a.x0 < b.x0 + b.width
    &&& b.x0 < a.x0 + a.width
    &&& a.y0 < b.y0 + b.height
    &&& b.y0 < a.y0 + a.height
}

/// `count` steps of `size` that fit `parts` times into `total` stay inside it.
proof fn lemma_steps_inside(total: int, parts: int, count: int)
    requires
        1 <= parts <= total,
        0 <= count < parts,
    ensures
        1 <= total / parts,
        0 <= count * (total / parts),
        count * (total / parts) + total / parts <= total,
{
    let size = total / parts;
    assert(parts * size <= total && 1 <= size) by (nonlinear_arith)
        requires
            1 <= parts <= total,
            size == total / parts,
    ;
    assert(0 <= count * size && count * size + size <= parts * size) by (nonlinear_arith)
        requires
            0 <= count < parts,
            1 <= size,
    ;
}

/// Whole rows before `row`, and `col` cells of row `row`, come before the cell
/// `(row, col)` in a grid read row by row.
proof fn lemma_cell_order(cols: int, row: int, col: int, other_row: int, other_col: int)
    requires
        0 <= col < cols,
        0 <= other_col < cols,
        0 <= other_row <= row,
        other_row < row || other_col < col,
    ensures
        0 <= other_row * cols + other_col < row * cols + col,
{
    assert(0 <= other_row * cols) by (nonlinear_arith)
        requires
            0 <= other_row,
            0 <= cols,
    ;
    if other_row < row {
        assert(other_row * cols + cols <= row * cols) by (nonlinear_arith)
            requires
                other_row + 1 <= row,
                0 <= cols,
        ;
    }
}

/// Every tile of a grid that fits holds at least one pixel, starts where the
/// tiles before it end, and lies inside the picture.
pub proof fn lemma_tile_inside(width: u32, height: u32, cols: u32, rows: u32, row: int, col: int)
    requires
        grid_fits(width, height, cols, rows),
        0 <= row < rows,
        0 <= col < cols,
    ensures
        tile_at(width, height, cols, rows, row, col).width >= 1,
        tile_at(width, height, cols, rows, row, col).height >= 1,
        tile_at(width, height, cols, rows, row, col).x0 == col * (width / cols),
        tile_at(width, height, cols, rows, row, col).y0 == row * (height / rows),
        tile_at(width, height, cols, rows, row, col).x0 + tile_at(
            width,
            height,
            cols,
            rows,
            row,
            col,
        ).width <= width,
        tile_at(width, height, cols, rows, row, col).y0 + tile_at(
            width,
            height,
            cols,
            rows,
            row,
            col,
        ).height <= height,
{
    lemma_steps_inside(width as int, cols as int, col);
    lemma_steps_inside(height as int, rows as int, row);
}

/// Two different tiles of a grid share no pixel.
pub proof fn lemma_tiles_disjoint(
    width: u32,
    height: u32,
    cols: u32,
    rows: u32,
    row: int,
    col: int,
    other_row: int,
    other_col: int,
)
    requires
        grid_fits(width, height, cols, rows),
        0 <= row < rows,
        0 <= col < cols,
        0 <= other_row < rows,
        0 <= other_col < cols,
        row != other_row || col != other_col,
    ensures
        !tiles_overlap(
            tile_at(width, height, cols, rows, row, col),
            tile_at(width, height, cols, rows, other_row, other_col),
        ),
{
    lemma_tile_inside(width, height, cols, rows, row, col);
    lemma_tile_inside(width, height, cols, rows, other_row, other_col);
    let w = (width / cols) as int;
    let h = (height / rows) as int;
    if col < other_col {
        assert(col * w + w <= other_col * w) by (nonlinear_arith)
            requires
                col + 1 <= other_col,
                0 <= w,
        ;
    } else if other_col < col {
        assert(other_col * w + w <= col * w) by (nonlinear_arith)
            requires
                other_col + 1 <= col,
                0 <= w,
        ;
    } else if row < other_row {
        assert(row * h + h <= other_row * h) by (nonlinear_arith)
            requires
                row + 1 <= other_row,
                0 <= h,
        ;
    } else {
        assert(other_row * h + h <= row * h) by (nonlinear_arith)
            requires
                other_row + 1 <= row,
                0 <= h,
        ;
    }
}

/// A grid with as many columns as the picture has pixel columns fits, and its
/// tiles are one pixel wide: tile `col` of a row starts at pixel column `col`.
pub proof fn lemma_full_width_grid(width: u32, height: u32, rows: u32, row: int, col: int)
    requires
        1 <= width,
        1 <= rows <= height,
        0 <= row < rows,
        0 <= col < width,
    ensures
        grid_fits(width, height, width, rows),
        tile_at(width, height, width, rows, row, col).width == 1,
        tile_at(width, height, width, rows, row, col).x0 == col,
{
    assert(width / width == 1) by (nonlinear_arith)
        requires
            1 <= width,
    ;
}

/// Cuts a picture of `width x height` pixels into `cols x rows` tiles, listed
/// row by row from the top and from left to right within a row. A grid that
/// does not fit the picture is refused.
pub fn tiles(width: u32, height: u32, cols: u32, rows: u32) -> (result: Result<
    Vec<Tile>,
    RasciiError,
>)
    ensures
        result is Ok <==> grid_fits(width, height, cols, rows),
        result matches Err(error) ==> error == RasciiError::InvalidGridSpec,
        result matches Ok(list) ==> list@.len() == cols * rows,
        result matches Ok(list) ==> forall|k: int|
            0 <= k < list@.len() ==> (#[trigger] list@[k]).width >= 1 && list@[k].height >= 1,
        result matches Ok(list) ==> forall|row: int, col: int|
            0 <= row < rows && 0 <= col < cols ==> list@[row * cols + col] == #[trigger] tile_at(
                width,
                height,
                cols,
                rows,
                row,
                col,
            ),
{
    if cols == 0 || rows == 0 {
        return Err(RasciiError::InvalidGridSpec);
    }
    let tile_w = width / cols;
    let tile_h = height / rows;
    assert(tile_w >= 1 <==> cols <= width) by (nonlinear_arith)
        requires
            cols >= 1,
            tile_w == width / cols,
    ;
    assert(tile_h >= 1 <==> rows <= height) by (nonlinear_arith)
        requires
            rows >= 1,
            tile_h == height / rows,
    ;
    if tile_w == 0 || tile_h == 0 {
        return Err(RasciiError::InvalidGridSpec);
    }
    let mut list: Vec<Tile> = Vec::new();
    let mut row: u32 = 0;
    while row < rows
        invariant
            grid_fits(width, height, cols, rows),
            tile_w == width / cols,
            tile_h == height / rows,
            row <= rows,
            list@.len() == row * cols,
            forall|k: int|
                0 <= k < list@.len() ==> (#[trigger] list@[k]).width >= 1 && list@[k].height >= 1,
            forall|r: int, c: int|
                0 <= r < row && 0 <= c < cols ==> list@[r * cols + c] == #[trigger] tile_at(
                    width,
                    height,
                    cols,
                    rows,
                    r,
                    c,
                ),
        decreases rows - row,
    {
        let mut col: u32 = 0;
        while col < cols
            invariant
                grid_fits(width, height, cols, rows),
                tile_w == width / cols,
                tile_h == height / rows,
                row < rows,
                col <= cols,
                list@.len() == row * cols + col,
                forall|k: int|
                    0 <= k < list@.len() ==> (#[trigger] list@[k]).width >= 1 && list@[k].height
                        >= 1,
                forall|r: int, c: int|
                    0 <= r <= row && 0 <= c < cols && (r < row || c < col) ==> list@[r * cols + c]
                        == #[trigger] tile_at(width, height, cols, rows, r, c),
            decreases cols - col,
        {
            proof {
                lemma_tile_inside(width, height, cols, rows, row as int, col as int);
            }
            let tile = Tile { x0: col * tile_w, y0: row * tile_h, width: tile_w, height: tile_h };
            let ghost before = list@;
            list.push(tile);
            assert forall|r: int, c: int|
                0 <= r <= row && 0 <= c < cols && (r < row || c < col + 1) implies list@[r * cols
                + c] == #[trigger] tile_at(width, height, cols, rows, r, c) by {
                if r < row || c < col {
                    lemma_cell_order(cols as int, row as int, col as int, r, c);
                    assert(list@[r * cols + c] == before[r * cols + c]);
                }
            }
            col = col + 1;
        }
        assert((row + 1) * cols == row * cols + cols) by (nonlinear_arith);
        row = row + 1;
    }
    assert(rows * cols == cols * rows) by (nonlinear_arith);
    Ok(list)
}

} // verus!
