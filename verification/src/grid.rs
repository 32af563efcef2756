//! Row-major grids: where a cell lies in the buffer.

use vstd::prelude::*;

verus! {

/// The level in column `x` of row `y` of a row-major grid.
pub open spec fn cell_at(grid: Seq<u8>, width: int, x: int, y: int) -> u8 {
    grid[y * width + x]
}

/// Cells of a row-major grid have distinct places, all inside the grid.
pub proof fn lemma_cell_places(width: int, height: int, x: int, y: int, x2: int, y2: int)
    requires
        0 <= x < width,
        0 <= x2 < width,
        0 <= y < height,
        0 <= y2 < height,
    ensures
        0 <= y * width + x < width * height,
        (y * width + x == y2 * width + x2) <==> (x == x2 && y == y2),
        y < y2 ==> y * width + x < y2 * width,
{
    assert(y * width + width <= height * width && width * height == height * width && 0 <= y
        * width) by (nonlinear_arith)
        requires
            0 <= y < height,
            0 < width,
    ;
    if y < y2 {
        assert(y * width + width <= y2 * width) by (nonlinear_arith)
            requires
                y < y2,
                0 < width,
        ;
    }
    if y2 < y {
        assert(y2 * width + width <= y * width) by (nonlinear_arith)
            requires
                y2 < y,
                0 < width,
        ;
    }
}

} // verus!
