//! The heat pass of the automaton.
//!
//! One pass visits the rows from the base upward, stopping short of the two
//! topmost rows, and in each row the cells from left to right. Every visited
//! cell sends its heat, cooled by at most one level, to a cell one or two rows
//! above it and up to one column aside, shifted further by the wind. The pass
//! works in place: a cell that has just been written is the source of a later
//! step of the same pass, and a later write replaces an earlier one.

use crate::grid::{cell_at, lemma_cell_places};
use crate::random::{draw_between, draw_ratio};
use rand::rngs::StdRng;
use vstd::prelude::*;

verus! {

/// The three draws behind one step of the pass.
#[derive(Clone, Copy, Debug, PartialEq, Eq, Structural)]
pub struct Draw {
    /// Whether the heat cools by one level on its way.
    pub decay: bool,
    /// The sideways step: 0 is one column left, 1 straight up, 2 one column
    /// right.
    pub drift: usize,
    /// Whether the heat lands two rows up rather than one.
    pub far: bool,
}

/// Odds that the heat of a step cools by one level.
pub const DECAY_ODDS: (u32, u32) = (3, 10);

/// Odds that the heat of a step lands two rows up rather than one.
pub const FAR_ODDS: (u32, u32) = (3, 10);

/// A level after its way up: one lower if it decays, but never below 0.
pub open spec fn cooled(heat: u8, decay: bool) -> u8 {
    if decay && heat > 0 {
        (heat - 1) as u8
    } else {
        heat
    }
}

/// The column in which the heat of column `x` lands.
pub open spec fn landing_column(x: int, drift: int, wind: int) -> int {
    x + drift - 1 + wind
}

/// The row in which the heat of row `y` lands.
pub open spec fn landing_row(y: int, far: bool) -> int {
    if far {
        y - 2
    } else {
        y - 1
    }
}

/// The grid after the step that starts at cell (`x`, `y`). Heat that would
/// land outside the columns of the grid leaves the simulation: the grid stays
/// as it is.
pub open spec fn spread_cell(
    grid: Seq<u8>,
    width: int,
    x: int,
    y: int,
    wind: int,
    draw: Draw,
) -> Seq<u8> {
    let column = landing_column(x, draw.drift as int, wind);
    let row = landing_row(y, draw.far);
    if 0 <= column < width {
        grid.update(row * width + column, cooled(cell_at(grid, width, x, y), draw.decay))
    } else {
        grid
    }
}

/// The grid after the steps of row `y` that start in the columns
/// `0..draws.len()`, taken from left to right.
pub open spec fn spread_row(grid: Seq<u8>, width: int, y: int, wind: int, draws: Seq<Draw>) -> Seq<
    u8,
>
    decreases draws.len(),
{
    if draws.len() == 0 {
        grid
    } else {
        spread_cell(
            spread_row(grid, width, y, wind, draws.drop_last()),
            width,
            draws.len() - 1,
            y,
            wind,
            draws.last(),
        )
    }
}

/// The grid after the first `draws.len()` rows of a pass: the row at the
/// base first, then the one above it, and so on.
pub open spec fn spread_rows(
    grid: Seq<u8>,
    width: int,
    height: int,
    wind: int,
    draws: Seq<Seq<Draw>>,
) -> Seq<u8>
    decreases draws.len(),
{
    if draws.len() == 0 {
        grid
    } else {
        spread_row(
            spread_rows(grid, width, height, wind, draws.drop_last()),
            width,
            height - draws.len(),
            wind,
            draws.last(),
        )
    }
}

/// Number of rows that a pass visits on a grid of the given height: all but
/// the two topmost.
pub open spec fn source_rows(height: int) -> int {
    if height >= 2 {
        height - 2
    } else {
        0
    }
}

/// Whether `draws` holds the draws of one whole pass: one list per visited
/// row, one entry per column, each with a sideways step of 0, 1 or 2.
pub open spec fn draws_for(draws: Seq<Seq<Draw>>, width: int, height: int) -> bool {
    &&& draws.len() == source_rows(height)
    &&& forall|r: int| 0 <= r < draws.len() ==> row_draws_for(#[trigger] draws[r], width)
}

/// Whether `draws` holds one entry for each of the first `count` columns of a
/// row, each with a sideways step of 0, 1 or 2.
pub open spec fn row_draws_for(draws: Seq<Draw>, count: int) -> bool {
    &&& draws.len() == count
    &&& forall|x: int| 0 <= x < draws.len() ==> (#[trigger] draws[x]).drift <= 2
}

/// The grid after one whole pass with the given draws.
pub open spec fn spread(grid: Seq<u8>, width: int, height: int, wind: int, draws: Seq<Seq<Draw>>) -> Seq<
    u8,
> {
    spread_rows(grid, width, height, wind, draws)
}

/// How far heat can move sideways in one step under the given wind.
pub open spec fn reach_of(wind: int) -> int {
    if wind < 0 {
        1 - wind
    } else {
        1 + wind
    }
}

/// Whether cell (`sx`, `sy`) lies in the cone under cell (`x`, `y`): at the
/// same height or nearer to the base, and at most `reach` columns aside for
/// every row of distance.
pub open spec fn in_cone(x: int, y: int, sx: int, sy: int, reach: int) -> bool {
    &&& y <= sy
    &&& x - (sy - y) * reach <= sx <= x + (sy - y) * reach
}

/// Whether no cell in the cone under (`x`, `y`) is hotter than `level`.
pub open spec fn cone_capped(
    grid: Seq<u8>,
    width: int,
    height: int,
    x: int,
    y: int,
    reach: int,
    level: int,
) -> bool {
    forall|sx: int, sy: int|
        0 <= sx < width && 0 <= sy < height && in_cone(x, y, sx, sy, reach) ==> #[trigger] cell_at(
            grid,
            width,
            sx,
            sy,
        ) <= level
}

/// Heat only rises, and never grows on its way. `after` has the size of
/// `before`; no cell of `after` is hotter than the hottest cell that `before`
/// had in the cone under it; and the base row is the same in both.
pub open spec fn heat_rises(
    before: Seq<u8>,
    after: Seq<u8>,
    width: int,
    height: int,
    reach: int,
) -> bool {
    &&& after.len() == before.len()
    &&& forall|x: int, y: int, level: int|
        0 <= x < width && 0 <= y < height && #[trigger] cone_capped(
            before,
            width,
            height,
            x,
            y,
            reach,
            level,
        ) ==> cell_at(after, width, x, y) <= level
    &&& forall|i: int| (height - 1) * width <= i < before.len() ==> #[trigger] after[i] == before[i]
}

/// One step keeps [`heat_rises`].
proof fn lemma_step_rises(
    before: Seq<u8>,
    grid: Seq<u8>,
    width: int,
    height: int,
    x: int,
    y: int,
    wind: int,
    draw: Draw,
)
    requires
        before.len() == width * height,
        0 <= x < width,
        2 <= y < height,
        draw.drift <= 2,
        heat_rises(before, grid, width, height, reach_of(wind)),
    ensures
        heat_rises(before, spread_cell(grid, width, x, y, wind, draw), width, height, reach_of(wind)),
{
    let reach = reach_of(wind);
    let after = spread_cell(grid, width, x, y, wind, draw);
    let column = landing_column(x, draw.drift as int, wind);
    let row = landing_row(y, draw.far);
    if 0 <= column < width {
        lemma_cell_places(width, height, column, row, x, y);
        assert forall|cx: int, cy: int, level: int|
            0 <= cx < width && 0 <= cy < height && #[trigger] cone_capped(
                before,
                width,
                height,
                cx,
                cy,
                reach,
                level,
            ) implies cell_at(after, width, cx, cy) <= level by {
            lemma_cell_places(width, height, cx, cy, column, row);
            if cx == column && cy == row {
                assert forall|sx: int, sy: int|
                    0 <= sx < width && 0 <= sy < height && in_cone(
                        x,
                        y,
                        sx,
                        sy,
                        reach,
                    ) implies #[trigger] cell_at(before, width, sx, sy) <= level by {
                    assert((sy - row) * reach >= (sy - y) * reach + reach) by (nonlinear_arith)
                        requires
                            row <= y - 1,
                            y <= sy,
                            reach >= 0,
                    ;
                    assert(in_cone(column, row, sx, sy, reach));
                }
                assert(cone_capped(before, width, height, x, y, reach, level));
                assert(cell_at(grid, width, x, y) <= level);
            } else {
                assert(cell_at(after, width, cx, cy) == cell_at(grid, width, cx, cy));
            }
        }
        assert forall|i: int| (height - 1) * width <= i < before.len() implies #[trigger] after[i]
            == before[i] by {
            lemma_cell_places(width, height, column, row, 0, height - 1);
        }
    }
}

/// The steps of one row keep [`heat_rises`].
proof fn lemma_row_rises(
    before: Seq<u8>,
    grid: Seq<u8>,
    width: int,
    height: int,
    y: int,
    wind: int,
    draws: Seq<Draw>,
)
    requires
        before.len() == width * height,
        2 <= y < height,
        draws.len() <= width,
        row_draws_for(draws, draws.len() as int),
        heat_rises(before, grid, width, height, reach_of(wind)),
    ensures
        heat_rises(before, spread_row(grid, width, y, wind, draws), width, height, reach_of(wind)),
    decreases draws.len(),
{
    if draws.len() > 0 {
        let earlier = draws.drop_last();
        assert(row_draws_for(earlier, earlier.len() as int));
        lemma_row_rises(before, grid, width, height, y, wind, earlier);
        lemma_step_rises(
            before,
            spread_row(grid, width, y, wind, earlier),
            width,
            height,
            draws.len() - 1,
            y,
            wind,
            draws.last(),
        );
    }
}

/// The rows of a pass, as far as they have gone, keep [`heat_rises`].
proof fn lemma_rows_rise(grid: Seq<u8>, width: int, height: int, wind: int, draws: Seq<Seq<Draw>>)
    requires
        grid.len() == width * height,
        0 < width,
        draws.len() <= source_rows(height),
        forall|r: int| 0 <= r < draws.len() ==> row_draws_for(#[trigger] draws[r], width),
    ensures
        heat_rises(grid, spread_rows(grid, width, height, wind, draws), width, height, reach_of(wind)),
    decreases draws.len(),
{
    if draws.len() == 0 {
        assert forall|x: int, y: int, level: int|
            0 <= x < width && 0 <= y < height && #[trigger] cone_capped(
                grid,
                width,
                height,
                x,
                y,
                reach_of(wind),
                level,
            ) implies cell_at(grid, width, x, y) <= level by {
            assert((y - y) * reach_of(wind) == 0) by (nonlinear_arith);
            assert(in_cone(x, y, x, y, reach_of(wind)));
        }
    } else {
        let earlier = draws.drop_last();
        assert forall|r: int| 0 <= r < earlier.len() implies row_draws_for(
            #[trigger] earlier[r],
            width,
        ) by {
            assert(earlier[r] == draws[r]);
        }
        lemma_rows_rise(grid, width, height, wind, earlier);
        lemma_row_rises(
            grid,
            spread_rows(grid, width, height, wind, earlier),
            width,
            height,
            height - draws.len(),
            wind,
            draws.last(),
        );
    }
}

/// Heat only rises in a pass, whatever is drawn: see [`heat_rises`]. With no
/// wind the cone under a cell widens by one column per row, so along a column
/// and its neighbours heat never grows on its way up.
pub proof fn lemma_spread_rises(
    grid: Seq<u8>,
    width: int,
    height: int,
    wind: int,
    draws: Seq<Seq<Draw>>,
)
    requires
        grid.len() == width * height,
        0 < width,
        draws_for(draws, width, height),
    ensures
        heat_rises(grid, spread(grid, width, height, wind, draws), width, height, reach_of(wind)),
{
    lemma_rows_rise(grid, width, height, wind, draws);
}

/// Without wind, heat never grows on its way up: whatever is drawn, no cell
/// is hotter after a pass than the hottest cell that the grid had before it
/// in the cone under the cell, which widens by one column per row.
pub proof fn lemma_calm_pass_never_heats(
    grid: Seq<u8>,
    width: int,
    height: int,
    draws: Seq<Seq<Draw>>,
    x: int,
    y: int,
    level: int,
)
    requires
        grid.len() == width * height,
        0 <= x < width,
        0 <= y < height,
        draws_for(draws, width, height),
        cone_capped(grid, width, height, x, y, 1, level),
    ensures
        cell_at(spread(grid, width, height, 0, draws), width, x, y) <= level,
{
    lemma_spread_rises(grid, width, height, 0, draws);
}

/// A pass keeps every level below a bound that held before it.
pub proof fn lemma_spread_bounded(
    grid: Seq<u8>,
    width: int,
    height: int,
    wind: int,
    draws: Seq<Seq<Draw>>,
    bound: int,
)
    requires
        grid.len() == width * height,
        0 < width,
        draws_for(draws, width, height),
        forall|i: int| 0 <= i < grid.len() ==> #[trigger] grid[i] < bound,
    ensures
        spread(grid, width, height, wind, draws).len() == grid.len(),
        forall|i: int|
            0 <= i < grid.len() ==> #[trigger] spread(grid, width, height, wind, draws)[i] < bound,
{
    let after = spread(grid, width, height, wind, draws);
    lemma_spread_rises(grid, width, height, wind, draws);
    assert forall|i: int| 0 <= i < grid.len() implies #[trigger] after[i] < bound by {
        let y = i / width;
        let x = i % width;
        vstd::arithmetic::div_mod::lemma_fundamental_div_mod(i, width);
        vstd::arithmetic::div_mod::lemma_div_pos_is_pos(i, width);
        vstd::arithmetic::div_mod::lemma_mod_bound(i, width);
        assert(y * width == width * y) by (nonlinear_arith);
        assert(y < height) by (nonlinear_arith)
            requires
                y * width + x < width * height,
                0 <= x,
                0 < width,
        ;
        assert forall|sx: int, sy: int|
            0 <= sx < width && 0 <= sy < height && in_cone(
                x,
                y,
                sx,
                sy,
                reach_of(wind),
            ) implies #[trigger] cell_at(grid, width, sx, sy) <= bound - 1 by {
            lemma_cell_places(width, height, sx, sy, sx, sy);
        }
        assert(cone_capped(grid, width, height, x, y, reach_of(wind), bound - 1));
        assert(cell_at(after, width, x, y) <= bound - 1);
    }
}

/// Takes one step of the pass from cell (`x`, `y`) with the given draws and
/// wind.
pub fn spread_from(
    pixel_buffer: &mut Vec<u8>,
    width: usize,
    x: usize,
    y: usize,
    wind: isize,
    draw: Draw,
)
    requires
        x < width,
        2 <= y,
        (y + 1) * width <= old(pixel_buffer)@.len(),
    ensures
        final(pixel_buffer)@ == spread_cell(
            old(pixel_buffer)@,
            width as int,
            x as int,
            y as int,
            wind as int,
            draw,
        ),
        final(pixel_buffer)@.len() == old(pixel_buffer)@.len(),
{
    let ghost w = width as int;
    let column: i128 = x as i128 + draw.drift as i128 - 1 + wind as i128;
    if 0 <= column && column < width as i128 {
        let row: usize = if draw.far {
            y - 2
        } else {
            y - 1
        };
        proof {
            lemma_cell_places(w, y + 1, column as int, row as int, x as int, y as int);
            lemma_cell_places(w, y + 1, x as int, y as int, column as int, row as int);
            assert((y + 1) * w == w * (y + 1)) by (nonlinear_arith);
            assert(pixel_buffer@.len() == pixel_buffer.len());
        }
        let heat = pixel_buffer[y * width + x];
        let level = if draw.decay {
            heat.saturating_sub(1)
        } else {
            heat
        };
        pixel_buffer[row * width + column as usize] = level;
    }
}

/// Runs one pass over the grid, drawing for every step whether the heat
/// decays, where it drifts and how far up it lands.
///
/// Whatever is drawn, the grid that results is the one that [`spread`] gives
/// for some draws of the right shape, and so heat has only risen:
/// see [`heat_rises`].
pub fn spread_fire(
    pixel_buffer: &mut Vec<u8>,
    width: usize,
    height: usize,
    wind: isize,
    rng: &mut StdRng,
)
    requires
        0 < width,
        old(pixel_buffer)@.len() == width * height,
    ensures
        exists|draws: Seq<Seq<Draw>>|
            {
                &&& draws_for(draws, width as int, height as int)
                &&& final(pixel_buffer)@ == #[trigger] spread(
                    old(pixel_buffer)@,
                    width as int,
                    height as int,
                    wind as int,
                    draws,
                )
            },
        heat_rises(
            old(pixel_buffer)@,
            final(pixel_buffer)@,
            width as int,
            height as int,
            reach_of(wind as int),
        ),
{
    let ghost start = pixel_buffer@;
    let ghost w = width as int;
    let ghost h = height as int;
    let ghost mut rows: Seq<Seq<Draw>> = Seq::empty();
    let mut y: usize = height;
    while y > 2
        invariant
            0 < width,
            y <= height,
            height >= 2 ==> y >= 2,
            height < 2 ==> y == height,
            w == width as int,
            h == height as int,
            start.len() == w * h,
            pixel_buffer@.len() == start.len(),
            rows.len() == h - y,
            forall|r: int| 0 <= r < rows.len() ==> row_draws_for(#[trigger] rows[r], w),
            pixel_buffer@ == spread_rows(start, w, h, wind as int, rows),
        decreases y,
    {
        y -= 1;
        let ghost row_start = pixel_buffer@;
        let ghost mut row: Seq<Draw> = Seq::empty();
        let mut x: usize = 0;
        while x < width
            invariant
                0 < width,
                2 <= y < height,
                x <= width,
                w == width as int,
                h == height as int,
                start.len() == w * h,
                pixel_buffer@.len() == start.len(),
                row_draws_for(row, x as int),
                pixel_buffer@ == spread_row(row_start, w, y as int, wind as int, row),
            decreases width - x,
        {
            let decay = draw_ratio(rng, DECAY_ODDS.0, DECAY_ODDS.1);
            let drift = draw_between(rng, 0, 3);
            let far = draw_ratio(rng, FAR_ODDS.0, FAR_ODDS.1);
            let draw = Draw { decay, drift, far };
            proof {
                lemma_cell_places(w, h, x as int, y as int, 0, y as int);
                assert((y + 1) * w <= w * h) by (nonlinear_arith)
                    requires
                        y < h,
                        0 < w,
                ;
                assert(row.push(draw).drop_last() =~= row);
            }
            spread_from(pixel_buffer, width, x, y, wind, draw);
            proof {
                row = row.push(draw);
            }
            x += 1;
        }
        proof {
            assert(rows.push(row).drop_last() =~= rows);
            rows = rows.push(row);
        }
    }
    proof {
        assert(draws_for(rows, w, h));
        lemma_spread_rises(start, w, h, wind as int, rows);
    }
}

} // verus!
