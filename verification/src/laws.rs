//! Laws of the grid: what holds across several of its operations.

use crate::cell::Cell;
use crate::grid::{lemma_index_in_range, lemma_index_split, lemma_index_unique, Grid};
use vstd::prelude::*;

verus! {

/// Whatever a grid holds, every position outside it reads as Dead: past the
/// last row or column, and before the first.
pub proof fn lemma_outside_is_dead(grid: Grid, row: int, col: int)
    requires
        row >= grid.height || col >= grid.width || row < 0 || col < 0,
    ensures
        grid.cell(row, col) == Cell::Dead,
        grid.live(row, col) == 0,
{
}

/// A blank grid is well formed, all of its cells are Dead, no cell of it
/// has a live neighbor, and its next generation is blank again.
pub proof fn lemma_blank(height: nat, width: nat, row: int, col: int)
    ensures
        Grid::blank(height, width).wf(),
        Grid::blank(height, width).cell(row, col) == Cell::Dead,
        Grid::blank(height, width).live_neighbors(row, col) == 0,
        Grid::blank(height, width).step() == Grid::blank(height, width),
{
    let blank = Grid::blank(height, width);
    assert forall|r: int, c: int| blank.cell(r, c) == Cell::Dead by {
        if blank.in_bounds(r, c) {
            lemma_index_in_range(height, width, r, c);
        }
    }
    assert(blank.step().cells =~= blank.cells);
}

/// Every operation on a well-formed grid gives a well-formed grid of the
/// same size: storing a state at a position inside it, flipping a cell
/// inside it, and stepping to the next generation.
pub proof fn lemma_operations_keep_wf(grid: Grid, row: int, col: int, state: Cell)
    requires
        grid.wf(),
    ensures
        grid.step().wf(),
        grid.step().height == grid.height,
        grid.step().width == grid.width,
        grid.in_bounds(row, col) ==> grid.with_cell(row, col, state).wf(),
        grid.in_bounds(row, col) ==> grid.with_cell(row, col, state).height == grid.height,
        grid.in_bounds(row, col) ==> grid.with_cell(row, col, state).width == grid.width,
        grid.in_bounds(row, col) ==> grid.toggled(row, col).wf(),
        grid.in_bounds(row, col) ==> grid.toggled(row, col).height == grid.height,
        grid.in_bounds(row, col) ==> grid.toggled(row, col).width == grid.width,
{
    if grid.in_bounds(row, col) {
        lemma_index_in_range(grid.height, grid.width, row, col);
    }
}

/// Storing a state at one position changes what is read there and nowhere
/// else, and keeps the grid's size.
pub proof fn lemma_with_cell(grid: Grid, row: int, col: int, state: Cell, r: int, c: int)
    requires
        grid.wf(),
        grid.in_bounds(row, col),
    ensures
        grid.with_cell(row, col, state).wf(),
        grid.with_cell(row, col, state).height == grid.height,
        grid.with_cell(row, col, state).width == grid.width,
        grid.with_cell(row, col, state).cell(r, c) == if r == row && c == col {
            state
        } else {
            grid.cell(r, c)
        },
{
    lemma_index_in_range(grid.height, grid.width, row, col);
    if grid.in_bounds(r, c) {
        lemma_index_in_range(grid.height, grid.width, r, c);
        lemma_index_unique(grid.width, row, col);
        lemma_index_unique(grid.width, r, c);
    }
}

/// Flipping a cell changes that cell to its other state and no other cell.
pub proof fn lemma_toggled(grid: Grid, row: int, col: int, r: int, c: int)
    requires
        grid.wf(),
        grid.in_bounds(row, col),
    ensures
        grid.toggled(row, col).wf(),
        grid.toggled(row, col).cell(r, c) == if r == row && c == col {
            grid.cell(row, col).flipped()
        } else {
            grid.cell(r, c)
        },
{
    lemma_with_cell(grid, row, col, grid.cell(row, col).flipped(), r, c);
}

/// Flipping the same cell twice in a row gives back the grid as it was.
pub proof fn lemma_toggle_twice(grid: Grid, row: int, col: int)
    requires
        grid.wf(),
        grid.in_bounds(row, col),
    ensures
        grid.toggled(row, col).toggled(row, col) == grid,
{
    lemma_index_in_range(grid.height, grid.width, row, col);
    let once = grid.toggled(row, col);
    assert(once.in_bounds(row, col));
    assert(once.toggled(row, col).cells =~= grid.cells);
}

/// No cell has more than eight live neighbors.
pub proof fn lemma_live_neighbors_bound(grid: Grid, row: int, col: int)
    ensures
        grid.live_neighbors(row, col) <= 8,
{
}

/// In the next generation the grid has the same size, and each of its cells
/// is decided by the state now at that position and the number of live
/// neighbors that position has now.
pub proof fn lemma_step_cell(grid: Grid, row: int, col: int)
    requires
        grid.wf(),
        grid.in_bounds(row, col),
    ensures
        grid.step().wf(),
        grid.step().height == grid.height,
        grid.step().width == grid.width,
        grid.step().cell(row, col) == grid.cell(row, col).successor(
            grid.live_neighbors(row, col),
        ),
{
    lemma_index_in_range(grid.height, grid.width, row, col);
    lemma_index_unique(grid.width, row, col);
}

/// A cell's live-neighbor count depends only on the eight positions around
/// it: storing any state at the cell itself, or at a position more than one
/// row or one column away, leaves the count as it was.
pub proof fn lemma_neighbors_local(
    grid: Grid,
    row: int,
    col: int,
    far_row: int,
    far_col: int,
    state: Cell,
)
    requires
        grid.wf(),
        grid.in_bounds(far_row, far_col),
        (far_row == row && far_col == col) || far_row < row - 1 || far_row > row + 1 || far_col
            < col - 1 || far_col > col + 1,
    ensures
        grid.with_cell(far_row, far_col, state).live_neighbors(row, col) == grid.live_neighbors(
            row,
            col,
        ),
{
    lemma_with_cell(grid, far_row, far_col, state, row - 1, col - 1);
    lemma_with_cell(grid, far_row, far_col, state, row - 1, col);
    lemma_with_cell(grid, far_row, far_col, state, row - 1, col + 1);
    lemma_with_cell(grid, far_row, far_col, state, row, col - 1);
    lemma_with_cell(grid, far_row, far_col, state, row, col + 1);
    lemma_with_cell(grid, far_row, far_col, state, row + 1, col - 1);
    lemma_with_cell(grid, far_row, far_col, state, row + 1, col);
    lemma_with_cell(grid, far_row, far_col, state, row + 1, col + 1);
}

/// The grid does not wrap round: in a grid with at least two rows and two
/// columns, and more than two of either, the first cell `(0, 0)` is no
/// neighbor of the last cell `(height - 1, width - 1)`, nor the last of the
/// first. Whatever is stored at one of them, the other's live-neighbor
/// count stays the same. (In a grid of two rows and two columns the two
/// cells touch diagonally, so each is a true neighbor of the other.)
pub proof fn lemma_no_wraparound(grid: Grid, state: Cell)
    requires
        grid.wf(),
        grid.height >= 2,
        grid.width >= 2,
        grid.height > 2 || grid.width > 2,
    ensures
        grid.with_cell(0, 0, state).live_neighbors(grid.height - 1, grid.width - 1)
            == grid.live_neighbors(grid.height - 1, grid.width - 1),
        grid.with_cell(grid.height - 1, grid.width - 1, state).live_neighbors(0, 0)
            == grid.live_neighbors(0, 0),
{
    lemma_neighbors_local(grid, grid.height - 1, grid.width - 1, 0, 0, state);
    lemma_neighbors_local(grid, 0, 0, grid.height - 1, grid.width - 1, state);
}

/// Every stored cell belongs to exactly one position of the grid, and the
/// neighbor count kept for its index is the count of that position.
pub proof fn lemma_index_names_a_cell(grid: Grid, index: int)
    requires
        grid.wf(),
        0 <= index < grid.cells.len(),
    ensures
        grid.in_bounds(index / (grid.width as int), index % (grid.width as int)),
        grid.cell(index / (grid.width as int), index % (grid.width as int)) == grid.cells[index],
        grid.live_neighbors_at(index) == grid.live_neighbors(
            index / (grid.width as int),
            index % (grid.width as int),
        ),
{
    lemma_index_split(grid.height, grid.width, index);
}

} // verus!
