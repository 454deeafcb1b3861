//! What the controls around a universe decide: running or paused, a fresh
//! start, the opening pattern, a random fill, and painting single cells.

use crate::cell::Cell;
use crate::grid::{lemma_index_in_range, Grid};
use crate::laws::{lemma_blank, lemma_toggled, lemma_with_cell};
use crate::universe::Universe;
use vstd::prelude::*;

verus! {

/// Whether generations advance by themselves.
#[derive(Clone, Copy, Debug, PartialEq, Eq, Structural)]
pub enum UiState {
    Play,
    Pause,
}

impl UiState {
    /// The other state.
    pub open spec fn inverted(self) -> UiState {
        match self {
            UiState::Play => UiState::Pause,
            UiState::Pause => UiState::Play,
        }
    }
}

/// Switches between running and paused.
pub fn invert_state(state: &mut UiState)
    ensures
        *final(state) == old(state).inverted(),
{
    match *state {
        UiState::Play => *state = UiState::Pause,
        UiState::Pause => *state = UiState::Play,
    }
}

/// Switching twice gives back the state one started from.
pub proof fn lemma_invert_twice(state: UiState)
    ensures
        state.inverted().inverted() == state,
{
}

/// Replaces the universe by a blank one of the same size.
pub fn reset_universe(universe: &mut Universe)
    ensures
        final(universe)@ == Grid::blank(old(universe)@.height, old(universe)@.width),
        final(universe)@.storable(),
{
    let height: usize = universe.height();
    let width: usize = universe.width();
    proof {
        lemma_blank(height as nat, width as nat, 0, 0);
    }
    *universe = Universe::new(height, width);
}

/// Whether `(row, col)` belongs to the opening pattern: a glider and a
/// second small group of cells, ten in all, near the middle of the grid.
pub open spec fn in_opening_pattern(row: int, col: int) -> bool {
    ||| (row == 251 && col == 251)
    ||| (row == 252 && col == 252)
    ||| (row == 252 && col == 253)
    ||| (row == 251 && col == 253)
    ||| (row == 250 && col == 253)
    ||| (row == 254 && col == 260)
    ||| (row == 254 && col == 261)
    ||| (row == 253 && col == 262)
    ||| (row == 255 && col == 261)
    ||| (row == 255 && col == 262)
}

/// Flips a dead cell to life, leaving the rest of the grid as it is.
fn enliven(universe: &mut Universe, row: usize, col: usize)
    requires
        old(universe)@.storable(),
        old(universe)@.in_bounds(row as int, col as int),
        old(universe)@.cell(row as int, col as int) == Cell::Dead,
    ensures
        final(universe)@.height == old(universe)@.height,
        final(universe)@.width == old(universe)@.width,
        final(universe)@.storable(),
        forall|r: int, c: int|
            #[trigger] final(universe)@.cell(r, c) == if r == row && c == col {
                Cell::Alive
            } else {
                old(universe)@.cell(r, c)
            },
{
    universe.edit_cell((row, col));
    proof {
        assert forall|r: int, c: int| #[trigger] universe@.cell(r, c) == if r == row && c == col {
            Cell::Alive
        } else {
            old(universe)@.cell(r, c)
        } by {
            lemma_toggled(old(universe)@, row as int, col as int, r, c);
        }
        lemma_with_cell(old(universe)@, row as int, col as int, Cell::Alive, 0, 0);
    }
}

/// The universe a session opens with: 500 rows by 500 columns, all Dead but
/// for the ten cells of the opening pattern.
pub fn create_universe() -> (universe: Universe)
    ensures
        universe@.height == 500,
        universe@.width == 500,
        universe@.storable(),
        forall|r: int, c: int|
            #[trigger] universe@.cell(r, c) == if in_opening_pattern(r, c) {
                Cell::Alive
            } else {
                Cell::Dead
            },
{
    let mut universe = Universe::new(500, 500);
    proof {
        assert forall|r: int, c: int| #[trigger] universe@.cell(r, c) == Cell::Dead by {
            lemma_blank(500, 500, r, c);
        }
    }
    enliven(&mut universe, 251, 251);
    enliven(&mut universe, 252, 252);
    enliven(&mut universe, 252, 253);
    enliven(&mut universe, 251, 253);
    enliven(&mut universe, 250, 253);
    enliven(&mut universe, 254, 260);
    enliven(&mut universe, 254, 261);
    enliven(&mut universe, 253, 262);
    enliven(&mut universe, 255, 261);
    enliven(&mut universe, 255, 262);
    universe
}

/// Whether the draw kept for the cell stored at `index` came out true. A
/// cell for which no draw was supplied counts as not drawn.
pub open spec fn drawn(draws: Seq<bool>, index: int) -> bool {
    0 <= index < draws.len() && draws[index]
}

/// Whether a random fill has come to `(row, col)` once it has done every
/// row before `next_row` and, of that row, every column before `next_col`.
/// The fill never comes to the first row or the first column.
spec fn reached(row: int, col: int, next_row: int, next_col: int) -> bool {
    row >= 1 && col >= 1 && (row < next_row || (row == next_row && col < next_col))
}

/// Brings to life every cell that lies below the first row and right of the
/// first column and whose draw came out true; `draws` holds one draw per
/// cell, in storage order. All other cells stay as they are: the first row
/// and the first column are never touched, and no cell is ever killed.
pub fn randomize_universe(universe: &mut Universe, draws: &Vec<bool>)
    ensures
        final(universe)@.height == old(universe)@.height,
        final(universe)@.width == old(universe)@.width,
        final(universe)@.storable(),
        forall|r: int, c: int|
            old(universe)@.in_bounds(r, c) ==> #[trigger] final(universe)@.cell(r, c) == if r >= 1
                && c >= 1 && drawn(draws@, old(universe)@.index_of(r, c)) {
                Cell::Alive
            } else {
                old(universe)@.cell(r, c)
            },
{
    let height: usize = universe.height();
    let width: usize = universe.width();
    let ghost before = universe@;
    let mut i: usize = 1;
    while i < height
        invariant
            1 <= i,
            universe@.height == height == before.height,
            universe@.width == width == before.width,
            universe@.storable(),
            forall|r: int, c: int|
                before.in_bounds(r, c) ==> #[trigger] universe@.cell(r, c) == if reached(
                    r,
                    c,
                    i as int,
                    0,
                ) && drawn(draws@, before.index_of(r, c)) {
                    Cell::Alive
                } else {
                    before.cell(r, c)
                },
        decreases height - i,
    {
        let mut j: usize = 1;
        while j < width
            invariant
                1 <= i < height,
                1 <= j,
                universe@.height == height == before.height,
                universe@.width == width == before.width,
                universe@.storable(),
                forall|r: int, c: int|
                    before.in_bounds(r, c) ==> #[trigger] universe@.cell(r, c) == if reached(
                        r,
                        c,
                        i as int,
                        j as int,
                    ) && drawn(draws@, before.index_of(r, c)) {
                        Cell::Alive
                    } else {
                        before.cell(r, c)
                    },
            decreases width - j,
        {
            proof {
                lemma_index_in_range(height as nat, width as nat, i as int, j as int);
            }
            let index: usize = i * width + j;
            if index < draws.len() && draws[index] {
                let ghost current = universe@;
                universe.set_cell((i, j), Cell::Alive);
                proof {
                    assert forall|r: int, c: int| before.in_bounds(r, c) implies #[trigger] universe@.cell(
                        r,
                        c,
                    ) == if r == i && c == j {
                        Cell::Alive
                    } else {
                        current.cell(r, c)
                    } by {
                        lemma_with_cell(current, i as int, j as int, Cell::Alive, r, c);
                    }
                }
            }
            j += 1;
        }
        i += 1;
    }
}

/// Whether painting at `tile` changes the grid: the tile lies inside the
/// grid and is not the tile painted last.
pub open spec fn paints(grid: Grid, last_modified: (usize, usize), tile: (usize, usize)) -> bool {
    grid.in_bounds(tile.0 as int, tile.1 as int) && tile != last_modified
}

/// Paints the tile under the pointer: if `tile` lies inside the grid and is
/// not the tile painted last, its cell is flipped and it becomes the tile
/// painted last; otherwise nothing changes. Holding the pointer over one
/// tile therefore flips it once, not again and again. Returns the tile
/// painted last after the call.
pub fn paint_cell(
    universe: &mut Universe,
    last_modified: (usize, usize),
    tile: (usize, usize),
) -> (now: (usize, usize))
    ensures
        paints(old(universe)@, last_modified, tile) ==> now == tile,
        paints(old(universe)@, last_modified, tile) ==> final(universe)@ == old(universe)@.toggled(
            tile.0 as int,
            tile.1 as int,
        ),
        !paints(old(universe)@, last_modified, tile) ==> now == last_modified,
        !paints(old(universe)@, last_modified, tile) ==> final(universe)@ == old(universe)@,
        final(universe)@.storable(),
{
    let (i, j) = tile;
    if j < universe.width() && i < universe.height() && (i != last_modified.0 || j
        != last_modified.1) {
        universe.edit_cell((i, j));
        (i, j)
    } else {
        last_modified
    }
}

} // verus!
