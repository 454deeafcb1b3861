//! The per-cell transition, spread over worker threads.

use crate::cell::Cell;
use rayon::iter::{IndexedParallelIterator, IntoParallelRefIterator, ParallelIterator};
use vstd::prelude::*;

verus! {

/// Applies the transition rule to every cell at once, pairing each cell with
/// the live-neighbor count stored at the same index.
///
/// Trusted: this is rayon's `par_iter` on both vectors, joined by `zip`,
/// passed through `map` and gathered by `collect` into a `Vec`. The contract
/// claims what rayon documents of indexed parallel iterators: `zip` pairs
/// the items index by index, `map` applies the closure to each pair, and
/// `collect` keeps the items in index order, so the result has one state
/// per input cell, each the rule's answer for that cell and its count.
#[verifier::external_body]
pub(crate) fn successors(cells: &Vec<Cell>, live_neighbors: &Vec<usize>) -> (next: Vec<Cell>)
    requires
        live_neighbors@.len() == cells@.len(),
    ensures
        next@.len() == cells@.len(),
        forall|i: int|
            0 <= i < next@.len() ==> (#[trigger] next@[i]) == cells@[i].successor(
                live_neighbors@[i] as nat,
            ),
{
    cells.par_iter().zip(live_neighbors.par_iter()).map(|(cell, n)| cell.next_state(*n)).collect()
}

} // verus!
