//! The treat spawner: with a given chance per tick it picks a random cell
//! that the body does not hold and makes it a treat.
//!
//! The random numbers come from a generator that the caller owns, so a seeded
//! generator reproduces a game.

use crate::movement::{disjoint, occupies, Coordinate};
use rand::rngs::StdRng;
use rand::Rng;
use std::collections::BTreeSet;
use std::collections::VecDeque;
use vstd::prelude::*;

verus! {

broadcast use vstd::laws_cmp::group_laws_cmp;

/// The rolls that decide a spawn are drawn from `0..ROLL_RANGE`, so a spawn
/// chance is a number of hundredths.
pub const ROLL_RANGE: usize = 100;

/// How many cells one spawn may draw before it gives up for the tick. On a
/// grid that the body fills, no free cell exists, and the bound keeps the
/// search from running forever.
pub const MAX_SPAWN_ATTEMPTS: usize = 1000;

/// The standard generator of the `rand` crate. Nothing is known of its state.
#[verifier::external_type_specification]
#[verifier::external_body]
pub struct ExStdRng(rand::rngs::StdRng);

/// Calls `Rng::gen_range` of the `rand` crate on the range `0..bound`.
///
/// Trusted: the number drawn lies in the range, that is below `bound`. Which
/// number it is depends on the generator, and nothing is claimed of it.
/// `gen_range` panics on an empty range, so `bound` must be positive.
#[verifier::external_body]
fn draw_below(rng: &mut StdRng, bound: usize) -> (drawn: usize)
    requires
        bound > 0,
    ensures
        drawn < bound,
{
    rng.gen_range(0..bound)
}

/// Whether a roll from `0..ROLL_RANGE` lets a spawn happen at a chance of
/// `spawn_percent` hundredths.
pub fn spawn_due(roll: usize, spawn_percent: usize) -> (due: bool)
    ensures
        due == (roll < spawn_percent),
{
    roll < spawn_percent
}

/// Makes `cell` a treat unless the body holds it, and says whether it did.
///
/// A cell that is a treat already is accepted: the set stays as it is.
pub fn place_treat(
    treats: &mut BTreeSet<Coordinate>,
    snake: &VecDeque<Coordinate>,
    cell: Coordinate,
) -> (placed: bool)
    ensures
        placed == !snake@.contains(cell),
        placed ==> final(treats)@ == old(treats)@.insert(cell),
        !placed ==> final(treats)@ == old(treats)@,
{
    if occupies(snake, cell) {
        false
    } else {
        treats.insert(cell);
        true
    }
}

/// Whether the body holds no cell of a grid of `grid_size` rows and columns.
pub open spec fn grid_is_clear(body: Seq<Coordinate>, grid_size: usize) -> bool {
    forall|i: int|
        0 <= i < body.len() ==> !((#[trigger] body[i]).0 < grid_size && body[i].1 < grid_size)
}

/// Spawns at most one treat, and returns its cell.
///
/// One roll decides whether a spawn is due at `spawn_percent` hundredths. If
/// so, cells of the grid are drawn until one is found that the body does not
/// hold, at most `MAX_SPAWN_ATTEMPTS` times; that cell becomes a treat. With
/// no spawn the treats stay as they are.
///
/// Chance decides the outcome, except where it cannot: no treat is spawned at
/// a chance of zero or on an empty grid, and one is spawned at a chance of a
/// hundred hundredths or more if the body is off the grid.
pub fn generate_treats(
    treats: &mut BTreeSet<Coordinate>,
    snake: &VecDeque<Coordinate>,
    grid_size: usize,
    spawn_percent: usize,
    rng: &mut StdRng,
) -> (spawned: Option<Coordinate>)
    ensures
        match spawned {
            Some(cell) => {
                &&& cell.0 < grid_size
                &&& cell.1 < grid_size
                &&& !snake@.contains(cell)
                &&& final(treats)@ == old(treats)@.insert(cell)
            },
            None => final(treats)@ == old(treats)@,
        },
        disjoint(snake@, old(treats)@) ==> disjoint(snake@, final(treats)@),
        spawn_percent == 0 || grid_size == 0 ==> spawned is None,
        spawn_percent >= ROLL_RANGE && grid_size > 0 && grid_is_clear(snake@, grid_size)
            ==> spawned is Some,
{
    if grid_size == 0 {
        return None;
    }
    let roll = draw_below(rng, ROLL_RANGE);
    if !spawn_due(roll, spawn_percent) {
        return None;
    }
    let mut attempts: usize = 0;
    while attempts < MAX_SPAWN_ATTEMPTS
        invariant
            grid_size > 0,
            spawn_percent > 0,
            treats@ == old(treats)@,
            attempts > 0 ==> !grid_is_clear(snake@, grid_size),
        decreases MAX_SPAWN_ATTEMPTS - attempts,
    {
        let row = draw_below(rng, grid_size);
        let col = draw_below(rng, grid_size);
        if place_treat(treats, snake, (row, col)) {
            return Some((row, col));
        }
        proof {
            let i = choose|i: int| 0 <= i < snake@.len() && snake@[i] == (row, col);
            assert(snake@[i].0 < grid_size && snake@[i].1 < grid_size);
        }
        attempts += 1;
    }
    None
}

} // verus!
