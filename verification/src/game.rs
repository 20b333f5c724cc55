//! The game state and its tick: the direction is resolved, the candidate
//! head is computed and judged, the body and the treats are updated together,
//! and a treat may be spawned.

use crate::direction::{resolve, resolve_spec, Direction};
use crate::grid::{is_square, marker, pixel_at, render};
use crate::movement::{
    as_cell, candidate, disjoint, is_game_over, lemma_move_keeps_disjoint,
    lemma_move_keeps_distinct, moved_body, next_head, occupies, terminal, update_snake_treats,
    Coordinate,
};
use crate::spawn::generate_treats;
use rand::rngs::StdRng;
use std::collections::BTreeSet;
use std::collections::VecDeque;
use vstd::prelude::*;
use vstd::std_specs::iter::IteratorSpec;

verus! {

broadcast use vstd::laws_cmp::group_laws_cmp;

/// The grid size of a game that is set up with the defaults.
pub const DEFAULT_GRID_SIZE: usize = 10;

/// The spawn chance, in hundredths, of a game that is set up with the
/// defaults.
pub const DEFAULT_SPAWN_PERCENT: usize = 10;

/// Whether every segment of the body lies on a grid of `grid_size` rows and
/// columns.
pub open spec fn body_on_grid(body: Seq<Coordinate>, grid_size: usize) -> bool {
    forall|i: int|
        0 <= i < body.len() ==> (#[trigger] body[i]).0 < grid_size && body[i].1 < grid_size
}

/// Whether every treat lies on a grid of `grid_size` rows and columns.
pub open spec fn treats_on_grid(treats: Set<Coordinate>, grid_size: usize) -> bool {
    forall|cell: Coordinate|
        #[trigger] treats.contains(cell) ==> cell.0 < grid_size && cell.1 < grid_size
}

/// What a game must hold at the start and holds after every tick: the grid
/// size fits the signed coordinates, the body has a head and a tail on
/// distinct cells of the grid, no two segments share a cell, and the treats
/// lie on cells of the grid that the body does not hold.
pub open spec fn well_formed(
    body: Seq<Coordinate>,
    treats: Set<Coordinate>,
    grid_size: usize,
) -> bool {
    &&& grid_size <= isize::MAX
    &&& body.len() >= 2
    &&& body.no_duplicates()
    &&& body_on_grid(body, grid_size)
    &&& treats_on_grid(treats, grid_size)
    &&& disjoint(body, treats)
}

/// The mathematical value of a game state.
pub struct GameView {
    /// The cells of the body, head first.
    pub body: Seq<Coordinate>,
    /// The cells that hold a treat.
    pub treats: Set<Coordinate>,
    /// The direction of travel.
    pub direction: Direction,
    /// The number of rows, and of columns, of the grid.
    pub grid_size: usize,
    /// The chance of a spawn per tick, in hundredths.
    pub spawn_percent: usize,
    /// Whether the game has ended.
    pub over: bool,
}

impl GameView {
    /// Whether the state is well formed.
    pub open spec fn valid(self) -> bool {
        well_formed(self.body, self.treats, self.grid_size)
    }

    /// The candidate head after a turn request.
    pub open spec fn target(self, requested: Option<Direction>) -> (int, int) {
        candidate(self.body[0], resolve_spec(self.direction, requested))
    }

    /// Whether the move that follows a turn request ends the game.
    pub open spec fn collides(self, requested: Option<Direction>) -> bool {
        terminal(self.target(requested), self.body, self.grid_size)
    }

    /// The state after the deterministic part of a tick. A game that is over
    /// stays as it is. Otherwise the turn request is resolved; if the candidate
    /// head is terminal the game is over and body and treats stay; if not, the
    /// body moves onto the candidate and the treat there is consumed.
    pub open spec fn advance(self, requested: Option<Direction>) -> GameView {
        if self.over {
            self
        } else {
            let direction = resolve_spec(self.direction, requested);
            let cell = as_cell(self.target(requested));
            if self.collides(requested) {
                GameView { direction, over: true, ..self }
            } else {
                GameView {
                    direction,
                    body: moved_body(self.body, self.treats, cell),
                    treats: self.treats.remove(cell),
                    ..self
                }
            }
        }
    }

    /// The state after a treat was spawned on `cell`.
    pub open spec fn with_treat(self, cell: Coordinate) -> GameView {
        GameView { treats: self.treats.insert(cell), ..self }
    }

    /// Whether `cell` is one on which a treat may be spawned: a cell of the
    /// grid that the body does not hold.
    pub open spec fn is_free(self, cell: Coordinate) -> bool {
        &&& cell.0 < self.grid_size
        &&& cell.1 < self.grid_size
        &&& !self.body.contains(cell)
    }
}

/// The deterministic part of a tick keeps a well-formed state well formed:
/// the segments stay on distinct cells of the grid, and the treats stay off
/// the body.
pub proof fn lemma_advance_keeps_valid(state: GameView, requested: Option<Direction>)
    requires
        state.valid(),
    ensures
        state.advance(requested).valid(),
{
    if !state.over && !state.collides(requested) {
        let target = state.target(requested);
        let cell = as_cell(target);
        let after = moved_body(state.body, state.treats, cell);
        lemma_move_keeps_distinct(state.body, state.treats, target, state.grid_size);
        lemma_move_keeps_disjoint(state.body, state.treats, cell);
        assert forall|i: int| 0 <= i < after.len() implies (#[trigger] after[i]).0
            < state.grid_size && after[i].1 < state.grid_size by {
            if i > 0 {
                assert(after[i] == state.body[i - 1]);
            }
        }
    }
}

/// A game that is over does not change any more.
pub proof fn lemma_over_is_final(state: GameView, requested: Option<Direction>)
    requires
        state.over,
    ensures
        state.advance(requested) == state,
{
}

/// A spawn on a free cell keeps a well-formed state well formed.
pub proof fn lemma_spawn_keeps_valid(state: GameView, cell: Coordinate)
    requires
        state.valid(),
        state.is_free(cell),
    ensures
        state.with_treat(cell).valid(),
{
}

/// Whether body and treats can start a game on a grid of `grid_size` rows
/// and columns.
pub fn can_start(
    snake: &VecDeque<Coordinate>,
    treats: &BTreeSet<Coordinate>,
    grid_size: usize,
) -> (ok: bool)
    ensures
        ok == well_formed(snake@, treats@, grid_size),
{
    if grid_size > isize::MAX as usize {
        return false;
    }
    if snake.len() < 2 {
        return false;
    }
    let mut i: usize = 0;
    while i < snake.len()
        invariant
            i <= snake@.len(),
            forall|a: int| 0 <= a < i ==> (#[trigger] snake@[a]).0 < grid_size && snake@[a].1
                < grid_size,
            forall|a: int, b: int| 0 <= a < b < i ==> snake@[a] != snake@[b],
        decreases snake@.len() - i,
    {
        let segment = snake[i];
        if segment.0 >= grid_size || segment.1 >= grid_size {
            return false;
        }
        let mut j: usize = 0;
        while j < i
            invariant
                j <= i < snake@.len(),
                segment == snake@[i as int],
                forall|a: int| 0 <= a < j ==> snake@[a] != segment,
            decreases i - j,
        {
            let earlier = snake[j];
            if earlier.0 == segment.0 && earlier.1 == segment.1 {
                return false;
            }
            j += 1;
        }
        i += 1;
    }
    let ghost all: Seq<Coordinate> = treats.iter().remaining().unref();
    for coords in it: treats.iter()
        invariant
            it.seq().unref() == all,
            it.seq().len() == all.len(),
            all.to_set() == treats@,
            forall|k: int|
                0 <= k < it.index() ==> (#[trigger] all[k]).0 < grid_size && all[k].1 < grid_size
                    && !snake@.contains(all[k]),
    {
        assert(all[it.index()] == *coords);
        assert(all.to_set().contains(*coords));
        if coords.0 >= grid_size || coords.1 >= grid_size {
            return false;
        }
        if occupies(snake, *coords) {
            proof {
                let at = choose|at: int| 0 <= at < snake@.len() && snake@[at] == *coords;
                assert(treats@.contains(snake@[at]));
            }
            return false;
        }
    }
    proof {
        assert forall|cell: Coordinate| #[trigger] treats@.contains(cell) implies cell.0 < grid_size
            && cell.1 < grid_size && !snake@.contains(cell) by {
            assert(all.to_set().contains(cell));
            let k = choose|k: int| 0 <= k < all.len() && all[k] == cell;
            assert(all[k].0 < grid_size);
        }
        assert forall|at: int| 0 <= at < snake@.len() implies !treats@.contains(
            #[trigger] snake@[at],
        ) by {
            if treats@.contains(snake@[at]) {
                assert(snake@.contains(snake@[at]));
            }
        }
    }
    true
}

/// The state of one game: the body, the treats, the direction of travel, the
/// size of the grid and the spawn chance.
///
/// A state is made by `new` and changed by `advance`, `spawn` and `tick`
/// alone, so every state that a caller holds is well formed.
pub struct GameState {
    snake: VecDeque<Coordinate>,
    treats: BTreeSet<Coordinate>,
    direction: Direction,
    grid_size: usize,
    spawn_percent: usize,
    over: bool,
}

impl View for GameState {
    type V = GameView;

    closed spec fn view(&self) -> GameView {
        GameView {
            body: self.snake@,
            treats: self.treats@,
            direction: self.direction,
            grid_size: self.grid_size,
            spawn_percent: self.spawn_percent,
            over: self.over,
        }
    }
}

impl GameState {
    /// Sets up a game, if body and treats can start one on the grid.
    pub fn new(
        grid_size: usize,
        spawn_percent: usize,
        snake: VecDeque<Coordinate>,
        treats: BTreeSet<Coordinate>,
        direction: Direction,
    ) -> (made: Option<GameState>)
        ensures
            made is Some <==> well_formed(snake@, treats@, grid_size),
            made matches Some(state) ==> state@ == (GameView {
                body: snake@,
                treats: treats@,
                direction,
                grid_size,
                spawn_percent,
                over: false,
            }),
    {
        if can_start(&snake, &treats, grid_size) {
            Some(GameState { snake, treats, direction, grid_size, spawn_percent, over: false })
        } else {
            None
        }
    }

    /// The body, head first.
    pub fn snake(&self) -> (snake: &VecDeque<Coordinate>)
        ensures
            snake@ == self@.body,
    {
        &self.snake
    }

    /// The treats.
    pub fn treats(&self) -> (treats: &BTreeSet<Coordinate>)
        ensures
            treats@ == self@.treats,
    {
        &self.treats
    }

    /// The direction of travel.
    pub fn direction(&self) -> (direction: Direction)
        ensures
            direction == self@.direction,
    {
        self.direction
    }

    /// The number of rows, and of columns, of the grid.
    pub fn grid_size(&self) -> (grid_size: usize)
        ensures
            grid_size == self@.grid_size,
    {
        self.grid_size
    }

    /// The chance of a spawn per tick, in hundredths.
    pub fn spawn_percent(&self) -> (spawn_percent: usize)
        ensures
            spawn_percent == self@.spawn_percent,
    {
        self.spawn_percent
    }

    /// Whether the game has ended.
    pub fn is_over(&self) -> (over: bool)
        ensures
            over == self@.over,
    {
        self.over
    }

    /// Runs the deterministic part of a tick and says whether the game is
    /// over.
    pub fn advance(&mut self, requested: Option<Direction>) -> (over: bool)
        requires
            old(self)@.valid(),
        ensures
            final(self)@ == old(self)@.advance(requested),
            final(self)@.valid(),
            over == final(self)@.over,
    {
        proof {
            lemma_advance_keeps_valid(self@, requested);
        }
        if self.over {
            return true;
        }
        assert(self.snake@[0].0 < self.grid_size && self.snake@[0].1 < self.grid_size);
        self.direction = resolve(self.direction, requested);
        let next = next_head(&self.snake, &self.direction);
        if is_game_over(next, &self.snake, self.grid_size) {
            self.over = true;
            return true;
        }
        update_snake_treats(&mut self.snake, &mut self.treats, next);
        false
    }

    /// Lets the spawner run once, and returns the cell of the treat that it
    /// spawned. A game that is over gets no treat.
    pub fn spawn(&mut self, rng: &mut StdRng) -> (spawned: Option<Coordinate>)
        requires
            old(self)@.valid(),
        ensures
            match spawned {
                Some(cell) => {
                    &&& !old(self)@.over
                    &&& old(self)@.is_free(cell)
                    &&& final(self)@ == old(self)@.with_treat(cell)
                },
                None => final(self)@ == old(self)@,
            },
            old(self)@.over || old(self)@.spawn_percent == 0 ==> spawned is None,
            final(self)@.valid(),
    {
        if self.over {
            return None;
        }
        generate_treats(&mut self.treats, &self.snake, self.grid_size, self.spawn_percent, rng)
    }

    /// Runs one tick: the deterministic part, and then the spawner unless the
    /// game is over. Says whether the game is over.
    pub fn tick(&mut self, requested: Option<Direction>, rng: &mut StdRng) -> (over: bool)
        requires
            old(self)@.valid(),
        ensures
            over == old(self)@.advance(requested).over,
            final(self)@ == old(self)@.advance(requested) || exists|cell: Coordinate|
                {
                    &&& !over
                    &&& old(self)@.advance(requested).is_free(cell)
                    &&& final(self)@ == #[trigger] old(self)@.advance(requested).with_treat(cell)
                },
            over || old(self)@.spawn_percent == 0 ==> final(self)@ == old(self)@.advance(requested),
            final(self)@.valid(),
    {
        if self.advance(requested) {
            return true;
        }
        let _ = self.spawn(rng);
        false
    }

    /// Projects the state onto a fresh grid.
    pub fn render(&self) -> (grid: Vec<Vec<char>>)
        requires
            self@.valid(),
        ensures
            is_square(grid@, self@.grid_size),
            forall|cell: Coordinate|
                cell.0 < self@.grid_size && cell.1 < self@.grid_size ==> #[trigger] pixel_at(
                    grid@,
                    cell,
                ) == marker(self@.body, self@.treats, cell),
    {
        render(&self.snake, &self.treats, self.grid_size)
    }
}

} // verus!
