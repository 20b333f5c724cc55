//! Movement and collision: the candidate next head, the termination rule and
//! the update of body and treats.
//!
//! The body is a `VecDeque` with the head at the front and the tail at the
//! back. The treats are a `BTreeSet`. The contracts speak of their views: a
//! `Seq` and a `Set` of coordinates.

use crate::direction::Direction;
use std::collections::BTreeSet;
use std::collections::VecDeque;
use vstd::prelude::*;

verus! {

broadcast use vstd::laws_cmp::group_laws_cmp;

/// A cell of the grid as `(row, col)`.
pub type Coordinate = (usize, usize);

/// A cell that may lie outside the grid, as `(row, col)`.
pub type SignedCoordinate = (isize, isize);

/// The offset of one move in a direction, as `(rows, cols)`.
pub open spec fn offset(direction: Direction) -> (int, int) {
    match direction {
        Direction::Up => (-1, 0),
        Direction::Down => (1, 0),
        Direction::Left => (0, -1),
        Direction::Right => (0, 1),
    }
}

/// The cell one move away from `head` in `direction`. It is not clamped: it
/// may be negative or past the edge of the grid.
pub open spec fn candidate(head: Coordinate, direction: Direction) -> (int, int) {
    (head.0 + offset(direction).0, head.1 + offset(direction).1)
}

/// Whether both components of a candidate are machine integers.
pub open spec fn representable(cell: (int, int)) -> bool {
    &&& isize::MIN <= cell.0 <= isize::MAX
    &&& isize::MIN <= cell.1 <= isize::MAX
}

/// Whether a candidate lies on a grid of `grid_size` rows and columns.
pub open spec fn in_grid(cell: (int, int), grid_size: int) -> bool {
    &&& 0 <= cell.0 < grid_size
    &&& 0 <= cell.1 < grid_size
}

/// The candidate as a pair of mathematical integers.
pub open spec fn signed(cell: SignedCoordinate) -> (int, int) {
    (cell.0 as int, cell.1 as int)
}

/// Whether `cell` is held by a segment of the body other than the tail.
pub open spec fn hits_segment_before_tail(cell: Coordinate, body: Seq<Coordinate>) -> bool {
    exists|i: int| 0 <= i < body.len() - 1 && body[i] == cell
}

/// A candidate on the grid as a cell of the grid. Meaningful where neither
/// component is negative.
pub open spec fn as_cell(cell: (int, int)) -> Coordinate {
    (cell.0 as usize, cell.1 as usize)
}

/// The termination rule: a candidate ends the game if it leaves the grid, or
/// if it is a cell of the body other than the cell of the tail.
///
/// The tail is excepted because it vacates its cell in the same tick. The
/// exception does not ask whether the body is about to grow. Where body and
/// treats are disjoint this is sound: a candidate equal to the tail cannot be
/// a treat, so the tail does move away.
pub open spec fn terminal(cell: (int, int), body: Seq<Coordinate>, grid_size: usize) -> bool {
    ||| !in_grid(cell, grid_size as int)
    ||| (body.contains(as_cell(cell)) && body.last() != as_cell(cell))
}

/// The body after a move onto `cell`: the cell becomes the head, and the tail
/// is dropped unless the cell held a treat.
pub open spec fn moved_body(
    body: Seq<Coordinate>,
    treats: Set<Coordinate>,
    cell: Coordinate,
) -> Seq<Coordinate> {
    if treats.contains(cell) {
        seq![cell] + body
    } else {
        (seq![cell] + body).drop_last()
    }
}

/// Whether no cell of the body holds a treat.
pub open spec fn disjoint(body: Seq<Coordinate>, treats: Set<Coordinate>) -> bool {
    forall|i: int| 0 <= i < body.len() ==> !treats.contains(#[trigger] body[i])
}

/// Whether a move onto `cell` without growth leaves the cell of the tail
/// empty: the tail holds a cell that no other segment holds, and `cell` is
/// another one.
pub open spec fn vacates_tail(body: Seq<Coordinate>, cell: Coordinate) -> bool {
    &&& body.len() > 0
    &&& body.no_duplicates()
    &&& cell != body.last()
}

/// After a move without growth the old tail cell is free, provided the move
/// vacates it. The length stays as it was.
pub proof fn lemma_move_vacates_tail(
    body: Seq<Coordinate>,
    treats: Set<Coordinate>,
    cell: Coordinate,
)
    requires
        !treats.contains(cell),
        vacates_tail(body, cell),
    ensures
        moved_body(body, treats, cell).len() == body.len(),
        !moved_body(body, treats, cell).contains(body.last()),
{
    let after = moved_body(body, treats, cell);
    assert forall|i: int| 0 <= i < after.len() implies after[i] != body.last() by {
        if i > 0 {
            assert(after[i] == body[i - 1]);
        }
    }
}

/// A move onto a cell that held a treat lengthens the body by one and takes
/// the treat away.
pub proof fn lemma_move_onto_treat_grows(
    body: Seq<Coordinate>,
    treats: Set<Coordinate>,
    cell: Coordinate,
)
    requires
        treats.contains(cell),
    ensures
        moved_body(body, treats, cell).len() == body.len() + 1,
        !treats.remove(cell).contains(cell),
{
}

/// A move leaves body and treats disjoint if they were.
pub proof fn lemma_move_keeps_disjoint(
    body: Seq<Coordinate>,
    treats: Set<Coordinate>,
    cell: Coordinate,
)
    requires
        disjoint(body, treats),
    ensures
        disjoint(moved_body(body, treats, cell), treats.remove(cell)),
{
    let after = moved_body(body, treats, cell);
    assert forall|i: int| 0 <= i < after.len() implies !treats.remove(cell).contains(
        #[trigger] after[i],
    ) by {
        if i > 0 {
            assert(after[i] == body[i - 1]);
        }
    }
}

/// A move onto a cell that the termination rule admits leaves the segments of
/// the body on distinct cells, if they were and if body and treats were
/// disjoint.
pub proof fn lemma_move_keeps_distinct(
    body: Seq<Coordinate>,
    treats: Set<Coordinate>,
    cell: (int, int),
    grid_size: usize,
)
    requires
        body.len() > 0,
        body.no_duplicates(),
        disjoint(body, treats),
        !terminal(cell, body, grid_size),
    ensures
        moved_body(body, treats, as_cell(cell)).no_duplicates(),
{
    let target = as_cell(cell);
    let after = moved_body(body, treats, target);
    if body.contains(target) {
        assert(body.last() == target);
        assert(!treats.contains(body[body.len() - 1]));
    }
    assert forall|i: int, j: int| 0 <= i < after.len() && 0 <= j < after.len() && i != j implies after[i] != after[j] by {
        if i > 0 {
            assert(after[i] == body[i - 1]);
        }
        if j > 0 {
            assert(after[j] == body[j - 1]);
        }
    }
}

/// Whether the body holds `cell`.
pub fn occupies(snake: &VecDeque<Coordinate>, cell: Coordinate) -> (found: bool)
    ensures
        found == snake@.contains(cell),
{
    let mut i: usize = 0;
    while i < snake.len()
        invariant
            i <= snake@.len(),
            forall|j: int| 0 <= j < i ==> snake@[j] != cell,
        decreases snake@.len() - i,
    {
        let segment = snake[i];
        if segment.0 == cell.0 && segment.1 == cell.1 {
            return true;
        }
        i += 1;
    }
    false
}

/// The candidate next head: the head moved by one cell in `direction`, with
/// signed components and no bounds check.
///
/// The body must not be empty, and both the head and the candidate must fit
/// the signed type.
pub fn next_head(snake: &VecDeque<Coordinate>, direction: &Direction) -> (next: SignedCoordinate)
    requires
        snake@.len() > 0,
        representable((snake@[0].0 as int, snake@[0].1 as int)),
        representable(candidate(snake@[0], *direction)),
    ensures
        signed(next) == candidate(snake@[0], *direction),
{
    let head = snake[0];
    match direction {
        Direction::Up => (head.0 as isize - 1, head.1 as isize),
        Direction::Down => (head.0 as isize + 1, head.1 as isize),
        Direction::Left => (head.0 as isize, head.1 as isize - 1),
        Direction::Right => (head.0 as isize, head.1 as isize + 1),
    }
}

/// Decides whether a candidate ends the game.
///
/// Every candidate off the grid is terminal, whatever the body holds. A
/// candidate on the grid is terminal exactly if the body holds it and the
/// tail does not.
pub fn is_game_over(
    next_head: SignedCoordinate,
    snake: &VecDeque<Coordinate>,
    grid_size: usize,
) -> (over: bool)
    ensures
        over == terminal(signed(next_head), snake@, grid_size),
        !in_grid(signed(next_head), grid_size as int) ==> over,
        in_grid(signed(next_head), grid_size as int) && !hits_segment_before_tail(
            as_cell(signed(next_head)),
            snake@,
        ) ==> !over,
{
    if next_head.0 < 0 || next_head.1 < 0 {
        return true;
    }
    let cell = (next_head.0 as usize, next_head.1 as usize);
    if cell.0 >= grid_size || cell.1 >= grid_size {
        return true;
    }
    if !occupies(snake, cell) {
        return false;
    }
    let tail = snake[snake.len() - 1];
    let over = tail.0 != cell.0 || tail.1 != cell.1;
    proof {
        if over {
            let i = choose|i: int| 0 <= i < snake@.len() && snake@[i] == cell;
            assert(i < snake@.len() - 1);
        }
    }
    over
}

/// Moves the body onto `next_head` and consumes the treat there, if any.
///
/// The candidate always becomes the new head. If it held a treat, the treat
/// goes and the body keeps its tail, so it grows by one. Otherwise the tail is
/// dropped and the length stays. The candidate must not be negative.
pub fn update_snake_treats(
    snake: &mut VecDeque<Coordinate>,
    treats: &mut BTreeSet<Coordinate>,
    next_head: SignedCoordinate,
)
    requires
        next_head.0 >= 0,
        next_head.1 >= 0,
    ensures
        final(snake)@ == moved_body(old(snake)@, old(treats)@, as_cell(signed(next_head))),
        final(treats)@ == old(treats)@.remove(as_cell(signed(next_head))),
        old(treats)@.contains(as_cell(signed(next_head))) ==> {
            &&& final(snake)@.len() == old(snake)@.len() + 1
            &&& !final(treats)@.contains(as_cell(signed(next_head)))
        },
        !old(treats)@.contains(as_cell(signed(next_head))) ==> final(snake)@.len() == old(snake)@.len(),
        !old(treats)@.contains(as_cell(signed(next_head))) && vacates_tail(
            old(snake)@,
            as_cell(signed(next_head)),
        ) ==> !final(snake)@.contains(old(snake)@.last()),
        disjoint(old(snake)@, old(treats)@) ==> disjoint(final(snake)@, final(treats)@),
{
    let cell = (next_head.0 as usize, next_head.1 as usize);
    proof {
        if !old(treats)@.contains(cell) && vacates_tail(old(snake)@, cell) {
            lemma_move_vacates_tail(old(snake)@, old(treats)@, cell);
        }
        if disjoint(old(snake)@, old(treats)@) {
            lemma_move_keeps_disjoint(old(snake)@, old(treats)@, cell);
        }
    }
    snake.push_front(cell);
    if treats.contains(&cell) {
        treats.remove(&cell);
    } else {
        snake.pop_back();
        assert(old(treats)@.remove(cell) == old(treats)@);
    }
}

} // verus!
