//! The grid model: a projection of body and treats onto a square grid of
//! markers, made afresh for every tick.

use crate::movement::Coordinate;
use std::collections::BTreeSet;
use std::collections::VecDeque;
use vstd::prelude::*;
use vstd::std_specs::iter::IteratorSpec;

verus! {

broadcast use vstd::laws_cmp::group_laws_cmp;

/// The marker of a cell that holds nothing.
pub const PIXEL_DEFAULT: char = '.';

/// The marker of a cell that holds a treat.
pub const PIXEL_TREAT: char = '*';

/// The marker of a cell that a segment of the body holds.
pub const PIXEL_SNAKE: char = 'X';

/// Whether `cell` names a marker of the grid.
pub open spec fn on_grid(grid: Seq<Vec<char>>, cell: Coordinate) -> bool {
    &&& cell.0 < grid.len()
    &&& cell.1 < grid[cell.0 as int]@.len()
}

/// The marker at `cell`.
pub open spec fn pixel_at(grid: Seq<Vec<char>>, cell: Coordinate) -> char {
    grid[cell.0 as int]@[cell.1 as int]
}

/// Whether two grids have the same number of rows and rows of the same
/// lengths.
pub open spec fn same_shape(a: Seq<Vec<char>>, b: Seq<Vec<char>>) -> bool {
    &&& a.len() == b.len()
    &&& forall|row: int| 0 <= row < a.len() ==> (#[trigger] a[row])@.len() == b[row]@.len()
}

/// Whether the grid has `grid_size` rows of `grid_size` markers each.
pub open spec fn is_square(grid: Seq<Vec<char>>, grid_size: usize) -> bool {
    &&& grid.len() == grid_size
    &&& forall|row: int| 0 <= row < grid.len() ==> (#[trigger] grid[row])@.len() == grid_size
}

/// The marker that the projection gives a cell: the body covers a treat, and
/// a treat covers the empty cell.
pub open spec fn marker(body: Seq<Coordinate>, treats: Set<Coordinate>, cell: Coordinate) -> char {
    if body.contains(cell) {
        PIXEL_SNAKE
    } else if treats.contains(cell) {
        PIXEL_TREAT
    } else {
        PIXEL_DEFAULT
    }
}

/// Sets the marker at `cell`, and no other.
fn mark(game_grid: &mut Vec<Vec<char>>, cell: Coordinate, pixel: char)
    requires
        on_grid(old(game_grid)@, cell),
    ensures
        same_shape(old(game_grid)@, final(game_grid)@),
        forall|other: Coordinate|
            on_grid(old(game_grid)@, other) ==> #[trigger] pixel_at(final(game_grid)@, other) == (
            if other == cell {
                pixel
            } else {
                pixel_at(old(game_grid)@, other)
            }),
{
    game_grid[cell.0][cell.1] = pixel;
}

/// A grid of `grid_size` rows and columns in which every cell is empty.
pub fn blank_grid(grid_size: usize) -> (grid: Vec<Vec<char>>)
    ensures
        is_square(grid@, grid_size),
        forall|cell: Coordinate|
            on_grid(grid@, cell) ==> #[trigger] pixel_at(grid@, cell) == PIXEL_DEFAULT,
{
    let mut grid: Vec<Vec<char>> = Vec::new();
    let mut row: usize = 0;
    while row < grid_size
        invariant
            row <= grid_size,
            grid@.len() == row,
            forall|r: int| 0 <= r < row ==> (#[trigger] grid@[r])@.len() == grid_size,
            forall|cell: Coordinate|
                on_grid(grid@, cell) ==> #[trigger] pixel_at(grid@, cell) == PIXEL_DEFAULT,
        decreases grid_size - row,
    {
        let mut line: Vec<char> = Vec::new();
        let mut col: usize = 0;
        while col < grid_size
            invariant
                col <= grid_size,
                line@.len() == col,
                forall|c: int| 0 <= c < col ==> line@[c] == PIXEL_DEFAULT,
            decreases grid_size - col,
        {
            line.push(PIXEL_DEFAULT);
            col += 1;
        }
        let ghost above = grid@;
        grid.push(line);
        proof {
            assert forall|cell: Coordinate| on_grid(grid@, cell) implies #[trigger] pixel_at(
                grid@,
                cell,
            ) == PIXEL_DEFAULT by {
                if cell.0 < row {
                    assert(grid@[cell.0 as int] == above[cell.0 as int]);
                    assert(on_grid(above, cell));
                    assert(pixel_at(above, cell) == PIXEL_DEFAULT);
                }
            }
        }
        row += 1;
    }
    grid
}

/// Marks every treat on the grid. The other cells stay as they are.
///
/// Every treat must name a cell of the grid.
pub fn add_treats(game_grid: &mut Vec<Vec<char>>, treats: &BTreeSet<Coordinate>)
    requires
        forall|cell: Coordinate| treats@.contains(cell) ==> on_grid(old(game_grid)@, cell),
    ensures
        same_shape(old(game_grid)@, final(game_grid)@),
        forall|cell: Coordinate|
            on_grid(old(game_grid)@, cell) ==> #[trigger] pixel_at(final(game_grid)@, cell) == (
            if treats@.contains(cell) {
                PIXEL_TREAT
            } else {
                pixel_at(old(game_grid)@, cell)
            }),
{
    let ghost all: Seq<Coordinate> = treats.iter().remaining().unref();
    let ghost mut done: int = 0;
    for coords in it: treats.iter()
        invariant
            it.seq().unref() == all,
            it.seq().len() == all.len(),
            all.to_set() == treats@,
            done == it.index(),
            forall|cell: Coordinate| treats@.contains(cell) ==> on_grid(old(game_grid)@, cell),
            same_shape(old(game_grid)@, game_grid@),
            forall|cell: Coordinate|
                on_grid(old(game_grid)@, cell) ==> #[trigger] pixel_at(game_grid@, cell) == (
                if all.take(done).contains(cell) {
                    PIXEL_TREAT
                } else {
                    pixel_at(old(game_grid)@, cell)
                }),
    {
        let ghost before = game_grid@;
        let ghost marked = all.take(done);
        proof {
            assert(all[done] == *coords);
            assert(all.to_set().contains(*coords));
            lemma_take_one_more(all, done);
            done = done + 1;
        }
        mark(game_grid, *coords, PIXEL_TREAT);
        proof {
            assert forall|cell: Coordinate| on_grid(old(game_grid)@, cell) implies #[trigger] pixel_at(
                game_grid@,
                cell,
            ) == (if all.take(done).contains(cell) {
                PIXEL_TREAT
            } else {
                pixel_at(old(game_grid)@, cell)
            }) by {
                assert(on_grid(before, cell));
                assert(pixel_at(before, cell) == (if marked.contains(cell) {
                    PIXEL_TREAT
                } else {
                    pixel_at(old(game_grid)@, cell)
                }));
            }
        }
    }
    proof {
        assert(all.take(all.len() as int) =~= all);
    }
}

/// The first `n + 1` items of a sequence hold what the first `n` hold, and
/// the item at `n`.
proof fn lemma_take_one_more(items: Seq<Coordinate>, n: int)
    requires
        0 <= n < items.len(),
    ensures
        forall|cell: Coordinate|
            items.take(n + 1).contains(cell) <==> (items.take(n).contains(cell) || cell
                == items[n]),
{
    let shorter = items.take(n);
    let longer = items.take(n + 1);
    assert forall|cell: Coordinate| longer.contains(cell) <==> (shorter.contains(cell) || cell
        == items[n]) by {
        if shorter.contains(cell) {
            let j = choose|j: int| 0 <= j < shorter.len() && shorter[j] == cell;
            assert(longer[j] == cell);
        }
        if cell == items[n] {
            assert(longer[n] == cell);
        }
        if longer.contains(cell) {
            let j = choose|j: int| 0 <= j < longer.len() && longer[j] == cell;
            if j < n {
                assert(shorter[j] == cell);
            }
        }
    }
}

/// Marks every segment of the body on the grid. The other cells stay as
/// they are.
///
/// Every segment must name a cell of the grid.
pub fn add_snake(game_grid: &mut Vec<Vec<char>>, snake: &VecDeque<Coordinate>)
    requires
        forall|i: int| 0 <= i < snake@.len() ==> on_grid(old(game_grid)@, #[trigger] snake@[i]),
    ensures
        same_shape(old(game_grid)@, final(game_grid)@),
        forall|cell: Coordinate|
            on_grid(old(game_grid)@, cell) ==> #[trigger] pixel_at(final(game_grid)@, cell) == (
            if snake@.contains(cell) {
                PIXEL_SNAKE
            } else {
                pixel_at(old(game_grid)@, cell)
            }),
{
    let mut i: usize = 0;
    while i < snake.len()
        invariant
            i <= snake@.len(),
            forall|j: int| 0 <= j < snake@.len() ==> on_grid(old(game_grid)@, #[trigger] snake@[j]),
            same_shape(old(game_grid)@, game_grid@),
            forall|cell: Coordinate|
                on_grid(old(game_grid)@, cell) ==> #[trigger] pixel_at(game_grid@, cell) == (
                if snake@.take(i as int).contains(cell) {
                    PIXEL_SNAKE
                } else {
                    pixel_at(old(game_grid)@, cell)
                }),
        decreases snake@.len() - i,
    {
        let ghost before = game_grid@;
        let ghost marked = snake@.take(i as int);
        let coords = snake[i];
        proof {
            assert(on_grid(old(game_grid)@, snake@[i as int]));
            lemma_take_one_more(snake@, i as int);
        }
        mark(game_grid, coords, PIXEL_SNAKE);
        i += 1;
        proof {
            assert forall|cell: Coordinate| on_grid(old(game_grid)@, cell) implies #[trigger] pixel_at(
                game_grid@,
                cell,
            ) == (if snake@.take(i as int).contains(cell) {
                PIXEL_SNAKE
            } else {
                pixel_at(old(game_grid)@, cell)
            }) by {
                assert(on_grid(before, cell));
                assert(pixel_at(before, cell) == (if marked.contains(cell) {
                    PIXEL_SNAKE
                } else {
                    pixel_at(old(game_grid)@, cell)
                }));
            }
        }
    }
    proof {
        assert(snake@.take(snake@.len() as int) =~= snake@);
    }
}

/// Projects body and treats onto a fresh grid of `grid_size` rows and
/// columns.
///
/// Every cell starts empty, then the treats are marked, then the body, so a
/// segment covers a treat on the same cell. Every treat and every segment
/// must lie on the grid.
pub fn render(
    snake: &VecDeque<Coordinate>,
    treats: &BTreeSet<Coordinate>,
    grid_size: usize,
) -> (grid: Vec<Vec<char>>)
    requires
        forall|i: int|
            0 <= i < snake@.len() ==> (#[trigger] snake@[i]).0 < grid_size && snake@[i].1
                < grid_size,
        forall|cell: Coordinate|
            treats@.contains(cell) ==> cell.0 < grid_size && cell.1 < grid_size,
    ensures
        is_square(grid@, grid_size),
        forall|cell: Coordinate|
            cell.0 < grid_size && cell.1 < grid_size ==> #[trigger] pixel_at(grid@, cell)
                == marker(snake@, treats@, cell),
{
    let mut grid = blank_grid(grid_size);
    let ghost blank = grid@;
    add_treats(&mut grid, treats);
    let ghost treated = grid@;
    proof {
        assert forall|row: int| 0 <= row < treated.len() implies (#[trigger] treated[row])@.len()
            == grid_size by {
            assert(blank[row]@.len() == grid_size);
        }
    }
    add_snake(&mut grid, snake);
    proof {
        assert forall|row: int| 0 <= row < grid@.len() implies (#[trigger] grid@[row])@.len()
            == grid_size by {
            assert(treated[row]@.len() == grid_size);
        }
        assert forall|cell: Coordinate| cell.0 < grid_size && cell.1 < grid_size implies #[trigger] pixel_at(
            grid@,
            cell,
        ) == marker(snake@, treats@, cell) by {
            assert(on_grid(blank, cell));
            assert(on_grid(treated, cell));
            assert(pixel_at(blank, cell) == PIXEL_DEFAULT);
            assert(pixel_at(treated, cell) == (if treats@.contains(cell) {
                PIXEL_TREAT
            } else {
                PIXEL_DEFAULT
            }));
        }
    }
    grid
}

} // verus!
