use snake_core::grid::{add_snake, add_treats, blank_grid, render, PIXEL_DEFAULT, PIXEL_SNAKE, PIXEL_TREAT};
use std::collections::{BTreeSet, VecDeque};

fn body(cells: &[(usize, usize)]) -> VecDeque<(usize, usize)> {
    cells.iter().copied().collect()
}

fn set(cells: &[(usize, usize)]) -> BTreeSet<(usize, usize)> {
    cells.iter().copied().collect()
}

fn rows(grid: &Vec<Vec<char>>) -> Vec<String> {
    grid.iter().map(|row| row.iter().collect()).collect()
}

#[test]
fn markers() {
    assert_eq!(PIXEL_DEFAULT, '.');
    assert_eq!(PIXEL_TREAT, '*');
    assert_eq!(PIXEL_SNAKE, 'X');
}

#[test]
fn blank_grid_is_square_and_empty() {
    let grid = blank_grid(10);
    assert_eq!(grid.len(), 10);
    for row in &grid {
        assert_eq!(row.len(), 10);
        for pixel in row {
            assert_eq!(*pixel, '.');
        }
    }
}

#[test]
fn blank_grid_of_size_zero_and_one() {
    assert!(blank_grid(0).is_empty());
    assert_eq!(blank_grid(1), vec![vec!['.']]);
}

#[test]
fn add_treats_marks_the_treats_only() {
    let mut grid = blank_grid(4);
    add_treats(&mut grid, &set(&[(0, 0), (1, 2), (3, 3)]));
    assert_eq!(rows(&grid), vec!["*...", "..*.", "....", "...*"]);
}

#[test]
fn add_treats_with_no_treats() {
    let mut grid = blank_grid(3);
    add_treats(&mut grid, &set(&[]));
    assert_eq!(grid, blank_grid(3));
}

#[test]
fn add_snake_marks_the_body_only() {
    let mut grid = blank_grid(4);
    add_snake(&mut grid, &body(&[(1, 1), (2, 1), (2, 2)]));
    assert_eq!(rows(&grid), vec!["....", ".X..", ".XX.", "...."]);
}

#[test]
fn add_snake_keeps_other_markers() {
    let mut grid = vec![vec!['a', 'b'], vec!['c', 'd']];
    add_snake(&mut grid, &body(&[(0, 1)]));
    assert_eq!(grid, vec![vec!['a', 'X'], vec!['c', 'd']]);
    add_treats(&mut grid, &set(&[(1, 0)]));
    assert_eq!(grid, vec![vec!['a', 'X'], vec!['*', 'd']]);
}

#[test]
fn marking_works_on_ragged_rows() {
    let mut grid = vec![vec!['.'], vec!['.', '.', '.']];
    add_treats(&mut grid, &set(&[(1, 2)]));
    add_snake(&mut grid, &body(&[(0, 0)]));
    assert_eq!(grid, vec![vec!['X'], vec!['.', '.', '*']]);
}

#[test]
fn render_of_the_opening_position() {
    let grid = render(&body(&[(5, 5), (6, 5)]), &set(&[(3, 4)]), 10);
    assert_eq!(
        rows(&grid),
        vec![
            "..........",
            "..........",
            "..........",
            "....*.....",
            "..........",
            ".....X....",
            ".....X....",
            "..........",
            "..........",
            "..........",
        ]
    );
}

#[test]
fn render_draws_the_body_over_a_treat() {
    let grid = render(&body(&[(0, 0), (0, 1)]), &set(&[(0, 1), (1, 1)]), 2);
    assert_eq!(rows(&grid), vec!["XX", ".*"]);
}

#[test]
fn render_is_made_afresh() {
    let snake = body(&[(0, 0), (0, 1)]);
    let first = render(&snake, &set(&[(2, 2)]), 3);
    let second = render(&snake, &set(&[]), 3);
    assert_eq!(rows(&first), vec!["XX.", "...", "..*"]);
    assert_eq!(rows(&second), vec!["XX.", "...", "..."]);
}

#[test]
fn render_matches_membership_cell_by_cell() {
    let snake = body(&[(1, 1), (1, 2), (2, 2), (3, 2)]);
    let treats = set(&[(0, 0), (4, 4), (2, 0)]);
    let grid = render(&snake, &treats, 5);
    assert_eq!(grid.len(), 5);
    for row in 0..5 {
        assert_eq!(grid[row].len(), 5);
        for col in 0..5 {
            let expected = if snake.contains(&(row, col)) {
                'X'
            } else if treats.contains(&(row, col)) {
                '*'
            } else {
                '.'
            };
            assert_eq!(grid[row][col], expected);
        }
    }
}
