use rand::rngs::StdRng;
use rand::SeedableRng;
use snake_core::spawn::{generate_treats, place_treat, spawn_due, MAX_SPAWN_ATTEMPTS, ROLL_RANGE};
use std::collections::{BTreeSet, VecDeque};

fn body(cells: &[(usize, usize)]) -> VecDeque<(usize, usize)> {
    cells.iter().copied().collect()
}

fn set(cells: &[(usize, usize)]) -> BTreeSet<(usize, usize)> {
    cells.iter().copied().collect()
}

fn full_grid(grid_size: usize) -> Vec<(usize, usize)> {
    let mut cells = Vec::new();
    for row in 0..grid_size {
        for col in 0..grid_size {
            cells.push((row, col));
        }
    }
    cells
}

#[test]
fn constants() {
    assert_eq!(ROLL_RANGE, 100);
    assert_eq!(MAX_SPAWN_ATTEMPTS, 1000);
}

#[test]
fn spawn_due_compares_roll_and_chance() {
    assert!(spawn_due(0, 10));
    assert!(spawn_due(9, 10));
    assert!(!spawn_due(10, 10));
    assert!(!spawn_due(99, 10));
    assert!(!spawn_due(0, 0));
    assert!(spawn_due(99, 100));
}

#[test]
fn place_treat_on_a_free_cell() {
    let snake = body(&[(1, 1), (1, 2)]);
    let mut treats = set(&[(5, 5)]);
    assert!(place_treat(&mut treats, &snake, (3, 3)));
    assert_eq!(treats, set(&[(3, 3), (5, 5)]));
}

#[test]
fn place_treat_on_the_body_is_refused() {
    let snake = body(&[(1, 1), (1, 2)]);
    let mut treats = set(&[(5, 5)]);
    assert!(!place_treat(&mut treats, &snake, (1, 2)));
    assert!(!place_treat(&mut treats, &snake, (1, 1)));
    assert_eq!(treats, set(&[(5, 5)]));
}

#[test]
fn place_treat_on_a_treat_changes_nothing() {
    let snake = body(&[(1, 1), (1, 2)]);
    let mut treats = set(&[(5, 5)]);
    assert!(place_treat(&mut treats, &snake, (5, 5)));
    assert_eq!(treats, set(&[(5, 5)]));
}

#[test]
fn no_spawn_at_chance_zero() {
    let snake = body(&[(1, 1), (1, 2)]);
    for seed in 0..200 {
        let mut rng = StdRng::seed_from_u64(seed);
        let mut treats = set(&[(5, 5)]);
        assert_eq!(generate_treats(&mut treats, &snake, 10, 0, &mut rng), None);
        assert_eq!(treats, set(&[(5, 5)]));
    }
}

#[test]
fn no_spawn_on_an_empty_grid() {
    let snake = body(&[]);
    let mut rng = StdRng::seed_from_u64(1);
    let mut treats = set(&[]);
    assert_eq!(generate_treats(&mut treats, &snake, 0, 100, &mut rng), None);
    assert!(treats.is_empty());
}

#[test]
fn certain_spawn_lands_on_the_grid() {
    let snake = body(&[]);
    for seed in 0..200 {
        let mut rng = StdRng::seed_from_u64(seed);
        let mut treats = set(&[]);
        let spawned = generate_treats(&mut treats, &snake, 4, 100, &mut rng);
        let cell = spawned.expect("a spawn at a chance of 100 on a clear grid");
        assert!(cell.0 < 4 && cell.1 < 4);
        assert_eq!(treats, set(&[cell]));
    }
}

#[test]
fn spawn_is_never_on_the_body() {
    let snake = body(&[(0, 0), (0, 1), (0, 2), (1, 2), (2, 2), (2, 1), (2, 0)]);
    for seed in 0..300 {
        let mut rng = StdRng::seed_from_u64(seed);
        let mut treats = set(&[]);
        let spawned = generate_treats(&mut treats, &snake, 3, 100, &mut rng);
        let cell = spawned.expect("two cells are free");
        assert!(!snake.contains(&cell));
        assert!(cell == (1, 0) || cell == (1, 1));
        assert_eq!(treats, set(&[cell]));
    }
}

#[test]
fn spawn_finds_the_only_free_cell() {
    let mut cells = full_grid(3);
    cells.retain(|cell| *cell != (1, 1));
    let snake = body(&cells);
    for seed in 0..50 {
        let mut rng = StdRng::seed_from_u64(seed);
        let mut treats = set(&[]);
        assert_eq!(generate_treats(&mut treats, &snake, 3, 100, &mut rng), Some((1, 1)));
        assert_eq!(treats, set(&[(1, 1)]));
    }
}

#[test]
fn spawn_gives_up_on_a_full_grid() {
    let snake = body(&full_grid(3));
    for seed in 0..20 {
        let mut rng = StdRng::seed_from_u64(seed);
        let mut treats = set(&[]);
        assert_eq!(generate_treats(&mut treats, &snake, 3, 100, &mut rng), None);
        assert!(treats.is_empty());
    }
}

#[test]
fn spawn_on_a_treat_keeps_the_set() {
    let mut cells = full_grid(2);
    cells.retain(|cell| *cell != (0, 1));
    let snake = body(&cells);
    let mut rng = StdRng::seed_from_u64(3);
    let mut treats = set(&[(0, 1)]);
    assert_eq!(generate_treats(&mut treats, &snake, 2, 100, &mut rng), Some((0, 1)));
    assert_eq!(treats, set(&[(0, 1)]));
}

#[test]
fn spawn_keeps_the_treats_it_found() {
    let snake = body(&[(0, 0), (0, 1)]);
    for seed in 0..100 {
        let mut rng = StdRng::seed_from_u64(seed);
        let mut treats = set(&[(3, 3), (2, 1)]);
        let spawned = generate_treats(&mut treats, &snake, 5, 50, &mut rng);
        match spawned {
            Some(cell) => {
                assert!(cell.0 < 5 && cell.1 < 5);
                assert!(!snake.contains(&cell));
                let mut expected = set(&[(3, 3), (2, 1)]);
                expected.insert(cell);
                assert_eq!(treats, expected);
            }
            None => assert_eq!(treats, set(&[(3, 3), (2, 1)])),
        }
    }
}

#[test]
fn spawn_chance_is_about_the_percentage() {
    let snake = body(&[(0, 0), (0, 1)]);
    let mut rng = StdRng::seed_from_u64(2024);
    let mut spawns = 0;
    for _ in 0..10000 {
        let mut treats = set(&[]);
        if generate_treats(&mut treats, &snake, 10, 10, &mut rng).is_some() {
            spawns += 1;
        }
    }
    assert!(spawns > 700 && spawns < 1300);
}

#[test]
fn same_seed_same_spawns() {
    let snake = body(&[(0, 0), (0, 1)]);
    let mut first = StdRng::seed_from_u64(99);
    let mut second = StdRng::seed_from_u64(99);
    for _ in 0..200 {
        let mut treats_first = set(&[]);
        let mut treats_second = set(&[]);
        let a = generate_treats(&mut treats_first, &snake, 10, 30, &mut first);
        let b = generate_treats(&mut treats_second, &snake, 10, 30, &mut second);
        assert_eq!(a, b);
        assert_eq!(treats_first, treats_second);
    }
}
