//! The direction of travel and the rule that restricts turns to the
//! perpendicular axis.

use vstd::prelude::*;

verus! {

/// One of the four directions in which the head can move.
#[derive(Clone, Copy, Debug, PartialEq, Eq, Structural)]
pub enum Direction {
    Up,
    Down,
    Left,
    Right,
}

/// The two axis classes that partition the directions.
#[derive(Clone, Copy, Debug, PartialEq, Eq, Structural)]
pub enum Axis {
    Vertical,
    Horizontal,
}

impl Direction {
    /// The axis class of a direction: `Up` and `Down` are vertical,
    /// `Left` and `Right` are horizontal.
    pub open spec fn axis_spec(self) -> Axis {
        match self {
            Direction::Up | Direction::Down => Axis::Vertical,
            Direction::Left | Direction::Right => Axis::Horizontal,
        }
    }

    #[verifier::when_used_as_spec(axis_spec)]
    pub fn axis(self) -> (a: Axis)
        ensures
            a == self.axis_spec(),
    {
        match self {
            Direction::Up | Direction::Down => Axis::Vertical,
            Direction::Left | Direction::Right => Axis::Horizontal,
        }
    }
}

/// The direction after a turn request: a request for the other axis is
/// taken, anything else leaves the direction as it was.
pub open spec fn resolve_spec(current: Direction, requested: Option<Direction>) -> Direction {
    match requested {
        Some(wanted) => if wanted.axis() != current.axis() {
            wanted
        } else {
            current
        },
        None => current,
    }
}

/// Resolves a turn request against the current direction.
///
/// Only a turn onto the perpendicular axis is accepted. A missing request, a
/// request for the current direction and a reversal all leave the direction
/// unchanged.
pub fn resolve(current: Direction, requested: Option<Direction>) -> (next: Direction)
    ensures
        next == resolve_spec(current, requested),
        requested is None ==> next == current,
        requested matches Some(wanted) ==> (wanted.axis() != current.axis() ==> next == wanted),
        requested matches Some(wanted) ==> (wanted.axis() == current.axis() ==> next == current),
{
    match requested {
        Some(wanted) => {
            if wanted.axis() != current.axis() {
                wanted
            } else {
                current
            }
        },
        None => current,
    }
}

/// The direction that a line of input asks for: one key and a line feed.
/// `W` asks for up, `S` for down, `A` for left and `D` for right. Every other
/// line asks for nothing.
pub open spec fn requested_spec(line: Seq<char>) -> Option<Direction> {
    if line.len() == 2 && line[1] == '\n' {
        if line[0] == 'W' {
            Some(Direction::Up)
        } else if line[0] == 'S' {
            Some(Direction::Down)
        } else if line[0] == 'A' {
            Some(Direction::Left)
        } else if line[0] == 'D' {
            Some(Direction::Right)
        } else {
            None
        }
    } else {
        None
    }
}

/// Reads a turn request from a line of input.
pub fn requested_direction(input: &str) -> (requested: Option<Direction>)
    ensures
        requested == requested_spec(input@),
{
    if input.unicode_len() != 2 {
        return None;
    }
    if input.get_char(1) != '\n' {
        return None;
    }
    let key = input.get_char(0);
    if key == 'W' {
        Some(Direction::Up)
    } else if key == 'S' {
        Some(Direction::Down)
    } else if key == 'A' {
        Some(Direction::Left)
    } else if key == 'D' {
        Some(Direction::Right)
    } else {
        None
    }
}

/// The direction after a line of input: the line is read as a turn request,
/// and the request is resolved against the current direction.
///
/// While the head moves up or down only `A` and `D` turn it, while it moves
/// left or right only `W` and `S`. Any other line leaves the direction as it
/// was.
pub fn update_direction(direction: Direction, input: &str) -> (next: Direction)
    ensures
        next == resolve_spec(direction, requested_spec(input@)),
{
    resolve(direction, requested_direction(input))
}

} // verus!
