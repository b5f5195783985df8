use vstd::prelude::*;

verus! {

/// Default number of columns of the board.
pub const WIDTH: u8 = 15;

/// Default number of rows of the board.
pub const HEIGHT: u8 = 15;

/// Largest number of columns or rows a board may have.
pub const MAX_SIDE: u8 = 127;

/// A cell of the board; `x` grows to the right and `y` grows upwards.
#[derive(Clone, Copy, Debug, PartialEq, Eq, Structural, Hash)]
pub struct Position {
    pub x: i8,
    pub y: i8,
}

/// One of the four directions in which the head can travel.
#[derive(Clone, Copy, Debug, PartialEq, Eq, Structural, Hash)]
pub enum Direction {
    Up,
    Down,
    Left,
    Right,
}

/// The directional keys held down during one frame.
#[derive(Clone, Copy, Debug, PartialEq, Eq, Structural, Hash)]
pub struct Keys {
    pub left: bool,
    pub right: bool,
    pub up: bool,
    pub down: bool,
}

/// Board dimensions that the simulation supports.
pub open spec fn valid_dims(width: u8, height: u8) -> bool {
    1 <= width <= MAX_SIDE && 2 <= height <= MAX_SIDE
}

pub open spec fn in_bounds(p: Position, width: u8, height: u8) -> bool {
    0 <= p.x < width && 0 <= p.y < height
}

pub open spec fn opposite_of(d: Direction) -> Direction {
    match d {
        Direction::Up => Direction::Down,
        Direction::Down => Direction::Up,
        Direction::Left => Direction::Right,
        Direction::Right => Direction::Left,
    }
}

/// The cell one step away from `p` in direction `d`.
pub open spec fn stepped(p: Position, d: Direction) -> Position {
    match d {
        Direction::Up => Position { x: p.x, y: (p.y + 1) as i8 },
        Direction::Down => Position { x: p.x, y: (p.y - 1) as i8 },
        Direction::Left => Position { x: (p.x - 1) as i8, y: p.y },
        Direction::Right => Position { x: (p.x + 1) as i8, y: p.y },
    }
}

/// The direction a frame's keys ask for: left, then down, then up, then
/// right take precedence; with no key held the previous choice carries over.
pub open spec fn pressed_direction(keys: Keys, previous: Direction) -> Direction {
    if keys.left {
        Direction::Left
    } else if keys.down {
        Direction::Down
    } else if keys.up {
        Direction::Up
    } else if keys.right {
        Direction::Right
    } else {
        previous
    }
}

impl Position {
    pub fn new(x: i8, y: i8) -> (r: Position)
        ensures
            r.x == x,
            r.y == y,
    {
        Position { x, y }
    }

    /// Whether the cell lies on a `width` by `height` board.
    pub fn is_inside(&self, width: u8, height: u8) -> (r: bool)
        ensures
            r == in_bounds(*self, width, height),
    {
        0 <= self.x && 0 <= self.y && (self.x as u8) < width && (self.y as u8) < height
    }

    /// The neighbouring cell in direction `d`.
    pub fn step(&self, d: Direction) -> (r: Position)
        requires
            -127 <= self.x <= 126,
            -127 <= self.y <= 126,
        ensures
            r == stepped(*self, d),
    {
        match d {
            Direction::Up => Position { x: self.x, y: self.y + 1 },
            Direction::Down => Position { x: self.x, y: self.y - 1 },
            Direction::Left => Position { x: self.x - 1, y: self.y },
            Direction::Right => Position { x: self.x + 1, y: self.y },
        }
    }
}

impl Direction {
    /// The reverse direction.
    pub fn opposite(self) -> (r: Direction)
        ensures
            r == opposite_of(self),
    {
        match self {
            Direction::Left => Direction::Right,
            Direction::Right => Direction::Left,
            Direction::Up => Direction::Down,
            Direction::Down => Direction::Up,
        }
    }
}

/// Reads the held keys into a direction, falling back to `previous`.
pub fn sample_direction(keys: Keys, previous: Direction) -> (r: Direction)
    ensures
        r == pressed_direction(keys, previous),
{
    if keys.left {
        Direction::Left
    } else if keys.down {
        Direction::Down
    } else if keys.up {
        Direction::Up
    } else if keys.right {
        Direction::Right
    } else {
        previous
    }
}

} // verus!
