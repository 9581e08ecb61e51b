use vstd::prelude::*;

verus! {

/// A direction relative to a key on either the horizontal or the vertical
/// axis.
#[derive(Debug, Clone, Copy, PartialEq, Eq, Structural)]
pub enum Direction {
    /// Above or to the left of the key
    Previous,
    /// Below or to the right of the key
    Next,
    /// The same row or column as the key
    Same,
}

impl Direction {
    /// The signed step along the axis: -1, +1 or 0.
    pub open spec fn step(self) -> int {
        match self {
            Direction::Previous => -1,
            Direction::Next => 1,
            Direction::Same => 0,
        }
    }

    /// The signed step along the axis as a machine integer.
    pub fn offset(&self) -> (r: i8)
        ensures
            r as int == self.step(),
    {
        match self {
            Direction::Previous => -1,
            Direction::Next => 1,
            Direction::Same => 0,
        }
    }

    /// Moves `index` one step along the axis; `None` where that leaves the
    /// range of `usize`.
    pub fn apply(&self, index: usize) -> (r: Option<usize>)
        ensures
            r == (if 0 <= index + self.step() <= usize::MAX {
                Some((index + self.step()) as usize)
            } else {
                None::<usize>
            }),
    {
        match self {
            Direction::Previous => {
                if index == 0 {
                    None
                } else {
                    Some(index - 1)
                }
            },
            Direction::Next => {
                if index == usize::MAX {
                    None
                } else {
                    Some(index + 1)
                }
            },
            Direction::Same => Some(index),
        }
    }
}

/// The relative position of a neighbouring key to a reference key.
#[derive(Debug, Clone, Copy, PartialEq, Eq, Structural)]
pub struct Edge {
    /// Relative horizontal position
    pub horizontal: Direction,
    /// Relative vertical position
    pub vertical: Direction,
}

/// The physical arrangement of the keys. The main part of a keyboard slants
/// its rows, so a key has six neighbours; a numpad is a plain grid, where a
/// key has eight.
#[derive(Debug, Clone, Copy, PartialEq, Eq, Structural)]
pub enum KeyboardStyle {
    /// Rows are offset from one another
    Slanted,
    /// Keys stand in a clear grid
    Aligned,
}

pub open spec fn edge(h: Direction, v: Direction) -> Edge {
    Edge { horizontal: h, vertical: v }
}

/// The six neighbour positions of a key on slanted rows, in order: left,
/// above, above right, right, below, below left.
pub open spec fn slanted_positions() -> Seq<Edge> {
    seq![
        edge(Direction::Previous, Direction::Same),
        edge(Direction::Same, Direction::Previous),
        edge(Direction::Next, Direction::Previous),
        edge(Direction::Next, Direction::Same),
        edge(Direction::Same, Direction::Next),
        edge(Direction::Previous, Direction::Next),
    ]
}

/// The eight neighbour positions of a key in a grid, clockwise from the left.
pub open spec fn aligned_positions() -> Seq<Edge> {
    seq![
        edge(Direction::Previous, Direction::Same),
        edge(Direction::Previous, Direction::Previous),
        edge(Direction::Same, Direction::Previous),
        edge(Direction::Next, Direction::Previous),
        edge(Direction::Next, Direction::Same),
        edge(Direction::Next, Direction::Next),
        edge(Direction::Same, Direction::Next),
        edge(Direction::Previous, Direction::Next),
    ]
}

pub open spec fn positions_for(style: KeyboardStyle) -> Seq<Edge> {
    match style {
        KeyboardStyle::Slanted => slanted_positions(),
        KeyboardStyle::Aligned => aligned_positions(),
    }
}

/// Returns the relative positions of the neighbours of a key on a slanted
/// keyboard.
pub fn get_slanted_positions() -> (r: Vec<Edge>)
    ensures
        r@ == slanted_positions(),
{
    let r = vec![
        Edge { horizontal: Direction::Previous, vertical: Direction::Same },
        Edge { horizontal: Direction::Same, vertical: Direction::Previous },
        Edge { horizontal: Direction::Next, vertical: Direction::Previous },
        Edge { horizontal: Direction::Next, vertical: Direction::Same },
        Edge { horizontal: Direction::Same, vertical: Direction::Next },
        Edge { horizontal: Direction::Previous, vertical: Direction::Next },
    ];
    assert(r@ =~= slanted_positions());
    r
}

/// Returns the relative positions of the neighbours of a key on an aligned
/// keyboard.
pub fn get_aligned_positions() -> (r: Vec<Edge>)
    ensures
        r@ == aligned_positions(),
{
    let r = vec![
        Edge { horizontal: Direction::Previous, vertical: Direction::Same },
        Edge { horizontal: Direction::Previous, vertical: Direction::Previous },
        Edge { horizontal: Direction::Same, vertical: Direction::Previous },
        Edge { horizontal: Direction::Next, vertical: Direction::Previous },
        Edge { horizontal: Direction::Next, vertical: Direction::Same },
        Edge { horizontal: Direction::Next, vertical: Direction::Next },
        Edge { horizontal: Direction::Same, vertical: Direction::Next },
        Edge { horizontal: Direction::Previous, vertical: Direction::Next },
    ];
    assert(r@ =~= aligned_positions());
    r
}

/// The neighbour positions for a keyboard style.
pub fn get_positions(style: KeyboardStyle) -> (r: Vec<Edge>)
    ensures
        r@ == positions_for(style),
{
    match style {
        KeyboardStyle::Slanted => get_slanted_positions(),
        KeyboardStyle::Aligned => get_aligned_positions(),
    }
}

} // verus!
