//! The diagnostic pattern: triangles for the right eye, hexagons for the left.

use vstd::prelude::*;

verus! {

pub const COLS: i32 = 5;
pub const ROWS: i32 = 4;

/// A cell of the pattern, counted from its middle.
#[derive(Clone, Copy, Debug, PartialEq, Eq, Structural)]
pub struct Cell {
    pub x: i32,
    pub y: i32,
}

/// The cells, row by row.
pub open spec fn cell(i: int) -> Cell {
    Cell { x: (i % 5 - 2) as i32, y: (i / 5 - 2) as i32 }
}

/// The cells of the pattern, row by row.
fn cells() -> (c: Vec<Cell>)
    ensures
        c@ == Seq::new(20, |i: int| cell(i)),
{
    let mut c: Vec<Cell> = Vec::new();
    let mut row: i32 = 0;
    while row < ROWS
        invariant
            0 <= row <= ROWS,
            c@ =~= Seq::new((row * 5) as nat, |i: int| cell(i)),
        decreases ROWS - row,
    {
        let mut col: i32 = 0;
        while col < COLS
            invariant
                0 <= row < ROWS,
                0 <= col <= COLS,
                c@ =~= Seq::new((row * 5 + col) as nat, |i: int| cell(i)),
            decreases COLS - col,
        {
            proof {
                let i = row * 5 + col;
                assert(i % 5 == col && i / 5 == row);
            }
            c.push(Cell { x: col - 2, y: row - 2 });
            col += 1;
        }
        row += 1;
    }
    c
}

/// What to build for the pattern: a shape for each of these cells, unless that
/// was done already.
pub fn warm(built: bool) -> (c: Option<Vec<Cell>>)
    ensures
        match c {
            Some(c) => !built && c@ == Seq::new(20, |i: int| cell(i)),
            None => built,
        },
{
    if built {
        None
    } else {
        Some(cells())
    }
}

/// Corners of the shape in a cell of the pattern that an eye sees.
pub fn corners(left: bool) -> (n: u32)
    ensures
        n == (if left {
            6u32
        } else {
            3u32
        }),
{
    if left {
        6
    } else {
        3
    }
}

/// Which of the two patterns to draw: the first is the right eye's.
pub fn pattern_of(show: i32) -> (k: usize)
    ensures
        k == (if show != 0 {
            1usize
        } else {
            0usize
        }),
{
    if show != 0 {
        1
    } else {
        0
    }
}

} // verus!
