//! Board squares, addressed by file and rank, with the single-integer
//! `rank * 8 + file` encoding used on the wire.

use vstd::prelude::*;

verus! {

/// One of the 64 board positions. `file` counts columns (0 = a, 7 = h) and
/// `rank` counts rows (0 = White's home rank, 7 = Black's home rank).
#[derive(Clone, Copy, Debug, PartialEq, Eq, Structural)]
pub struct Square {
    pub file: u8,
    pub rank: u8,
}

impl Square {
    /// Both coordinates lie on the board.
    pub open spec fn valid(self) -> bool {
        self.file < 8 && self.rank < 8
    }

    /// The `rank * 8 + file` encoding of a square as one integer.
    pub open spec fn idx(self) -> int {
        self.rank * 8 + self.file
    }

    /// Builds the square with the given coordinates.
    pub fn new(file: u8, rank: u8) -> (s: Square)
        requires
            file < 8,
            rank < 8,
        ensures
            s == (Square { file, rank }),
    {
        Square { file, rank }
    }

    /// The `rank * 8 + file` encoding of a square as one integer.
    pub fn index(self) -> (i: u8)
        requires
            self.valid(),
        ensures
            i == self.idx(),
            i < 64,
    {
        self.rank * 8 + self.file
    }

    /// Recovers a square from its integer encoding; `None` for values
    /// outside `0..64`.
    pub fn from_index(i: u8) -> (s: Option<Square>)
        ensures
            match s {
                Some(sq) => sq.valid() && sq.idx() == i && i < 64,
                None => i >= 64,
            },
    {
        if i < 64 {
            Some(Square { file: i % 8, rank: i / 8 })
        } else {
            None
        }
    }
}

} // verus!
