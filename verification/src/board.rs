//! The board: 64 slots, each holding at most one piece.

use vstd::prelude::*;

use crate::piece::Piece;
use crate::square::Square;

verus! {

/// Whether integer coordinates name one of the 64 board positions.
pub open spec fn on_board(f: int, r: int) -> bool {
    0 <= f < 8 && 0 <= r < 8
}

/// The occupant of the slot at file `f`, rank `r` of a 64-slot board model;
/// coordinates off the board hold nothing.
pub open spec fn piece_at(b: Seq<Option<Piece>>, f: int, r: int) -> Option<Piece>
    recommends
        b.len() == 64,
{
    if on_board(f, r) {
        b[r * 8 + f]
    } else {
        None
    }
}

/// The four independent castling permissions: one per color and board side.
/// A flag is set while the king and the corresponding rook have not yet
/// moved (and the rook has not been captured).
#[derive(Clone, Copy, Debug, PartialEq, Eq, Structural)]
pub struct CastlingRights {
    pub white_kingside: bool,
    pub white_queenside: bool,
    pub black_kingside: bool,
    pub black_queenside: bool,
}

impl CastlingRights {
    /// All four permissions, as at the start of a game.
    pub fn initial() -> (c: CastlingRights)
        ensures
            c.white_kingside && c.white_queenside && c.black_kingside && c.black_queenside,
    {
        CastlingRights {
            white_kingside: true,
            white_queenside: true,
            black_kingside: true,
            black_queenside: true,
        }
    }
}

/// A mapping from squares to optional pieces, stored rank-major: the slot of
/// square `s` is `s.rank * 8 + s.file`.
#[derive(Debug)]
pub struct Board {
    squares: Vec<Option<Piece>>,
}

impl View for Board {
    type V = Seq<Option<Piece>>;

    closed spec fn view(&self) -> Seq<Option<Piece>> {
        self.squares@
    }
}

impl Board {
    /// A board is well formed when it has exactly one slot per square.
    pub open spec fn wf(self) -> bool {
        self@.len() == 64
    }

    /// The empty board.
    pub fn empty() -> (b: Board)
        ensures
            b.wf(),
            forall|i: int| 0 <= i < 64 ==> b@[i] is None,
    {
        let mut squares: Vec<Option<Piece>> = Vec::new();
        let mut i: usize = 0;
        while i < 64
            invariant
                i <= 64,
                squares@.len() == i,
                forall|j: int| 0 <= j < i ==> squares@[j] is None,
            decreases 64 - i,
        {
            squares.push(None);
            i = i + 1;
        }
        Board { squares }
    }

    /// The occupant of `s`.
    pub fn get(&self, s: Square) -> (p: Option<Piece>)
        requires
            self.wf(),
            s.valid(),
        ensures
            p == piece_at(self@, s.file as int, s.rank as int),
    {
        self.squares[(s.rank * 8 + s.file) as usize]
    }

    /// The occupant of the square with file `f` and rank `r`.
    pub fn get_at(&self, f: u8, r: u8) -> (p: Option<Piece>)
        requires
            self.wf(),
            f < 8,
            r < 8,
        ensures
            p == piece_at(self@, f as int, r as int),
    {
        self.squares[(r * 8 + f) as usize]
    }

    /// The occupant of the slot with encoding `i`.
    pub fn get_index(&self, i: u8) -> (p: Option<Piece>)
        requires
            self.wf(),
            i < 64,
        ensures
            p == self@[i as int],
    {
        self.squares[i as usize]
    }

    /// Replaces the occupant of `s`.
    pub fn set(&mut self, s: Square, p: Option<Piece>)
        requires
            old(self).wf(),
            s.valid(),
        ensures
            final(self).wf(),
            final(self)@ == old(self)@.update(s.idx(), p),
    {
        self.squares.set((s.rank * 8 + s.file) as usize, p);
    }

    /// An independent copy with the same contents, for scratch simulation.
    pub fn duplicate(&self) -> (b: Board)
        requires
            self.wf(),
        ensures
            b.wf(),
            b@ == self@,
    {
        let mut squares: Vec<Option<Piece>> = Vec::new();
        let mut i: usize = 0;
        while i < 64
            invariant
                i <= 64,
                self@.len() == 64,
                squares@.len() == i,
                forall|j: int| 0 <= j < i ==> squares@[j] == self@[j],
            decreases 64 - i,
        {
            squares.push(self.squares[i]);
            i = i + 1;
        }
        let b = Board { squares };
        assert(b@ =~= self@);
        b
    }
}

} // verus!
