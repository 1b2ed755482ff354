//! The game state and the move applier: canonical position plus metadata,
//! legal-move queries, validated move application, and terminal-state
//! detection.

use vstd::prelude::*;

use crate::board::{on_board, piece_at, Board, CastlingRights};
use crate::piece::{Color, Piece, PieceType};
use crate::rules::{
    abs, attack_pattern, attacks_from, board_after, in_check, is_attacked, last_rank,
    legal_dest, lemma_check_same_shape, pawn_dir, pseudo_dest,
};
use crate::square::Square;

verus! {

/// Where a game stands: still open (perhaps with the side to move in
/// check), or finished by checkmate or stalemate.
#[derive(Clone, Copy, Debug, PartialEq, Eq, Structural)]
pub enum Status {
    InProgress,
    Check,
    Checkmate,
    Stalemate,
}

/// One move: source and destination squares, and the piece a pawn promotes
/// to when it reaches the last rank.
#[derive(Clone, Copy, Debug, PartialEq, Eq)]
pub struct Move {
    pub from: Square,
    pub to: Square,
    pub promotion: Option<PieceType>,
}

/// Why a proposed move was rejected. Rejection is recoverable: the position
/// is left unchanged.
#[derive(Clone, Copy, Debug, PartialEq, Eq, Structural)]
pub enum IllegalMoveError {
    NoPieceAtSource,
    NotPlayersTurn,
    IllegalDestination,
    PromotionRequired,
    InvalidPromotion,
    /// Part of the error taxonomy for callers that classify rejections.
    /// `apply` folds the self-check filter into legal destinations, so it
    /// reports such moves as `IllegalDestination` and, as its contract
    /// states, never returns this finer variant itself.
    WouldLeaveKingInCheck,
}

/// The king of color `c`.
pub open spec fn spec_king(c: Color) -> Piece {
    Piece { color: c, kind: PieceType::King }
}

/// How many kings of color `c` the board holds.
pub open spec fn king_count(b: Seq<Option<Piece>>, c: Color) -> int
    decreases b.len(),
{
    if b.len() == 0 {
        0
    } else {
        king_count(b.drop_last(), c) + (if b.last() == Some(spec_king(c)) {
            1int
        } else {
            0
        })
    }
}

/// Exactly one king of each color, as required of a position in progress.
pub open spec fn kings_ok(b: Seq<Option<Piece>>) -> bool {
    king_count(b, Color::White) == 1 && king_count(b, Color::Black) == 1
}

/// A board without a king of color `c` has count zero.
proof fn lemma_king_count_zero(b: Seq<Option<Piece>>, c: Color)
    requires
        forall|j: int| 0 <= j < b.len() ==> b[j] != Some(spec_king(c)),
    ensures
        king_count(b, c) == 0,
    decreases b.len(),
{
    if b.len() > 0 {
        lemma_king_count_zero(b.drop_last(), c);
    }
}

/// A board whose only king of color `c` stands at slot `i` has count one.
proof fn lemma_king_count_unique(b: Seq<Option<Piece>>, c: Color, i: int)
    requires
        0 <= i < b.len(),
        b[i] == Some(spec_king(c)),
        forall|j: int| 0 <= j < b.len() && j != i ==> b[j] != Some(spec_king(c)),
    ensures
        king_count(b, c) == 1,
    decreases b.len(),
{
    if i == b.len() - 1 {
        lemma_king_count_zero(b.drop_last(), c);
    } else {
        lemma_king_count_unique(b.drop_last(), c, i);
    }
}

/// How a single-slot update changes the king count.
proof fn lemma_king_count_update(b: Seq<Option<Piece>>, i: int, v: Option<Piece>, c: Color)
    requires
        0 <= i < b.len(),
    ensures
        king_count(b.update(i, v), c) == king_count(b, c) - (if b[i] == Some(spec_king(c)) {
            1int
        } else {
            0
        }) + (if v == Some(spec_king(c)) {
            1int
        } else {
            0
        }),
    decreases b.len(),
{
    if i == b.len() - 1 {
        assert(b.update(i, v).drop_last() =~= b.drop_last());
    } else {
        lemma_king_count_update(b.drop_last(), i, v, c);
        assert(b.update(i, v).drop_last() =~= b.drop_last().update(i, v));
    }
}

/// The en-passant target is coherent: it names the square just passed over
/// by an enemy pawn that has advanced two squares on the previous ply.
pub open spec fn ep_ok(b: Seq<Option<Piece>>, stm: Color, ep: Option<Square>) -> bool {
    ep matches Some(t) ==> {
        let mover = stm.spec_opposite();
        &&& t.valid()
        &&& t.rank as int == (if mover is White {
            2int
        } else {
            5
        })
        &&& piece_at(b, t.file as int, t.rank + pawn_dir(mover)) == Some(
            Piece { color: mover, kind: PieceType::Pawn },
        )
        &&& piece_at(b, t.file as int, t.rank as int) is None
    }
}

/// A piece of color `c` stands on the valid square `s`.
pub open spec fn is_color_piece(b: Seq<Option<Piece>>, s: Square, c: Color) -> bool {
    s.valid() && (piece_at(b, s.file as int, s.rank as int) matches Some(p) && p.color == c)
}

/// Some legal destination exists for the piece on `from`.
pub open spec fn square_has_legal(
    b: Seq<Option<Piece>>,
    cr: CastlingRights,
    ep: Option<Square>,
    from: Square,
) -> bool {
    exists|to: Square| #[trigger] legal_dest(b, cr, ep, from, to)
}

/// Side `c` has at least one legal move somewhere on the board.
pub open spec fn has_any_legal_move(
    b: Seq<Option<Piece>>,
    cr: CastlingRights,
    ep: Option<Square>,
    c: Color,
) -> bool {
    exists|from: Square|
        is_color_piece(b, from, c) && #[trigger] square_has_legal(b, cr, ep, from)
}

/// The status of a position from the viewpoint of side `c` to move: with a
/// legal move it is Check or InProgress, without one Checkmate or
/// Stalemate, according to whether `c` is attacked.
pub open spec fn spec_status(
    b: Seq<Option<Piece>>,
    cr: CastlingRights,
    ep: Option<Square>,
    c: Color,
) -> Status {
    if has_any_legal_move(b, cr, ep, c) {
        if in_check(b, c) {
            Status::Check
        } else {
            Status::InProgress
        }
    } else {
        if in_check(b, c) {
            Status::Checkmate
        } else {
            Status::Stalemate
        }
    }
}

/// Whether the move from `from` to `to` touches the square `(f, r)`.
pub open spec fn touches(from: Square, to: Square, f: int, r: int) -> bool {
    (from.file == f && from.rank == r) || (to.file == f && to.rank == r)
}

/// The castling permissions after the given piece moves: a king move clears
/// both permissions of its color, and a move from or onto a rook's corner
/// clears that corner's permission.
pub open spec fn rights_after(cr: CastlingRights, p: Piece, from: Square, to: Square)
    -> CastlingRights {
    let king_white = p.kind is King && p.color is White;
    let king_black = p.kind is King && p.color is Black;
    CastlingRights {
        white_kingside: cr.white_kingside && !king_white && !touches(from, to, 7, 0),
        white_queenside: cr.white_queenside && !king_white && !touches(from, to, 0, 0),
        black_kingside: cr.black_kingside && !king_black && !touches(from, to, 7, 7),
        black_queenside: cr.black_queenside && !king_black && !touches(from, to, 0, 7),
    }
}

/// The piece `p` moving onto `to` must name a promotion piece.
pub open spec fn needs_promotion(p: Piece, to: Square) -> bool {
    p.kind is Pawn && to.rank as int == last_rank(p.color)
}

/// The kinds a pawn may promote to.
pub open spec fn valid_promotion_kind(k: PieceType) -> bool {
    k is Knight || k is Bishop || k is Rook || k is Queen
}

/// The move captures something: its destination is occupied, or it is an
/// en-passant capture of the passed pawn.
pub open spec fn is_capture(
    b: Seq<Option<Piece>>,
    ep: Option<Square>,
    from: Square,
    to: Square,
) -> bool {
    ||| piece_at(b, to.file as int, to.rank as int) is Some
    ||| {
        &&& piece_at(b, from.file as int, from.rank as int) matches Some(p) && p.kind is Pawn
        &&& ep matches Some(t) && t == to
        &&& from.file != to.file
    }
}

/// The en-passant target after the given piece moves: set just behind a
/// pawn that advanced two squares, cleared otherwise.
pub open spec fn ep_after(p: Piece, from: Square, to: Square) -> Option<Square> {
    if p.kind is Pawn && (to.rank as int - from.rank as int == 2 || from.rank as int
        - to.rank as int == 2) {
        Some(Square { file: from.file, rank: ((from.rank + to.rank) / 2) as u8 })
    } else {
        None
    }
}

/// The piece kind on the back rank's file `f` at the start of a game.
pub open spec fn back_rank_kind(f: int) -> PieceType {
    if f == 0 || f == 7 {
        PieceType::Rook
    } else if f == 1 || f == 6 {
        PieceType::Knight
    } else if f == 2 || f == 5 {
        PieceType::Bishop
    } else if f == 3 {
        PieceType::Queen
    } else {
        PieceType::King
    }
}

/// The occupant of `(f, r)` in the standard initial position.
pub open spec fn initial_piece_at(f: int, r: int) -> Option<Piece> {
    if r == 0 {
        Some(Piece { color: Color::White, kind: back_rank_kind(f) })
    } else if r == 1 {
        Some(Piece { color: Color::White, kind: PieceType::Pawn })
    } else if r == 6 {
        Some(Piece { color: Color::Black, kind: PieceType::Pawn })
    } else if r == 7 {
        Some(Piece { color: Color::Black, kind: back_rank_kind(f) })
    } else {
        None
    }
}

/// The standard initial position as a board model.
pub open spec fn initial_board() -> Seq<Option<Piece>> {
    Seq::new(64, |i: int| initial_piece_at(i % 8, i / 8))
}

/// A board with nothing on it.
pub open spec fn empty_board() -> Seq<Option<Piece>> {
    Seq::new(64, |i: int| None)
}

/// No castling permission on either side.
pub open spec fn no_rights() -> CastlingRights {
    CastlingRights {
        white_kingside: false,
        white_queenside: false,
        black_kingside: false,
        black_queenside: false,
    }
}

/// The board that results from placing `ps` one by one onto `b`.
pub open spec fn place_all(b: Seq<Option<Piece>>, ps: Seq<(Square, Piece)>) -> Seq<
    Option<Piece>,
>
    decreases ps.len(),
{
    if ps.len() == 0 {
        b
    } else {
        place_all(b, ps.drop_last()).update(ps.last().0.idx(), Some(ps.last().1))
    }
}

/// Exactly when `apply` on state `g` rejects move `m` with error `e`: each
/// error names the first failed precondition, in the order given in the
/// move applier's contract.
pub open spec fn apply_error_ok(g: GameView, m: Move, e: IllegalMoveError) -> bool {
    match e {
        IllegalMoveError::NoPieceAtSource => piece_at(
            g.board,
            m.from.file as int,
            m.from.rank as int,
        ) is None,
        IllegalMoveError::NotPlayersTurn => piece_at(
            g.board,
            m.from.file as int,
            m.from.rank as int,
        ) matches Some(p) && p.color != g.side_to_move,
        IllegalMoveError::IllegalDestination => is_color_piece(g.board, m.from, g.side_to_move)
            && !legal_dest(g.board, g.castling, g.en_passant_target, m.from, m.to),
        IllegalMoveError::PromotionRequired => {
            &&& is_color_piece(g.board, m.from, g.side_to_move)
            &&& legal_dest(g.board, g.castling, g.en_passant_target, m.from, m.to)
            &&& needs_promotion(piece_at(g.board, m.from.file as int, m.from.rank as int)->0,
                m.to)
            &&& m.promotion is None
        },
        IllegalMoveError::InvalidPromotion => {
            &&& is_color_piece(g.board, m.from, g.side_to_move)
            &&& legal_dest(g.board, g.castling, g.en_passant_target, m.from, m.to)
            &&& m.promotion matches Some(k) && (!needs_promotion(
                piece_at(g.board, m.from.file as int, m.from.rank as int)->0,
                m.to,
            ) || !valid_promotion_kind(k))
        },
        IllegalMoveError::WouldLeaveKingInCheck => false,
    }
}

/// The abstract model of a game state: the full position and its metadata.
#[verifier::ext_equal]
pub struct GameView {
    pub board: Seq<Option<Piece>>,
    pub side_to_move: Color,
    pub castling: CastlingRights,
    pub en_passant_target: Option<Square>,
    pub halfmove_clock: u32,
    pub fullmove_number: u32,
    pub status: Status,
    pub move_history: Seq<Move>,
}

impl GameView {
    /// The position invariant: one slot per square, exactly one king per
    /// color, a coherent en-passant target, and the side that has just
    /// moved not left in check.
    pub open spec fn wf(self) -> bool {
        &&& self.board.len() == 64
        &&& kings_ok(self.board)
        &&& ep_ok(self.board, self.side_to_move, self.en_passant_target)
        &&& !in_check(self.board, self.side_to_move.spec_opposite())
    }

    /// The exact condition under which `apply` accepts a move: a piece of
    /// the side to move stands on the source, the destination is legal for
    /// it, and a promotion piece is named exactly when the move promotes.
    pub open spec fn move_ok(self, m: Move) -> bool {
        let p = piece_at(self.board, m.from.file as int, m.from.rank as int)->0;
        &&& is_color_piece(self.board, m.from, self.side_to_move)
        &&& legal_dest(self.board, self.castling, self.en_passant_target, m.from, m.to)
        &&& if needs_promotion(p, m.to) {
            m.promotion matches Some(k) && valid_promotion_kind(k)
        } else {
            m.promotion is None
        }
    }

    /// The piece left on the destination square: the promotion piece for a
    /// promoting pawn, the moving piece itself otherwise.
    pub open spec fn placed_piece(self, m: Move) -> Piece {
        let p = piece_at(self.board, m.from.file as int, m.from.rank as int)->0;
        if needs_promotion(p, m.to) && (m.promotion matches Some(_)) {
            Piece { color: p.color, kind: m.promotion->0 }
        } else {
            p
        }
    }

    /// The successor state after an accepted move: the board transformed,
    /// permissions and the en-passant target updated, the clocks advanced,
    /// the move recorded, the turn passed, and the status recomputed for
    /// the new side to move.
    pub open spec fn apply_view(self, m: Move) -> GameView {
        let p = piece_at(self.board, m.from.file as int, m.from.rank as int)->0;
        let nb = board_after(self.board, m.from, m.to, self.placed_piece(m),
            self.en_passant_target);
        let ncr = rights_after(self.castling, p, m.from, m.to);
        let nep = ep_after(p, m.from, m.to);
        let nstm = self.side_to_move.spec_opposite();
        GameView {
            board: nb,
            side_to_move: nstm,
            castling: ncr,
            en_passant_target: nep,
            halfmove_clock: if is_capture(self.board, self.en_passant_target, m.from, m.to)
                || p.kind is Pawn {
                0
            } else {
                (self.halfmove_clock + 1) as u32
            },
            fullmove_number: if self.side_to_move is Black {
                (self.fullmove_number + 1) as u32
            } else {
                self.fullmove_number
            },
            status: spec_status(nb, ncr, nep, nstm),
            move_history: self.move_history.push(m),
        }
    }
}

/// An accepted move preserves the position invariant, and the mover's own
/// king is never attacked in the resulting position: self-check is
/// impossible after a commit.
pub proof fn lemma_apply_preserves_wf(g: GameView, m: Move)
    requires
        g.wf(),
        g.move_ok(m),
    ensures
        g.apply_view(m).wf(),
        !in_check(g.apply_view(m).board, g.side_to_move),
{
    let b = g.board;
    let stm = g.side_to_move;
    let opp = stm.spec_opposite();
    let from = m.from;
    let to = m.to;
    let ep = g.en_passant_target;
    let cr = g.castling;
    let p = piece_at(b, from.file as int, from.rank as int)->0;
    let placed = g.placed_piece(m);
    let nb = board_after(b, from, to, placed, ep);
    let simb = board_after(b, from, to, p, ep);
    let f0 = from.file as int;
    let r0 = from.rank as int;
    let f1 = to.file as int;
    let r1 = to.rank as int;
    let fi = from.idx();
    let ti = to.idx();

    assert(pseudo_dest(b, cr, ep, from, to));
    assert(stm.spec_opposite().spec_opposite() == stm);
    assert(!(f0 == f1 && r0 == r1));
    assert(fi != ti);

    // The destination never holds the enemy king: the movement pattern of a
    // capture is an attack pattern, and an attacked enemy king would mean
    // the side that has already moved stood in check.
    assert(piece_at(b, f1, r1) != Some(spec_king(opp))) by {
        if piece_at(b, f1, r1) == Some(spec_king(opp)) {
            assert(attack_pattern(b, p, f0, r0, f1, r1));
            assert(attacks_from(b, f0, r0, f1, r1, stm));
            assert(is_attacked(b, f1, r1, stm));
            assert(in_check(b, opp));
        }
    }

    // Name the intermediate boards of the transformation.
    let epcap = p.kind is Pawn && (ep matches Some(t) && t == to) && from.file != to.file;
    let castle = p.kind is King && abs(f1 - f0) == 2;
    let b1 = b.update(fi, None);
    let b2 = if epcap {
        b1.update(from.rank * 8 + to.file, None)
    } else {
        b1
    };
    let b3 = if castle {
        if to.file == 6 {
            b2.update(from.rank * 8 + 7, None).update(
                from.rank * 8 + 5,
                piece_at(b2, 7, from.rank as int),
            )
        } else {
            b2.update(from.rank * 8 + 0, None).update(
                from.rank * 8 + 3,
                piece_at(b2, 0, from.rank as int),
            )
        }
    } else {
        b2
    };
    assert(nb == b3.update(ti, Some(placed)));
    assert(simb == b3.update(ti, Some(p)));

    // King counts through each update.
    lemma_king_count_update(b, fi, None, Color::White);
    lemma_king_count_update(b, fi, None, Color::Black);
    if epcap {
        let ei = from.rank * 8 + to.file;
        let pusher = stm.spec_opposite();
        assert(r0 == to.rank + pawn_dir(pusher));
        assert(b1[ei] == b[ei]);
        assert(b[ei] == Some(Piece { color: pusher, kind: PieceType::Pawn }));
        lemma_king_count_update(b1, ei, None, Color::White);
        lemma_king_count_update(b1, ei, None, Color::Black);
    }
    if castle {
        assert(crate::rules::castle_dest(b, cr, p.color, f0, r0, f1, r1));
        let home = crate::rules::home_rank(p.color);
        assert(r0 == home);
        if to.file == 6 {
            let ci = from.rank * 8 + 7;
            let ri = from.rank * 8 + 5;
            assert(b2[ci] == b[ci]);
            assert(b2[ci] == Some(Piece { color: p.color, kind: PieceType::Rook }));
            assert(b2[ri] == b[ri] && b[ri] is None);
            lemma_king_count_update(b2, ci, None, Color::White);
            lemma_king_count_update(b2, ci, None, Color::Black);
            lemma_king_count_update(b2.update(ci, None), ri, piece_at(b2, 7, r0), Color::White);
            lemma_king_count_update(b2.update(ci, None), ri, piece_at(b2, 7, r0), Color::Black);
        } else {
            assert(to.file == 2);
            let ci = from.rank * 8 + 0;
            let ri = from.rank * 8 + 3;
            assert(b2[ci] == b[ci]);
            assert(b2[ci] == Some(Piece { color: p.color, kind: PieceType::Rook }));
            assert(b2[ri] == b[ri] && b[ri] is None);
            lemma_king_count_update(b2, ci, None, Color::White);
            lemma_king_count_update(b2, ci, None, Color::Black);
            lemma_king_count_update(b2.update(ci, None), ri, piece_at(b2, 0, r0), Color::White);
            lemma_king_count_update(b2.update(ci, None), ri, piece_at(b2, 0, r0), Color::Black);
        }
    }
    assert(b3[ti] == b[ti]);
    lemma_king_count_update(b3, ti, Some(placed), Color::White);
    lemma_king_count_update(b3, ti, Some(placed), Color::Black);
    assert(kings_ok(nb));

    // Coherence of a fresh en-passant target.
    let nep = ep_after(p, from, to);
    if nep is Some {
        let d = pawn_dir(stm);
        assert(p.kind is Pawn);
        assert(f1 == f0 && r1 == r0 + 2 * d && piece_at(b, f0, r0 + d) is None);
        let t2 = nep->0;
        assert(t2.file == from.file && t2.rank as int == r0 + d);
        assert(nb[t2.rank * 8 + t2.file] == b[t2.rank * 8 + t2.file]);
        assert(piece_at(nb, t2.file as int, t2.rank as int) is None);
        assert(!needs_promotion(p, to));
        assert(placed == p);
        assert(piece_at(nb, t2.file as int, t2.rank + pawn_dir(stm)) == Some(
            Piece { color: stm, kind: PieceType::Pawn },
        ));
    }
    assert(ep_ok(nb, opp, nep));

    // The mover's king is not attacked afterwards; a promotion changes only
    // the kind of the placed piece, which never changes whether its own
    // side stands in check.
    assert(!in_check(simb, stm));
    if placed == p {
        assert(nb == simb);
    } else {
        assert(!(p.kind is King) && !(placed.kind is King) && placed.color == p.color);
        assert(piece_at(simb, f1, r1) == Some(p));
        assert(piece_at(nb, f1, r1) == Some(placed));
        assert(forall|ff: int, rr: int|
            !(ff == f1 && rr == r1) ==> #[trigger] piece_at(simb, ff, rr) == #[trigger] piece_at(
                nb,
                ff,
                rr,
            ));
        lemma_check_same_shape(simb, nb, stm, f1, r1);
    }
    assert(!in_check(nb, stm));
}

/// The canonical game state. It is mutated only through `apply`; everything
/// else is a read-only query.
#[derive(Debug)]
pub struct GameState {
    board: Board,
    side_to_move: Color,
    castling: CastlingRights,
    en_passant_target: Option<Square>,
    halfmove_clock: u32,
    fullmove_number: u32,
    status: Status,
    move_history: Vec<Move>,
}

impl View for GameState {
    type V = GameView;

    closed spec fn view(&self) -> GameView {
        GameView {
            board: self.board@,
            side_to_move: self.side_to_move,
            castling: self.castling,
            en_passant_target: self.en_passant_target,
            halfmove_clock: self.halfmove_clock,
            fullmove_number: self.fullmove_number,
            status: self.status,
            move_history: self.move_history@,
        }
    }
}

impl GameState {
    /// The position invariant, lifted from the model.
    pub open spec fn wf(self) -> bool {
        self@.wf()
    }

    /// The occupant of square `s`.
    pub fn piece_on(&self, s: Square) -> (p: Option<Piece>)
        requires
            self.wf(),
            s.valid(),
        ensures
            p == piece_at(self@.board, s.file as int, s.rank as int),
    {
        self.board.get(s)
    }

    /// Whose turn it is.
    pub fn side_to_move(&self) -> (c: Color)
        ensures
            c == self@.side_to_move,
    {
        self.side_to_move
    }

    /// Where the game stands.
    pub fn status(&self) -> (st: Status)
        ensures
            st == self@.status,
    {
        self.status
    }

    /// The current castling permissions.
    pub fn castling_rights(&self) -> (cr: CastlingRights)
        ensures
            cr == self@.castling,
    {
        self.castling
    }

    /// The current en-passant target, if any.
    pub fn en_passant_target(&self) -> (t: Option<Square>)
        ensures
            t == self@.en_passant_target,
    {
        self.en_passant_target
    }

    /// Plies since the last capture or pawn move.
    pub fn halfmove_clock(&self) -> (n: u32)
        ensures
            n == self@.halfmove_clock,
    {
        self.halfmove_clock
    }

    /// The full-move number, starting at 1 and advanced after Black moves.
    pub fn fullmove_number(&self) -> (n: u32)
        ensures
            n == self@.fullmove_number,
    {
        self.fullmove_number
    }

    /// Every move applied so far, oldest first.
    pub fn move_history(&self) -> (h: &Vec<Move>)
        ensures
            h@ == self@.move_history,
    {
        &self.move_history
    }

    /// A game in the standard initial position, White to move.
    pub fn new() -> (g: GameState)
        ensures
            g.wf(),
            g@.board == initial_board(),
            g@.side_to_move is White,
            g@.castling.white_kingside && g@.castling.white_queenside
                && g@.castling.black_kingside && g@.castling.black_queenside,
            g@.en_passant_target is None,
            g@.halfmove_clock == 0,
            g@.fullmove_number == 1,
            g@.move_history == Seq::<Move>::empty(),
            g@.status == spec_status(initial_board(), g@.castling, None::<Square>, Color::White),
            g@.status is InProgress,
    {
        let mut board = Board::empty();
        let mut i: u8 = 0;
        while i < 64
            invariant
                board.wf(),
                i <= 64,
                forall|j: int| 0 <= j < i ==> board@[j] == initial_piece_at(j % 8, j / 8),
            decreases 64 - i,
        {
            let f = i % 8;
            let r = i / 8;
            let p = initial_piece_exec(f, r);
            board.set(Square { file: f, rank: r }, p);
            proof {
                assert(r as int * 8 + f as int == i as int);
            }
            i = i + 1;
        }
        proof {
            assert(board@ =~= initial_board());
            lemma_initial_invariant();
        }
        let castling = CastlingRights::initial();
        proof {
            lemma_initial_in_progress(castling);
        }
        let status = compute_status(&board, castling, None, Color::White);
        GameState {
            board,
            side_to_move: Color::White,
            castling,
            en_passant_target: None,
            halfmove_clock: 0,
            fullmove_number: 1,
            status,
            move_history: Vec::new(),
        }
    }

    /// A game built from an explicit placement, side `side_to_move` to
    /// move, with no castling permissions, no en-passant target, fresh
    /// clocks and an empty history. Yields `None` when a square is off the
    /// board, a color does not have exactly one king, or the side not to
    /// move is in check.
    pub fn from_pieces(pieces: &Vec<(Square, Piece)>, side_to_move: Color) -> (r: Option<
        GameState,
    >)
        ensures
            match r {
                Some(g) => {
                    &&& forall|i: int| 0 <= i < pieces@.len() ==> (#[trigger] pieces@[i]).0.valid()
                    &&& g.wf()
                    &&& g@.board == place_all(empty_board(), pieces@)
                    &&& g@.side_to_move == side_to_move
                    &&& g@.castling == no_rights()
                    &&& g@.en_passant_target is None
                    &&& g@.halfmove_clock == 0
                    &&& g@.fullmove_number == 1
                    &&& g@.move_history == Seq::<Move>::empty()
                    &&& g@.status == spec_status(g@.board, no_rights(), None::<Square>,
                        side_to_move)
                },
                None => !({
                    &&& forall|i: int| 0 <= i < pieces@.len() ==> (#[trigger] pieces@[i]).0.valid()
                    &&& kings_ok(place_all(empty_board(), pieces@))
                    &&& !in_check(
                        place_all(empty_board(), pieces@),
                        side_to_move.spec_opposite(),
                    )
                }),
            },
    {
        let mut board = Board::empty();
        proof {
            assert(board@ =~= empty_board());
        }
        let mut i: usize = 0;
        while i < pieces.len()
            invariant
                board.wf(),
                i <= pieces@.len(),
                board@ == place_all(empty_board(), pieces@.take(i as int)),
                forall|j: int| 0 <= j < i ==> (#[trigger] pieces@[j]).0.valid(),
            decreases pieces@.len() - i,
        {
            let pair = pieces[i];
            let s = pair.0;
            let p = pair.1;
            if !(s.file < 8 && s.rank < 8) {
                return None;
            }
            board.set(s, Some(p));
            proof {
                assert(pieces@.take(i as int + 1).drop_last() =~= pieces@.take(i as int));
                assert(pieces@.take(i as int + 1).last() == pieces@[i as int]);
            }
            i = i + 1;
        }
        proof {
            assert(pieces@.take(pieces@.len() as int) =~= pieces@);
        }
        if count_kings(&board, Color::White) != 1 {
            return None;
        }
        if count_kings(&board, Color::Black) != 1 {
            return None;
        }
        if crate::rules::color_in_check(&board, side_to_move.opposite()) {
            return None;
        }
        let castling = CastlingRights {
            white_kingside: false,
            white_queenside: false,
            black_kingside: false,
            black_queenside: false,
        };
        let status = compute_status(&board, castling, None, side_to_move);
        Some(
            GameState {
                board,
                side_to_move,
                castling,
                en_passant_target: None,
                halfmove_clock: 0,
                fullmove_number: 1,
                status,
                move_history: Vec::new(),
            },
        )
    }

    /// Validates and commits one move. On success the position, metadata
    /// and status are updated as `apply_view` describes and the resulting
    /// status is returned; on failure the position is unchanged and the
    /// error names the first reason, in the order: no piece on the source,
    /// not that player's turn, an illegal destination, then a missing or
    /// ill-formed promotion.
    pub fn apply(&mut self, m: Move) -> (r: Result<Status, IllegalMoveError>)
        requires
            old(self).wf(),
            m.from.valid(),
            m.to.valid(),
            old(self)@.halfmove_clock < u32::MAX,
            old(self)@.fullmove_number < u32::MAX,
        ensures
            r is Ok <==> old(self)@.move_ok(m),
            match r {
                Ok(st) => {
                    &&& final(self)@ == old(self)@.apply_view(m)
                    &&& final(self).wf()
                    &&& st == final(self)@.status
                    &&& final(self)@.side_to_move == old(self)@.side_to_move.spec_opposite()
                    &&& !in_check(final(self)@.board, old(self)@.side_to_move)
                },
                Err(e) => {
                    &&& *final(self) == *old(self)
                    &&& apply_error_ok(old(self)@, m, e)
                },
            },
    {
        let p = match self.board.get(m.from) {
            None => {
                return Err(IllegalMoveError::NoPieceAtSource);
            },
            Some(p) => p,
        };
        if !(p.color == self.side_to_move) {
            return Err(IllegalMoveError::NotPlayersTurn);
        }
        if !crate::rules::is_legal_dest(
            &self.board,
            self.castling,
            self.en_passant_target,
            m.from,
            m.to,
        ) {
            return Err(IllegalMoveError::IllegalDestination);
        }
        let needs_promo = matches!(p.kind, PieceType::Pawn) && m.to.rank == (match p.color {
            Color::White => 7,
            Color::Black => 0,
        });
        let placed: Piece = match m.promotion {
            None => {
                if needs_promo {
                    return Err(IllegalMoveError::PromotionRequired);
                }
                p
            },
            Some(k) => {
                if !needs_promo {
                    return Err(IllegalMoveError::InvalidPromotion);
                }
                if !(matches!(k, PieceType::Knight) || matches!(k, PieceType::Bishop) || matches!(
                    k,
                    PieceType::Rook,
                ) || matches!(k, PieceType::Queen)) {
                    return Err(IllegalMoveError::InvalidPromotion);
                }
                Piece { color: p.color, kind: k }
            },
        };
        proof {
            assert(old(self)@.move_ok(m));
            assert(placed == old(self)@.placed_piece(m));
            lemma_apply_preserves_wf(old(self)@, m);
        }
        let capture = self.board.get(m.to).is_some() || (matches!(p.kind, PieceType::Pawn)
            && m.from.file != m.to.file && (match self.en_passant_target {
            Some(t) => t.file == m.to.file && t.rank == m.to.rank,
            None => false,
        }));
        crate::rules::apply_move_board(
            &mut self.board,
            m.from,
            m.to,
            placed,
            self.en_passant_target,
        );
        let king_white = matches!(p.kind, PieceType::King) && matches!(p.color, Color::White);
        let king_black = matches!(p.kind, PieceType::King) && matches!(p.color, Color::Black);
        let t_wk = (m.from.file == 7 && m.from.rank == 0) || (m.to.file == 7 && m.to.rank == 0);
        let t_wq = (m.from.file == 0 && m.from.rank == 0) || (m.to.file == 0 && m.to.rank == 0);
        let t_bk = (m.from.file == 7 && m.from.rank == 7) || (m.to.file == 7 && m.to.rank == 7);
        let t_bq = (m.from.file == 0 && m.from.rank == 7) || (m.to.file == 0 && m.to.rank == 7);
        self.castling = CastlingRights {
            white_kingside: self.castling.white_kingside && !king_white && !t_wk,
            white_queenside: self.castling.white_queenside && !king_white && !t_wq,
            black_kingside: self.castling.black_kingside && !king_black && !t_bk,
            black_queenside: self.castling.black_queenside && !king_black && !t_bq,
        };
        self.en_passant_target = if matches!(p.kind, PieceType::Pawn) && (m.to.rank == m.from.rank
            + 2 || m.from.rank == m.to.rank + 2) {
            Some(Square { file: m.from.file, rank: (m.from.rank + m.to.rank) / 2 })
        } else {
            None
        };
        self.halfmove_clock = if capture || matches!(p.kind, PieceType::Pawn) {
            0
        } else {
            self.halfmove_clock + 1
        };
        if matches!(self.side_to_move, Color::Black) {
            self.fullmove_number = self.fullmove_number + 1;
        }
        self.move_history.push(m);
        self.side_to_move = self.side_to_move.opposite();
        let st = compute_status(
            &self.board,
            self.castling,
            self.en_passant_target,
            self.side_to_move,
        );
        self.status = st;
        proof {
            assert(self@ =~= old(self)@.apply_view(m));
        }
        Ok(st)
    }

    /// Every legal destination for the piece on `from`, in increasing
    /// square order; empty when `from` is unoccupied. The query ignores
    /// whose turn it is: turn enforcement happens only in `apply`.
    pub fn legal_moves(&self, from: Square) -> (dests: Vec<Square>)
        requires
            self.wf(),
            from.valid(),
        ensures
            forall|i: int|
                0 <= i < dests@.len() ==> (#[trigger] dests@[i]).valid() && legal_dest(
                    self@.board,
                    self@.castling,
                    self@.en_passant_target,
                    from,
                    dests@[i],
                ),
            forall|to: Square|
                legal_dest(self@.board, self@.castling, self@.en_passant_target, from, to)
                    ==> dests@.contains(to),
            forall|i: int, j: int| 0 <= i < j < dests@.len() ==> dests@[i].idx() < dests@[j].idx(),
    {
        let mut dests: Vec<Square> = Vec::new();
        let mut i: u8 = 0;
        while i < 64
            invariant
                self.wf(),
                from.valid(),
                i <= 64,
                forall|k: int|
                    0 <= k < dests@.len() ==> (#[trigger] dests@[k]).valid() && dests@[k].idx()
                        < i && legal_dest(
                        self@.board,
                        self@.castling,
                        self@.en_passant_target,
                        from,
                        dests@[k],
                    ),
                forall|to: Square|
                    to.valid() && to.idx() < i && legal_dest(
                        self@.board,
                        self@.castling,
                        self@.en_passant_target,
                        from,
                        to,
                    ) ==> dests@.contains(to),
                forall|k: int, j: int|
                    0 <= k < j < dests@.len() ==> dests@[k].idx() < dests@[j].idx(),
            decreases 64 - i,
        {
            let to = Square { file: i % 8, rank: i / 8 };
            if crate::rules::is_legal_dest(
                &self.board,
                self.castling,
                self.en_passant_target,
                from,
                to,
            ) {
                let ghost old_dests = dests@;
                dests.push(to);
                proof {
                    assert(dests@.last() == to);
                    assert forall|t: Square| old_dests.contains(t) implies dests@.contains(
                        t,
                    ) by {
                        let k = choose|k: int| 0 <= k < old_dests.len() && old_dests[k] == t;
                        assert(dests@[k] == t);
                    }
                }
            }
            proof {
                assert forall|to2: Square|
                    to2.valid() && to2.idx() < i + 1 && legal_dest(
                        self@.board,
                        self@.castling,
                        self@.en_passant_target,
                        from,
                        to2,
                    ) implies dests@.contains(to2) by {
                    if to2.idx() == i {
                        assert(to2 == to);
                        assert(dests@.last() == to);
                    }
                }
            }
            i = i + 1;
        }
        proof {
            assert forall|to: Square|
                legal_dest(
                    self@.board,
                    self@.castling,
                    self@.en_passant_target,
                    from,
                    to,
                ) implies dests@.contains(to) by {
                assert(pseudo_dest(
                    self@.board,
                    self@.castling,
                    self@.en_passant_target,
                    from,
                    to,
                ));
            }
        }
        dests
    }
}

/// Whether the piece on `from` has at least one legal destination.
fn square_has_legal_exec(
    board: &Board,
    cr: CastlingRights,
    ep: Option<Square>,
    from: Square,
) -> (res: bool)
    requires
        board.wf(),
        from.valid(),
    ensures
        res == square_has_legal(board@, cr, ep, from),
{
    let mut i: u8 = 0;
    while i < 64
        invariant
            board.wf(),
            from.valid(),
            i <= 64,
            forall|to: Square|
                to.valid() && to.idx() < i ==> !#[trigger] legal_dest(board@, cr, ep, from, to),
        decreases 64 - i,
    {
        let to = Square { file: i % 8, rank: i / 8 };
        if crate::rules::is_legal_dest(board, cr, ep, from, to) {
            return true;
        }
        proof {
            assert forall|to2: Square| to2.valid() && to2.idx() < i + 1 implies !legal_dest(
                board@,
                cr,
                ep,
                from,
                to2,
            ) by {
                if to2.idx() == i {
                    assert(to2 == to);
                }
            }
        }
        i = i + 1;
    }
    proof {
        assert forall|to: Square| !legal_dest(board@, cr, ep, from, to) by {
            if legal_dest(board@, cr, ep, from, to) {
                assert(pseudo_dest(board@, cr, ep, from, to));
            }
        }
    }
    false
}

/// Whether side `c` has any legal move anywhere on the board.
fn has_legal_side(board: &Board, cr: CastlingRights, ep: Option<Square>, c: Color) -> (res: bool)
    requires
        board.wf(),
    ensures
        res == has_any_legal_move(board@, cr, ep, c),
{
    let mut i: u8 = 0;
    while i < 64
        invariant
            board.wf(),
            i <= 64,
            forall|from: Square|
                from.valid() && from.idx() < i ==> !(is_color_piece(board@, from, c)
                    && #[trigger] square_has_legal(board@, cr, ep, from)),
        decreases 64 - i,
    {
        let from = Square { file: i % 8, rank: i / 8 };
        let mut occupied_by_c = false;
        if let Some(p) = board.get(from) {
            if p.color == c {
                occupied_by_c = true;
            }
        }
        if occupied_by_c {
            if square_has_legal_exec(board, cr, ep, from) {
                return true;
            }
        }
        proof {
            assert forall|from2: Square| from2.valid() && from2.idx() < i + 1 implies !(
            is_color_piece(board@, from2, c) && square_has_legal(board@, cr, ep, from2)) by {
                if from2.idx() == i {
                    assert(from2 == from);
                }
            }
        }
        i = i + 1;
    }
    false
}

/// The status of the position with side `c` to move.
fn compute_status(board: &Board, cr: CastlingRights, ep: Option<Square>, c: Color) -> (st:
    Status)
    requires
        board.wf(),
    ensures
        st == spec_status(board@, cr, ep, c),
{
    let any = has_legal_side(board, cr, ep, c);
    let checked = crate::rules::color_in_check(board, c);
    if any {
        if checked {
            Status::Check
        } else {
            Status::InProgress
        }
    } else {
        if checked {
            Status::Checkmate
        } else {
            Status::Stalemate
        }
    }
}

/// The piece kind on the back rank's file `f` at the start of a game.
fn back_rank_exec(f: u8) -> (k: PieceType)
    requires
        f < 8,
    ensures
        k == back_rank_kind(f as int),
{
    if f == 0 || f == 7 {
        PieceType::Rook
    } else if f == 1 || f == 6 {
        PieceType::Knight
    } else if f == 2 || f == 5 {
        PieceType::Bishop
    } else if f == 3 {
        PieceType::Queen
    } else {
        PieceType::King
    }
}

/// The occupant of `(f, r)` in the standard initial position.
fn initial_piece_exec(f: u8, r: u8) -> (p: Option<Piece>)
    requires
        f < 8,
        r < 8,
    ensures
        p == initial_piece_at(f as int, r as int),
{
    if r == 0 {
        Some(Piece { color: Color::White, kind: back_rank_exec(f) })
    } else if r == 1 {
        Some(Piece { color: Color::White, kind: PieceType::Pawn })
    } else if r == 6 {
        Some(Piece { color: Color::Black, kind: PieceType::Pawn })
    } else if r == 7 {
        Some(Piece { color: Color::Black, kind: back_rank_exec(f) })
    } else {
        None
    }
}

/// The initial position holds one king per color, and Black (who is not to
/// move) is not in check.
proof fn lemma_initial_invariant()
    ensures
        initial_board().len() == 64,
        kings_ok(initial_board()),
        !in_check(initial_board(), Color::Black),
{
    let b = initial_board();
    assert(b[4] == Some(spec_king(Color::White)));
    assert(b[60] == Some(spec_king(Color::Black)));
    assert forall|j: int| 0 <= j < 64 && j != 4 implies b[j] != Some(
        spec_king(Color::White),
    ) by {
        assert(j == 8 * (j / 8) + j % 8);
    }
    assert forall|j: int| 0 <= j < 64 && j != 60 implies b[j] != Some(
        spec_king(Color::Black),
    ) by {
        assert(j == 8 * (j / 8) + j % 8);
    }
    lemma_king_count_unique(b, Color::White, 4);
    lemma_king_count_unique(b, Color::Black, 60);
    assert forall|f0: int, r0: int|
        !crate::rules::attacks_from(b, f0, r0, 4, 7, Color::White) by {
        if on_board(f0, r0) {
            let j = r0 * 8 + f0;
            assert(j % 8 == f0 && j / 8 == r0);
        }
    }
    assert(!crate::rules::is_attacked(b, 4, 7, Color::White));
    assert forall|f: int, r: int|
        on_board(f, r) && #[trigger] piece_at(b, f, r) == Some(
            spec_king(Color::Black),
        ) implies f == 4 && r == 7 by {
        let j = r * 8 + f;
        assert(j % 8 == f && j / 8 == r);
    }
}

/// In the standard initial position White is not in check and has a legal
/// move (a knight jump), whatever the castling permissions, so the game
/// starts in progress.
proof fn lemma_initial_in_progress(cr: CastlingRights)
    ensures
        spec_status(initial_board(), cr, None::<Square>, Color::White) == Status::InProgress,
{
    let b = initial_board();
    let from = Square { file: 6, rank: 0 };
    let to = Square { file: 5, rank: 2 };
    let knight = Piece { color: Color::White, kind: PieceType::Knight };
    assert(piece_at(b, 6, 0) == Some(knight));
    assert(piece_at(b, 5, 2) is None);
    let nb = board_after(b, from, to, knight, None);
    assert(nb =~= b.update(6, None).update(21, Some(knight)));
    assert forall|f0: int, r0: int| !attacks_from(nb, f0, r0, 4, 0, Color::Black) by {
        if on_board(f0, r0) {
            let j = r0 * 8 + f0;
            assert(j % 8 == f0 && j / 8 == r0);
        }
    }
    assert(!is_attacked(nb, 4, 0, Color::Black));
    assert forall|f: int, r: int|
        on_board(f, r) && #[trigger] piece_at(nb, f, r) == Some(
            spec_king(Color::White),
        ) implies f == 4 && r == 0 by {
        let j = r * 8 + f;
        assert(j % 8 == f && j / 8 == r);
    }
    assert(!in_check(nb, Color::White));
    assert(pseudo_dest(b, cr, None::<Square>, from, to));
    assert(legal_dest(b, cr, None::<Square>, from, to));
    assert(square_has_legal(b, cr, None::<Square>, from));
    assert(has_any_legal_move(b, cr, None::<Square>, Color::White));
    assert forall|f0: int, r0: int| !attacks_from(b, f0, r0, 4, 0, Color::Black) by {
        if on_board(f0, r0) {
            let j = r0 * 8 + f0;
            assert(j % 8 == f0 && j / 8 == r0);
        }
    }
    assert(!is_attacked(b, 4, 0, Color::Black));
    assert forall|f: int, r: int|
        on_board(f, r) && #[trigger] piece_at(b, f, r) == Some(
            spec_king(Color::White),
        ) implies f == 4 && r == 0 by {
        let j = r * 8 + f;
        assert(j % 8 == f && j / 8 == r);
    }
    assert(!in_check(b, Color::White));
}

/// How many kings of color `c` stand on the board.
fn count_kings(board: &Board, c: Color) -> (n: u8)
    requires
        board.wf(),
    ensures
        n as int == king_count(board@, c),
{
    let mut n: u8 = 0;
    let mut i: u8 = 0;
    while i < 64
        invariant
            board.wf(),
            i <= 64,
            n <= i,
            n as int == king_count(board@.take(i as int), c),
        decreases 64 - i,
    {
        let p = board.get_index(i);
        proof {
            assert(board@.take(i as int + 1).drop_last() =~= board@.take(i as int));
            assert(board@.take(i as int + 1).last() == board@[i as int]);
        }
        if let Some(q) = p {
            if q.color == c && matches!(q.kind, PieceType::King) {
                assert(q == spec_king(c));
                n = n + 1;
            }
        }
        i = i + 1;
    }
    proof {
        assert(board@.take(64) =~= board@);
    }
    n
}

} // verus!
