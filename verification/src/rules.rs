//! Movement geometry and attack detection: piece-specific movement patterns,
//! sliding along clear paths, and whether a square or a king is attacked.

use vstd::prelude::*;

use crate::board::{on_board, piece_at, Board, CastlingRights};
use crate::piece::{Color, Piece, PieceType};
use crate::square::Square;

verus! {

/// The absolute value of an integer.
pub open spec fn abs(x: int) -> int {
    if x < 0 {
        -x
    } else {
        x
    }
}

/// The sign of an integer: -1, 0 or 1.
pub open spec fn sign(x: int) -> int {
    if x > 0 {
        1
    } else if x < 0 {
        -1
    } else {
        0
    }
}

/// A knight's jump: one of the eight L-shaped offsets.
pub open spec fn knight_jump(f0: int, r0: int, f1: int, r1: int) -> bool {
    (abs(f1 - f0) == 1 && abs(r1 - r0) == 2) || (abs(f1 - f0) == 2 && abs(r1 - r0) == 1)
}

/// A king's step: one of the eight adjacent squares.
pub open spec fn king_step(f0: int, r0: int, f1: int, r1: int) -> bool {
    abs(f1 - f0) <= 1 && abs(r1 - r0) <= 1 && !(f0 == f1 && r0 == r1)
}

/// Two distinct squares on a common rank or file.
pub open spec fn rook_line(f0: int, r0: int, f1: int, r1: int) -> bool {
    (f0 == f1 || r0 == r1) && !(f0 == f1 && r0 == r1)
}

/// Two distinct squares on a common diagonal.
pub open spec fn bishop_line(f0: int, r0: int, f1: int, r1: int) -> bool {
    abs(f1 - f0) == abs(r1 - r0) && f0 != f1
}

/// The number of king steps between two collinear squares.
pub open spec fn line_len(f0: int, r0: int, f1: int, r1: int) -> int {
    if abs(f1 - f0) >= abs(r1 - r0) {
        abs(f1 - f0)
    } else {
        abs(r1 - r0)
    }
}

/// Starting at `(f, r)`, the next `n - 1` squares in direction `(sf, sr)`
/// are all empty.
pub open spec fn clear_walk(
    b: Seq<Option<Piece>>,
    f: int,
    r: int,
    sf: int,
    sr: int,
    n: int,
) -> bool
    decreases n,
{
    n <= 1 || (piece_at(b, f + sf, r + sr) is None && clear_walk(
        b,
        f + sf,
        r + sr,
        sf,
        sr,
        n - 1,
    ))
}

/// All squares strictly between the collinear squares `(f0, r0)` and
/// `(f1, r1)` are empty.
pub open spec fn path_clear(b: Seq<Option<Piece>>, f0: int, r0: int, f1: int, r1: int) -> bool {
    clear_walk(b, f0, r0, sign(f1 - f0), sign(r1 - r0), line_len(f0, r0, f1, r1))
}

/// The direction a pawn of color `c` advances in: White up the ranks,
/// Black down.
pub open spec fn pawn_dir(c: Color) -> int {
    if c is White {
        1
    } else {
        -1
    }
}

/// The rank a pawn of color `c` starts on.
pub open spec fn pawn_start_rank(c: Color) -> int {
    if c is White {
        1
    } else {
        6
    }
}

/// The rank on which a pawn of color `c` promotes.
pub open spec fn last_rank(c: Color) -> int {
    if c is White {
        7
    } else {
        0
    }
}

/// A pawn's capture pattern: one square diagonally forward.
pub open spec fn pawn_attack(c: Color, f0: int, r0: int, f1: int, r1: int) -> bool {
    abs(f1 - f0) == 1 && r1 == r0 + pawn_dir(c)
}

/// Piece `p` standing on `(f0, r0)` attacks `(f1, r1)`: its capture pattern
/// reaches that square (pawns use their diagonal pattern, sliders need a
/// clear path; what occupies the target square is irrelevant).
pub open spec fn attack_pattern(
    b: Seq<Option<Piece>>,
    p: Piece,
    f0: int,
    r0: int,
    f1: int,
    r1: int,
) -> bool {
    match p.kind {
        PieceType::Pawn => pawn_attack(p.color, f0, r0, f1, r1),
        PieceType::Knight => knight_jump(f0, r0, f1, r1),
        PieceType::Bishop => bishop_line(f0, r0, f1, r1) && path_clear(b, f0, r0, f1, r1),
        PieceType::Rook => rook_line(f0, r0, f1, r1) && path_clear(b, f0, r0, f1, r1),
        PieceType::Queen => (rook_line(f0, r0, f1, r1) || bishop_line(f0, r0, f1, r1))
            && path_clear(b, f0, r0, f1, r1),
        PieceType::King => king_step(f0, r0, f1, r1),
    }
}

/// A piece of color `by` stands on `(f0, r0)` and attacks `(f1, r1)`.
pub open spec fn attacks_from(
    b: Seq<Option<Piece>>,
    f0: int,
    r0: int,
    f1: int,
    r1: int,
    by: Color,
) -> bool {
    &&& on_board(f0, r0)
    &&& piece_at(b, f0, r0) matches Some(p) && p.color == by && attack_pattern(
        b,
        p,
        f0,
        r0,
        f1,
        r1,
    )
}

/// Some piece of color `by` attacks the square `(f1, r1)`.
pub open spec fn is_attacked(b: Seq<Option<Piece>>, f1: int, r1: int, by: Color) -> bool {
    exists|f0: int, r0: int| attacks_from(b, f0, r0, f1, r1, by)
}

/// Some king of color `c` stands on a square attacked by the other side.
pub open spec fn in_check(b: Seq<Option<Piece>>, c: Color) -> bool {
    exists|f: int, r: int|
        {
            &&& on_board(f, r)
            &&& #[trigger] piece_at(b, f, r) == Some(
                Piece { color: c, kind: PieceType::King },
            )
            &&& is_attacked(b, f, r, c.spec_opposite())
        }
}

/// The rank a king of color `c` starts on.
pub open spec fn home_rank(c: Color) -> int {
    if c is White {
        0
    } else {
        7
    }
}

/// The king-side castling permission of color `c`.
pub open spec fn kingside_right(cr: CastlingRights, c: Color) -> bool {
    if c is White {
        cr.white_kingside
    } else {
        cr.black_kingside
    }
}

/// The queen-side castling permission of color `c`.
pub open spec fn queenside_right(cr: CastlingRights, c: Color) -> bool {
    if c is White {
        cr.white_queenside
    } else {
        cr.black_queenside
    }
}

/// A castling destination for the king of color `c` standing on `(f0, r0)`:
/// the permission is still held, the squares between king and rook are
/// empty, the rook is in its corner, and neither the king's start, transit
/// nor destination square is attacked by the other side.
pub open spec fn castle_dest(
    b: Seq<Option<Piece>>,
    cr: CastlingRights,
    c: Color,
    f0: int,
    r0: int,
    f1: int,
    r1: int,
) -> bool {
    let home = home_rank(c);
    let opp = c.spec_opposite();
    &&& f0 == 4 && r0 == home && r1 == home
    &&& !is_attacked(b, 4, home, opp)
    &&& {
        ||| {
            &&& f1 == 6
            &&& kingside_right(cr, c)
            &&& piece_at(b, 5, home) is None
            &&& piece_at(b, 6, home) is None
            &&& piece_at(b, 7, home) == Some(Piece { color: c, kind: PieceType::Rook })
            &&& !is_attacked(b, 5, home, opp)
            &&& !is_attacked(b, 6, home, opp)
        }
        ||| {
            &&& f1 == 2
            &&& queenside_right(cr, c)
            &&& piece_at(b, 1, home) is None
            &&& piece_at(b, 2, home) is None
            &&& piece_at(b, 3, home) is None
            &&& piece_at(b, 0, home) == Some(Piece { color: c, kind: PieceType::Rook })
            &&& !is_attacked(b, 3, home, opp)
            &&& !is_attacked(b, 2, home, opp)
        }
    }
}

/// A pawn destination: one square forward onto an empty square, two squares
/// forward from the start rank across empty squares, or a diagonal capture
/// onto an enemy piece or onto the current en-passant target.
pub open spec fn pawn_dest(
    b: Seq<Option<Piece>>,
    ep: Option<Square>,
    c: Color,
    f0: int,
    r0: int,
    f1: int,
    r1: int,
) -> bool {
    let d = pawn_dir(c);
    ||| (f1 == f0 && r1 == r0 + d && piece_at(b, f1, r1) is None)
    ||| {
        &&& f1 == f0
        &&& r0 == pawn_start_rank(c)
        &&& r1 == r0 + 2 * d
        &&& piece_at(b, f0, r0 + d) is None
        &&& piece_at(b, f1, r1) is None
    }
    ||| (abs(f1 - f0) == 1 && r1 == r0 + d && (piece_at(b, f1, r1) matches Some(q) && q.color
        != c))
    ||| (abs(f1 - f0) == 1 && r1 == r0 + d && (ep matches Some(t) && t.file == f1 && t.rank
        == r1))
}

/// A pseudo-legal destination: the piece on `from` reaches `to` by its
/// movement pattern, not onto a piece of its own color. The move may still
/// leave the mover's own king attacked.
pub open spec fn pseudo_dest(
    b: Seq<Option<Piece>>,
    cr: CastlingRights,
    ep: Option<Square>,
    from: Square,
    to: Square,
) -> bool {
    let f0 = from.file as int;
    let r0 = from.rank as int;
    let f1 = to.file as int;
    let r1 = to.rank as int;
    &&& from.valid()
    &&& to.valid()
    &&& piece_at(b, f0, r0) matches Some(p) && {
        &&& !(piece_at(b, f1, r1) matches Some(q) && q.color == p.color)
        &&& match p.kind {
            PieceType::Pawn => pawn_dest(b, ep, p.color, f0, r0, f1, r1),
            PieceType::Knight => knight_jump(f0, r0, f1, r1),
            PieceType::Bishop => bishop_line(f0, r0, f1, r1) && path_clear(b, f0, r0, f1, r1),
            PieceType::Rook => rook_line(f0, r0, f1, r1) && path_clear(b, f0, r0, f1, r1),
            PieceType::Queen => (rook_line(f0, r0, f1, r1) || bishop_line(f0, r0, f1, r1))
                && path_clear(b, f0, r0, f1, r1),
            PieceType::King => king_step(f0, r0, f1, r1) || castle_dest(
                b,
                cr,
                p.color,
                f0,
                r0,
                f1,
                r1,
            ),
        }
    }
}

/// The board after relocating the piece on `from` to `to` and leaving
/// `placed` there (the moving piece, or its promotion): the source square is
/// cleared, an en-passant capture removes the passed pawn on the source
/// rank, and a two-file king move relocates the corresponding rook.
pub open spec fn board_after(
    b: Seq<Option<Piece>>,
    from: Square,
    to: Square,
    placed: Piece,
    ep: Option<Square>,
) -> Seq<Option<Piece>>
    recommends
        b.len() == 64,
        from.valid(),
        to.valid(),
        piece_at(b, from.file as int, from.rank as int) is Some,
{
    let p = piece_at(b, from.file as int, from.rank as int)->0;
    let b1 = b.update(from.idx(), None);
    let b2 = if p.kind is Pawn && (ep matches Some(t) && t == to) && from.file != to.file {
        b1.update(from.rank * 8 + to.file, None)
    } else {
        b1
    };
    let b3 = if p.kind is King && abs(to.file - from.file) == 2 {
        if to.file == 6 {
            let rook = piece_at(b2, 7, from.rank as int);
            b2.update(from.rank * 8 + 7, None).update(from.rank * 8 + 5, rook)
        } else {
            let rook = piece_at(b2, 0, from.rank as int);
            b2.update(from.rank * 8 + 0, None).update(from.rank * 8 + 3, rook)
        }
    } else {
        b2
    };
    b3.update(to.idx(), Some(placed))
}

/// A legal destination: pseudo-legal, and after the move the mover's own
/// king is not attacked.
pub open spec fn legal_dest(
    b: Seq<Option<Piece>>,
    cr: CastlingRights,
    ep: Option<Square>,
    from: Square,
    to: Square,
) -> bool {
    let p = piece_at(b, from.file as int, from.rank as int)->0;
    &&& pseudo_dest(b, cr, ep, from, to)
    &&& !in_check(board_after(b, from, to, p, ep), p.color)
}

/// Two boards with the same occupancy agree on every clear-walk test.
proof fn lemma_clear_walk_same(
    b1: Seq<Option<Piece>>,
    b2: Seq<Option<Piece>>,
    f: int,
    r: int,
    sf: int,
    sr: int,
    n: int,
)
    requires
        forall|ff: int, rr: int|
            #[trigger] piece_at(b1, ff, rr) is None <==> #[trigger] piece_at(b2, ff, rr)
                is None,
    ensures
        clear_walk(b1, f, r, sf, sr, n) == clear_walk(b2, f, r, sf, sr, n),
    decreases n,
{
    if n > 1 {
        lemma_clear_walk_same(b1, b2, f + sf, r + sr, sf, sr, n - 1);
    }
}

/// Two boards that agree everywhere except one square, where both hold a
/// piece of color `c` and a king only if the same king, agree on whether
/// `c` is in check: the differing piece blocks the same lines, is no
/// attacker of its own color, and the kings of `c` stand unchanged.
pub proof fn lemma_check_same_shape(
    b1: Seq<Option<Piece>>,
    b2: Seq<Option<Piece>>,
    c: Color,
    tf: int,
    tr: int,
)
    requires
        forall|ff: int, rr: int|
            !(ff == tf && rr == tr) ==> #[trigger] piece_at(b1, ff, rr) == #[trigger] piece_at(
                b2,
                ff,
                rr,
            ),
        piece_at(b1, tf, tr) matches Some(p1) && piece_at(b2, tf, tr) matches Some(p2) && {
            &&& p1.color == p2.color
            &&& p1.color == c
            &&& (p1.kind is King <==> p2.kind is King)
            &&& (p1.kind is King ==> p1 == p2)
        },
    ensures
        in_check(b1, c) == in_check(b2, c),
{
    let opp = c.spec_opposite();
    assert forall|ff: int, rr: int|
        #[trigger] piece_at(b1, ff, rr) is None <==> #[trigger] piece_at(b2, ff, rr)
            is None by {}
    assert forall|f0: int, r0: int, f1: int, r1: int|
        #[trigger] attacks_from(b1, f0, r0, f1, r1, opp) == #[trigger] attacks_from(
            b2,
            f0,
            r0,
            f1,
            r1,
            opp,
        ) by {
        assert(clear_walk(
            b1,
            f0,
            r0,
            sign(f1 - f0),
            sign(r1 - r0),
            line_len(f0, r0, f1, r1),
        ) == clear_walk(b2, f0, r0, sign(f1 - f0), sign(r1 - r0), line_len(f0, r0, f1, r1)))
            by {
            lemma_clear_walk_same(
                b1,
                b2,
                f0,
                r0,
                sign(f1 - f0),
                sign(r1 - r0),
                line_len(f0, r0, f1, r1),
            );
        }
    }
    assert forall|f1: int, r1: int|
        #[trigger] is_attacked(b1, f1, r1, opp) == #[trigger] is_attacked(b2, f1, r1, opp) by {
        if is_attacked(b1, f1, r1, opp) {
            let (f0, r0) = choose|f0: int, r0: int| attacks_from(b1, f0, r0, f1, r1, opp);
            assert(attacks_from(b2, f0, r0, f1, r1, opp));
        }
        if is_attacked(b2, f1, r1, opp) {
            let (f0, r0) = choose|f0: int, r0: int| attacks_from(b2, f0, r0, f1, r1, opp);
            assert(attacks_from(b1, f0, r0, f1, r1, opp));
        }
    }
    if in_check(b1, c) {
        let (f, r) = choose|f: int, r: int|
            on_board(f, r) && #[trigger] piece_at(b1, f, r) == Some(
                Piece { color: c, kind: PieceType::King },
            ) && is_attacked(b1, f, r, c.spec_opposite());
        assert(piece_at(b2, f, r) == Some(Piece { color: c, kind: PieceType::King }));
        assert(in_check(b2, c));
    }
    if in_check(b2, c) {
        let (f, r) = choose|f: int, r: int|
            on_board(f, r) && #[trigger] piece_at(b2, f, r) == Some(
                Piece { color: c, kind: PieceType::King },
            ) && is_attacked(b2, f, r, c.spec_opposite());
        assert(piece_at(b1, f, r) == Some(Piece { color: c, kind: PieceType::King }));
        assert(in_check(b1, c));
    }
}

/// Whether every square strictly between two collinear squares is empty.
pub fn path_clear_exec(board: &Board, f0: u8, r0: u8, f1: u8, r1: u8) -> (res: bool)
    requires
        board.wf(),
        f0 < 8,
        r0 < 8,
        f1 < 8,
        r1 < 8,
        rook_line(f0 as int, r0 as int, f1 as int, r1 as int) || bishop_line(
            f0 as int,
            r0 as int,
            f1 as int,
            r1 as int,
        ),
    ensures
        res == path_clear(board@, f0 as int, r0 as int, f1 as int, r1 as int),
{
    let sf: i32 = if f1 > f0 {
        1
    } else if f1 < f0 {
        -1
    } else {
        0
    };
    let sr: i32 = if r1 > r0 {
        1
    } else if r1 < r0 {
        -1
    } else {
        0
    };
    let dfa: i32 = if f1 >= f0 {
        f1 as i32 - f0 as i32
    } else {
        f0 as i32 - f1 as i32
    };
    let dra: i32 = if r1 >= r0 {
        r1 as i32 - r0 as i32
    } else {
        r0 as i32 - r1 as i32
    };
    let mut n: i32 = if dfa >= dra {
        dfa
    } else {
        dra
    };
    let mut f: i32 = f0 as i32;
    let mut r: i32 = r0 as i32;
    while n > 1
        invariant
            board.wf(),
            f0 < 8,
            r0 < 8,
            f1 < 8,
            r1 < 8,
            sf as int == sign(f1 as int - f0 as int),
            sr as int == sign(r1 as int - r0 as int),
            0 <= f < 8,
            0 <= r < 8,
            n >= 0,
            sf == 1 ==> f == f1 as i32 - n,
            sf == -1 ==> f == f1 as i32 + n,
            sf == 0 ==> f == f1 as i32,
            sr == 1 ==> r == r1 as i32 - n,
            sr == -1 ==> r == r1 as i32 + n,
            sr == 0 ==> r == r1 as i32,
            path_clear(board@, f0 as int, r0 as int, f1 as int, r1 as int) == clear_walk(
                board@,
                f as int,
                r as int,
                sf as int,
                sr as int,
                n as int,
            ),
        decreases n,
    {
        let nf: i32 = f + sf;
        let nr: i32 = r + sr;
        if board.get_at(nf as u8, nr as u8).is_some() {
            return false;
        }
        f = nf;
        r = nr;
        n = n - 1;
    }
    true
}

/// Whether piece `p`, standing on `(f0, r0)`, attacks `(f1, r1)`.
pub fn piece_attacks(board: &Board, p: Piece, f0: u8, r0: u8, f1: u8, r1: u8) -> (res: bool)
    requires
        board.wf(),
        f0 < 8,
        r0 < 8,
        f1 < 8,
        r1 < 8,
    ensures
        res == attack_pattern(board@, p, f0 as int, r0 as int, f1 as int, r1 as int),
{
    let df: i32 = f1 as i32 - f0 as i32;
    let dr: i32 = r1 as i32 - r0 as i32;
    let dfa: i32 = if df < 0 {
        -df
    } else {
        df
    };
    let dra: i32 = if dr < 0 {
        -dr
    } else {
        dr
    };
    match p.kind {
        PieceType::Pawn => dfa == 1 && (match p.color {
            Color::White => dr == 1,
            Color::Black => dr == -1,
        }),
        PieceType::Knight => (dfa == 1 && dra == 2) || (dfa == 2 && dra == 1),
        PieceType::King => dfa <= 1 && dra <= 1 && !(df == 0 && dr == 0),
        PieceType::Bishop => dfa == dra && df != 0 && path_clear_exec(board, f0, r0, f1, r1),
        PieceType::Rook => (df == 0 || dr == 0) && !(df == 0 && dr == 0) && path_clear_exec(
            board,
            f0,
            r0,
            f1,
            r1,
        ),
        PieceType::Queen => {
            let on_line = ((df == 0 || dr == 0) && !(df == 0 && dr == 0)) || (dfa == dra && df
                != 0);
            on_line && path_clear_exec(board, f0, r0, f1, r1)
        },
    }
}

/// Whether some piece of color `by` attacks the square `(f1, r1)`.
pub fn square_attacked(board: &Board, f1: u8, r1: u8, by: Color) -> (res: bool)
    requires
        board.wf(),
        f1 < 8,
        r1 < 8,
    ensures
        res == is_attacked(board@, f1 as int, r1 as int, by),
{
    let mut i: u8 = 0;
    while i < 64
        invariant
            board.wf(),
            f1 < 8,
            r1 < 8,
            i <= 64,
            forall|f0: int, r0: int|
                #![trigger attacks_from(board@, f0, r0, f1 as int, r1 as int, by)]
                on_board(f0, r0) && r0 * 8 + f0 < i ==> !attacks_from(
                    board@,
                    f0,
                    r0,
                    f1 as int,
                    r1 as int,
                    by,
                ),
        decreases 64 - i,
    {
        let f0 = i % 8;
        let r0 = i / 8;
        if let Some(p) = board.get_at(f0, r0) {
            if p.color == by {
                if piece_attacks(board, p, f0, r0, f1, r1) {
                    assert(attacks_from(board@, f0 as int, r0 as int, f1 as int, r1 as int, by));
                    return true;
                }
            }
        }
        i = i + 1;
    }
    false
}

/// Whether some king of color `c` stands on a square attacked by the
/// other side.
pub fn color_in_check(board: &Board, c: Color) -> (res: bool)
    requires
        board.wf(),
    ensures
        res == in_check(board@, c),
{
    let mut i: u8 = 0;
    while i < 64
        invariant
            board.wf(),
            i <= 64,
            forall|f: int, r: int|
                on_board(f, r) && r * 8 + f < i ==> !(#[trigger] piece_at(board@, f, r) == Some(
                    Piece { color: c, kind: PieceType::King },
                ) && is_attacked(board@, f, r, c.spec_opposite())),
        decreases 64 - i,
    {
        let f = i % 8;
        let r = i / 8;
        if let Some(p) = board.get_at(f, r) {
            if p.color == c && matches!(p.kind, PieceType::King) {
                if square_attacked(board, f, r, c.opposite()) {
                    assert(piece_at(board@, f as int, r as int) == Some(
                        Piece { color: c, kind: PieceType::King },
                    ));
                    return true;
                }
            }
        }
        i = i + 1;
    }
    false
}

/// Whether `to` is a pseudo-legal destination for the piece on `from`.
pub fn is_pseudo_dest(
    board: &Board,
    cr: CastlingRights,
    ep: Option<Square>,
    from: Square,
    to: Square,
) -> (res: bool)
    requires
        board.wf(),
        from.valid(),
        to.valid(),
    ensures
        res == pseudo_dest(board@, cr, ep, from, to),
{
    let p = match board.get(from) {
        None => {
            return false;
        },
        Some(p) => p,
    };
    if let Some(q) = board.get(to) {
        if q.color == p.color {
            return false;
        }
    }
    let f0: i32 = from.file as i32;
    let r0: i32 = from.rank as i32;
    let f1: i32 = to.file as i32;
    let r1: i32 = to.rank as i32;
    let df: i32 = f1 - f0;
    let dr: i32 = r1 - r0;
    let dfa: i32 = if df < 0 {
        -df
    } else {
        df
    };
    let dra: i32 = if dr < 0 {
        -dr
    } else {
        dr
    };
    match p.kind {
        PieceType::Pawn => {
            let d: i32 = match p.color {
                Color::White => 1,
                Color::Black => -1,
            };
            let start: i32 = match p.color {
                Color::White => 1,
                Color::Black => 6,
            };
            let single = df == 0 && dr == d && board.get(to).is_none();
            let double = df == 0 && r0 == start && dr == 2 * d && board.get_at(
                from.file,
                (r0 + d) as u8,
            ).is_none() && board.get(to).is_none();
            let capture = dfa == 1 && dr == d && (match board.get(to) {
                Some(q) => !(q.color == p.color),
                None => false,
            });
            let ep_capture = dfa == 1 && dr == d && (match ep {
                Some(t) => t.file == to.file && t.rank == to.rank,
                None => false,
            });
            single || double || capture || ep_capture
        },
        PieceType::Knight => (dfa == 1 && dra == 2) || (dfa == 2 && dra == 1),
        PieceType::Bishop => dfa == dra && df != 0 && path_clear_exec(
            board,
            from.file,
            from.rank,
            to.file,
            to.rank,
        ),
        PieceType::Rook => (df == 0 || dr == 0) && !(df == 0 && dr == 0) && path_clear_exec(
            board,
            from.file,
            from.rank,
            to.file,
            to.rank,
        ),
        PieceType::Queen => {
            let on_line = ((df == 0 || dr == 0) && !(df == 0 && dr == 0)) || (dfa == dra && df
                != 0);
            on_line && path_clear_exec(board, from.file, from.rank, to.file, to.rank)
        },
        PieceType::King => {
            if dfa <= 1 && dra <= 1 && !(df == 0 && dr == 0) {
                return true;
            }
            is_castle_dest(board, cr, p.color, from, to)
        },
    }
}

/// Whether `to` is a castling destination for the king of color `c` on
/// `from`.
fn is_castle_dest(board: &Board, cr: CastlingRights, c: Color, from: Square, to: Square) -> (res:
    bool)
    requires
        board.wf(),
        from.valid(),
        to.valid(),
    ensures
        res == castle_dest(
            board@,
            cr,
            c,
            from.file as int,
            from.rank as int,
            to.file as int,
            to.rank as int,
        ),
{
    let home: u8 = match c {
        Color::White => 0,
        Color::Black => 7,
    };
    let opp = c.opposite();
    if !(from.file == 4 && from.rank == home && to.rank == home) {
        return false;
    }
    if square_attacked(board, 4, home, opp) {
        return false;
    }
    let rook = Piece { color: c, kind: PieceType::Rook };
    let kingside = to.file == 6 && (match c {
        Color::White => cr.white_kingside,
        Color::Black => cr.black_kingside,
    }) && board.get_at(5, home).is_none() && board.get_at(6, home).is_none() && (match
        board.get_at(7, home) {
        Some(q) => q == rook,
        None => false,
    }) && !square_attacked(board, 5, home, opp) && !square_attacked(board, 6, home, opp);
    if kingside {
        return true;
    }
    let queenside = to.file == 2 && (match c {
        Color::White => cr.white_queenside,
        Color::Black => cr.black_queenside,
    }) && board.get_at(1, home).is_none() && board.get_at(2, home).is_none() && board.get_at(
        3,
        home,
    ).is_none() && (match board.get_at(0, home) {
        Some(q) => q == rook,
        None => false,
    }) && !square_attacked(board, 3, home, opp) && !square_attacked(board, 2, home, opp);
    queenside
}

/// Relocates the piece on `from` to `to`, leaving `placed` there, with the
/// en-passant capture and the castling rook relocation applied.
pub fn apply_move_board(
    board: &mut Board,
    from: Square,
    to: Square,
    placed: Piece,
    ep: Option<Square>,
)
    requires
        old(board).wf(),
        from.valid(),
        to.valid(),
        piece_at(old(board)@, from.file as int, from.rank as int) is Some,
    ensures
        final(board).wf(),
        final(board)@ == board_after(old(board)@, from, to, placed, ep),
{
    let p = board.get(from).unwrap();
    board.set(from, None);
    if matches!(p.kind, PieceType::Pawn) {
        if let Some(t) = ep {
            if t.file == to.file && t.rank == to.rank && from.file != to.file {
                board.set(Square { file: to.file, rank: from.rank }, None);
            }
        }
    }
    if matches!(p.kind, PieceType::King) {
        if to.file == from.file + 2 || from.file == to.file + 2 {
            if to.file == 6 {
                let rook = board.get_at(7, from.rank);
                board.set(Square { file: 7, rank: from.rank }, None);
                board.set(Square { file: 5, rank: from.rank }, rook);
            } else {
                let rook = board.get_at(0, from.rank);
                board.set(Square { file: 0, rank: from.rank }, None);
                board.set(Square { file: 3, rank: from.rank }, rook);
            }
        }
    }
    board.set(to, Some(placed));
}

/// Whether `to` is a legal destination for the piece on `from`: pseudo-legal
/// and not leaving the mover's own king attacked.
pub fn is_legal_dest(
    board: &Board,
    cr: CastlingRights,
    ep: Option<Square>,
    from: Square,
    to: Square,
) -> (res: bool)
    requires
        board.wf(),
        from.valid(),
        to.valid(),
    ensures
        res == legal_dest(board@, cr, ep, from, to),
{
    let p = match board.get(from) {
        None => {
            return false;
        },
        Some(p) => p,
    };
    if !is_pseudo_dest(board, cr, ep, from, to) {
        return false;
    }
    let mut scratch = board.duplicate();
    apply_move_board(&mut scratch, from, to, p, ep);
    !color_in_check(&scratch, p.color)
}

} // verus!
