use chessnet::game::{GameState, IllegalMoveError, Move, Status};
use chessnet::piece::{Color, Piece, PieceType};
use chessnet::square::Square;

fn sq(file: u8, rank: u8) -> Square {
    Square { file, rank }
}

fn mv(from: Square, to: Square) -> Move {
    Move { from, to, promotion: None }
}

fn promo(from: Square, to: Square, kind: PieceType) -> Move {
    Move { from, to, promotion: Some(kind) }
}

fn count_all_legal_moves(g: &GameState, color: Color) -> usize {
    let mut n = 0;
    for rank in 0..8u8 {
        for file in 0..8u8 {
            let s = sq(file, rank);
            if let Some(p) = g.piece_on(s) {
                if p.color == color {
                    n += g.legal_moves(s).len();
                }
            }
        }
    }
    n
}

#[test]
fn initial_position_basics() {
    let g = GameState::new();
    assert_eq!(g.side_to_move(), Color::White);
    assert_eq!(g.status(), Status::InProgress);
    assert_eq!(g.halfmove_clock(), 0);
    assert_eq!(g.fullmove_number(), 1);
    assert_eq!(g.en_passant_target(), None);
    assert!(g.move_history().is_empty());
    assert_eq!(
        g.piece_on(sq(4, 0)),
        Some(Piece { color: Color::White, kind: PieceType::King })
    );
    assert_eq!(
        g.piece_on(sq(4, 7)),
        Some(Piece { color: Color::Black, kind: PieceType::King })
    );
    assert_eq!(g.piece_on(sq(3, 3)), None);
}

#[test]
fn initial_position_white_has_twenty_legal_moves() {
    let g = GameState::new();
    assert_eq!(count_all_legal_moves(&g, Color::White), 20);
}

#[test]
fn knight_moves_from_initial_position() {
    let g = GameState::new();
    let dests = g.legal_moves(sq(6, 0));
    assert_eq!(dests, vec![sq(5, 2), sq(7, 2)]);
}

#[test]
fn legal_moves_of_empty_square_is_empty() {
    let g = GameState::new();
    assert!(g.legal_moves(sq(4, 3)).is_empty());
}

#[test]
fn side_to_move_alternates_after_each_applied_move() {
    let mut g = GameState::new();
    assert_eq!(g.side_to_move(), Color::White);
    g.apply(mv(sq(4, 1), sq(4, 3))).unwrap();
    assert_eq!(g.side_to_move(), Color::Black);
    g.apply(mv(sq(4, 6), sq(4, 4))).unwrap();
    assert_eq!(g.side_to_move(), Color::White);
    g.apply(mv(sq(6, 0), sq(5, 2))).unwrap();
    assert_eq!(g.side_to_move(), Color::Black);
}

#[test]
fn double_pawn_advance_then_reply_supersedes_en_passant_target() {
    let mut g = GameState::new();
    g.apply(mv(sq(4, 1), sq(4, 3))).unwrap();
    assert_eq!(g.en_passant_target(), Some(sq(4, 2)));
    g.apply(mv(sq(4, 6), sq(4, 4))).unwrap();
    assert_eq!(g.side_to_move(), Color::White);
    assert_eq!(g.halfmove_clock(), 0);
    assert_ne!(g.en_passant_target(), Some(sq(4, 2)));
    assert_eq!(g.en_passant_target(), Some(sq(4, 5)));
    assert_eq!(g.move_history().len(), 2);
    let mut h = GameState::new();
    h.apply(mv(sq(4, 1), sq(4, 3))).unwrap();
    h.apply(mv(sq(1, 7), sq(2, 5))).unwrap();
    assert_eq!(h.en_passant_target(), None);
}

#[test]
fn en_passant_capture_removes_the_passed_pawn() {
    let mut g = GameState::new();
    g.apply(mv(sq(4, 1), sq(4, 3))).unwrap();
    g.apply(mv(sq(0, 6), sq(0, 5))).unwrap();
    g.apply(mv(sq(4, 3), sq(4, 4))).unwrap();
    g.apply(mv(sq(3, 6), sq(3, 4))).unwrap();
    assert_eq!(g.en_passant_target(), Some(sq(3, 5)));
    assert_eq!(g.piece_on(sq(3, 5)), None);
    g.apply(mv(sq(4, 4), sq(3, 5))).unwrap();
    assert_eq!(
        g.piece_on(sq(3, 5)),
        Some(Piece { color: Color::White, kind: PieceType::Pawn })
    );
    assert_eq!(g.piece_on(sq(3, 4)), None);
    assert_eq!(g.piece_on(sq(4, 4)), None);
    assert_eq!(g.halfmove_clock(), 0);
}

#[test]
fn en_passant_eligibility_lasts_exactly_one_ply() {
    let mut g = GameState::new();
    g.apply(mv(sq(4, 1), sq(4, 3))).unwrap();
    g.apply(mv(sq(0, 6), sq(0, 5))).unwrap();
    g.apply(mv(sq(4, 3), sq(4, 4))).unwrap();
    g.apply(mv(sq(3, 6), sq(3, 4))).unwrap();
    g.apply(mv(sq(6, 0), sq(5, 2))).unwrap();
    g.apply(mv(sq(1, 7), sq(2, 5))).unwrap();
    assert_eq!(g.en_passant_target(), None);
    assert_eq!(
        g.apply(mv(sq(4, 4), sq(3, 5))),
        Err(IllegalMoveError::IllegalDestination)
    );
}

#[test]
fn castling_through_an_attacked_square_is_refused() {
    let mut g = GameState::new();
    g.apply(mv(sq(4, 1), sq(4, 3))).unwrap();
    g.apply(mv(sq(1, 6), sq(1, 5))).unwrap();
    g.apply(mv(sq(5, 0), sq(2, 3))).unwrap();
    g.apply(mv(sq(2, 7), sq(0, 5))).unwrap();
    g.apply(mv(sq(2, 3), sq(1, 2))).unwrap();
    g.apply(mv(sq(4, 6), sq(4, 5))).unwrap();
    g.apply(mv(sq(6, 0), sq(5, 2))).unwrap();
    g.apply(mv(sq(6, 7), sq(5, 5))).unwrap();
    // The bishop on a6 now attacks f1, the king's transit square.
    assert_eq!(
        g.apply(mv(sq(4, 0), sq(6, 0))),
        Err(IllegalMoveError::IllegalDestination)
    );
    assert!(g.castling_rights().white_kingside);
}

#[test]
fn fools_mate_yields_checkmate() {
    let mut g = GameState::new();
    g.apply(mv(sq(5, 1), sq(5, 2))).unwrap();
    g.apply(mv(sq(4, 6), sq(4, 4))).unwrap();
    g.apply(mv(sq(6, 1), sq(6, 3))).unwrap();
    let outcome = g.apply(mv(sq(3, 7), sq(7, 3))).unwrap();
    assert_eq!(outcome, Status::Checkmate);
    assert_eq!(g.status(), Status::Checkmate);
    assert_eq!(count_all_legal_moves(&g, Color::White), 0);
}

#[test]
fn constructed_stalemate_is_stalemate_not_checkmate() {
    let pieces = vec![
        (sq(7, 7), Piece { color: Color::Black, kind: PieceType::King }),
        (sq(5, 6), Piece { color: Color::White, kind: PieceType::King }),
        (sq(6, 5), Piece { color: Color::White, kind: PieceType::Queen }),
    ];
    let g = GameState::from_pieces(&pieces, Color::Black).unwrap();
    assert_eq!(count_all_legal_moves(&g, Color::Black), 0);
    assert_eq!(g.status(), Status::Stalemate);
    assert_ne!(g.status(), Status::Checkmate);
}

#[test]
fn from_pieces_rejects_two_kings_of_one_color() {
    let pieces = vec![
        (sq(0, 0), Piece { color: Color::White, kind: PieceType::King }),
        (sq(7, 0), Piece { color: Color::White, kind: PieceType::King }),
        (sq(4, 7), Piece { color: Color::Black, kind: PieceType::King }),
    ];
    assert!(GameState::from_pieces(&pieces, Color::White).is_none());
}

#[test]
fn from_pieces_rejects_side_not_to_move_in_check() {
    let pieces = vec![
        (sq(0, 0), Piece { color: Color::White, kind: PieceType::King }),
        (sq(4, 7), Piece { color: Color::Black, kind: PieceType::King }),
        (sq(4, 1), Piece { color: Color::White, kind: PieceType::Rook }),
    ];
    // White to move while the rook already attacks the black king.
    assert!(GameState::from_pieces(&pieces, Color::White).is_none());
}

#[test]
fn apply_rejects_empty_source() {
    let mut g = GameState::new();
    assert_eq!(
        g.apply(mv(sq(4, 3), sq(4, 4))),
        Err(IllegalMoveError::NoPieceAtSource)
    );
    assert_eq!(g.side_to_move(), Color::White);
}

#[test]
fn apply_rejects_wrong_turn() {
    let mut g = GameState::new();
    assert_eq!(
        g.apply(mv(sq(4, 6), sq(4, 4))),
        Err(IllegalMoveError::NotPlayersTurn)
    );
}

#[test]
fn apply_rejects_illegal_destination() {
    let mut g = GameState::new();
    assert_eq!(
        g.apply(mv(sq(4, 1), sq(4, 4))),
        Err(IllegalMoveError::IllegalDestination)
    );
    assert_eq!(
        g.apply(mv(sq(6, 0), sq(6, 2))),
        Err(IllegalMoveError::IllegalDestination)
    );
}

#[test]
fn promotion_is_required_supplied_and_validated() {
    let pieces = vec![
        (sq(4, 0), Piece { color: Color::White, kind: PieceType::King }),
        (sq(4, 7), Piece { color: Color::Black, kind: PieceType::King }),
        (sq(0, 6), Piece { color: Color::White, kind: PieceType::Pawn }),
    ];
    let mut g = GameState::from_pieces(&pieces, Color::White).unwrap();
    assert_eq!(
        g.apply(mv(sq(0, 6), sq(0, 7))),
        Err(IllegalMoveError::PromotionRequired)
    );
    assert_eq!(
        g.apply(promo(sq(0, 6), sq(0, 7), PieceType::King)),
        Err(IllegalMoveError::InvalidPromotion)
    );
    assert!(g.apply(promo(sq(0, 6), sq(0, 7), PieceType::Queen)).is_ok());
    assert_eq!(
        g.piece_on(sq(0, 7)),
        Some(Piece { color: Color::White, kind: PieceType::Queen })
    );
    assert_eq!(g.piece_on(sq(0, 6)), None);
}

#[test]
fn promotion_on_ordinary_move_is_invalid() {
    let mut g = GameState::new();
    assert_eq!(
        g.apply(promo(sq(4, 1), sq(4, 3), PieceType::Queen)),
        Err(IllegalMoveError::InvalidPromotion)
    );
}

#[test]
fn kingside_castling_relocates_king_and_rook() {
    let mut g = GameState::new();
    g.apply(mv(sq(4, 1), sq(4, 3))).unwrap();
    g.apply(mv(sq(4, 6), sq(4, 4))).unwrap();
    g.apply(mv(sq(6, 0), sq(5, 2))).unwrap();
    g.apply(mv(sq(1, 7), sq(2, 5))).unwrap();
    g.apply(mv(sq(5, 0), sq(2, 3))).unwrap();
    g.apply(mv(sq(6, 7), sq(5, 5))).unwrap();
    g.apply(mv(sq(4, 0), sq(6, 0))).unwrap();
    assert_eq!(
        g.piece_on(sq(6, 0)),
        Some(Piece { color: Color::White, kind: PieceType::King })
    );
    assert_eq!(
        g.piece_on(sq(5, 0)),
        Some(Piece { color: Color::White, kind: PieceType::Rook })
    );
    assert_eq!(g.piece_on(sq(4, 0)), None);
    assert_eq!(g.piece_on(sq(7, 0)), None);
    assert!(!g.castling_rights().white_kingside);
    assert!(!g.castling_rights().white_queenside);
    assert!(g.castling_rights().black_kingside);
}

#[test]
fn moving_a_rook_clears_only_its_own_permission() {
    let mut g = GameState::new();
    g.apply(mv(sq(0, 1), sq(0, 3))).unwrap();
    g.apply(mv(sq(0, 6), sq(0, 4))).unwrap();
    g.apply(mv(sq(0, 0), sq(0, 2))).unwrap();
    assert!(!g.castling_rights().white_queenside);
    assert!(g.castling_rights().white_kingside);
    assert!(g.castling_rights().black_queenside);
}

#[test]
fn halfmove_clock_counts_quiet_moves_and_resets_on_pawn_or_capture() {
    let mut g = GameState::new();
    g.apply(mv(sq(6, 0), sq(5, 2))).unwrap();
    assert_eq!(g.halfmove_clock(), 1);
    g.apply(mv(sq(6, 7), sq(5, 5))).unwrap();
    assert_eq!(g.halfmove_clock(), 2);
    g.apply(mv(sq(4, 1), sq(4, 3))).unwrap();
    assert_eq!(g.halfmove_clock(), 0);
    assert_eq!(g.fullmove_number(), 2);
}

#[test]
fn check_is_reported_and_king_must_answer_it() {
    let pieces = vec![
        (sq(4, 0), Piece { color: Color::White, kind: PieceType::King }),
        (sq(4, 7), Piece { color: Color::Black, kind: PieceType::King }),
        (sq(0, 4), Piece { color: Color::Black, kind: PieceType::Rook }),
    ];
    let mut g = GameState::from_pieces(&pieces, Color::Black).unwrap();
    let outcome = g.apply(mv(sq(0, 4), sq(0, 0))).unwrap();
    assert_eq!(outcome, Status::Check);
    // The white king may not stay on the back rank.
    assert_eq!(
        g.apply(mv(sq(4, 0), sq(3, 0))),
        Err(IllegalMoveError::IllegalDestination)
    );
    assert!(g.apply(mv(sq(4, 0), sq(4, 1))).is_ok());
}

#[test]
fn a_pinned_piece_may_not_expose_its_king() {
    let pieces = vec![
        (sq(4, 0), Piece { color: Color::White, kind: PieceType::King }),
        (sq(4, 2), Piece { color: Color::White, kind: PieceType::Bishop }),
        (sq(4, 6), Piece { color: Color::Black, kind: PieceType::Rook }),
        (sq(4, 7), Piece { color: Color::Black, kind: PieceType::King }),
    ];
    let mut g = GameState::from_pieces(&pieces, Color::White).unwrap();
    assert_eq!(
        g.apply(mv(sq(4, 2), sq(2, 4))),
        Err(IllegalMoveError::IllegalDestination)
    );
}
