use chess::board::{Colour, Coord, Piece, PieceKind};
use chess::game::{GameState, GameStatus, MoveError, UndoError};
use chess::moves::{CastlingRights, Position};
use chess::square::Square;

fn play(g: &mut GameState, from: Square, to: Square) -> Result<GameStatus, MoveError> {
    g.make_move(from, to, None)
}

fn piece(kind: PieceKind, colour: Colour) -> Option<Piece> {
    Some(Piece { kind, colour })
}

fn empty_position(turn: Colour) -> Position {
    Position {
        board: [None; 64],
        turn,
        rights: CastlingRights {
            white_king_side: false,
            white_queen_side: false,
            black_king_side: false,
            black_queen_side: false,
        },
        en_passant: None,
    }
}

fn put(p: &mut Position, sq: Square, pc: Option<Piece>) {
    let (r, f) = sq.to_row_col();
    p.board[r * 8 + f] = pc;
}

#[test]
fn starting_position_has_twenty_legal_moves() {
    let g = GameState::new();
    assert_eq!(g.legal_moves().len(), 20);
    assert_eq!(g.status(), GameStatus::Ongoing);
}

#[test]
fn scholars_mate_ends_in_checkmate() {
    let mut g = GameState::new();
    assert_eq!(play(&mut g, Square::E2, Square::E4), Ok(GameStatus::Ongoing));
    assert_eq!(play(&mut g, Square::E7, Square::E5), Ok(GameStatus::Ongoing));
    assert_eq!(play(&mut g, Square::F1, Square::C4), Ok(GameStatus::Ongoing));
    assert_eq!(play(&mut g, Square::B8, Square::C6), Ok(GameStatus::Ongoing));
    assert_eq!(play(&mut g, Square::D1, Square::H5), Ok(GameStatus::Ongoing));
    assert_eq!(play(&mut g, Square::G8, Square::F6), Ok(GameStatus::Ongoing));
    assert_eq!(play(&mut g, Square::H5, Square::F7), Ok(GameStatus::Checkmate));
    assert!(g.legal_moves().is_empty());
    assert!(g.in_check());
    assert_eq!(play(&mut g, Square::E8, Square::F7), Err(MoveError::GameAlreadyOver));
}

#[test]
fn king_and_bishop_against_king_is_insufficient_material() {
    let mut p = empty_position(Colour::White);
    put(&mut p, Square::E1, piece(PieceKind::King, Colour::White));
    put(&mut p, Square::C1, piece(PieceKind::Bishop, Colour::White));
    put(&mut p, Square::E8, piece(PieceKind::King, Colour::Black));
    let g = GameState::from_position(p);
    assert_eq!(g.status(), GameStatus::DrawInsufficientMaterial);
}

#[test]
fn king_and_rook_against_king_is_not_a_draw() {
    let mut p = empty_position(Colour::White);
    put(&mut p, Square::E1, piece(PieceKind::King, Colour::White));
    put(&mut p, Square::A1, piece(PieceKind::Rook, Colour::White));
    put(&mut p, Square::E8, piece(PieceKind::King, Colour::Black));
    let g = GameState::from_position(p);
    assert_eq!(g.status(), GameStatus::Ongoing);
}

#[test]
fn two_bishops_of_one_side_are_sufficient() {
    let mut p = empty_position(Colour::White);
    put(&mut p, Square::E1, piece(PieceKind::King, Colour::White));
    put(&mut p, Square::C1, piece(PieceKind::Bishop, Colour::White));
    put(&mut p, Square::F1, piece(PieceKind::Bishop, Colour::White));
    put(&mut p, Square::E8, piece(PieceKind::King, Colour::Black));
    let g = GameState::from_position(p);
    assert_eq!(g.status(), GameStatus::Ongoing);
}

#[test]
fn undo_restores_the_previous_state() {
    let mut g = GameState::new();
    assert_eq!(g.undo(), Err(UndoError::NoHistory));
    play(&mut g, Square::E2, Square::E4).unwrap();
    play(&mut g, Square::D7, Square::D5).unwrap();
    let before = g.position;
    let half = g.halfmove;
    let full = g.fullmove;
    play(&mut g, Square::E4, Square::D5).unwrap();
    assert_eq!(g.piece_at(Square::D5), piece(PieceKind::Pawn, Colour::White));
    assert_eq!(g.undo(), Ok(()));
    assert_eq!(g.position.board, before.board);
    assert_eq!(g.position.turn, before.turn);
    assert_eq!(g.position.rights, before.rights);
    assert_eq!(g.position.en_passant, before.en_passant);
    assert_eq!(g.halfmove, half);
    assert_eq!(g.fullmove, full);
    assert_eq!(g.history.len(), 2);
}

#[test]
fn en_passant_removes_the_pawn_passed_over() {
    let mut g = GameState::new();
    play(&mut g, Square::E2, Square::E4).unwrap();
    play(&mut g, Square::A7, Square::A6).unwrap();
    play(&mut g, Square::E4, Square::E5).unwrap();
    play(&mut g, Square::D7, Square::D5).unwrap();
    assert_eq!(g.position.en_passant, Some(Coord { rank: 5, file: 3 }));
    assert_eq!(play(&mut g, Square::E5, Square::D6), Ok(GameStatus::Ongoing));
    assert_eq!(g.piece_at(Square::D6), piece(PieceKind::Pawn, Colour::White));
    assert_eq!(g.piece_at(Square::D5), None);
    assert_eq!(g.piece_at(Square::E5), None);
    assert_eq!(g.halfmove, 0);
}

#[test]
fn en_passant_is_only_possible_right_after_the_double_push() {
    let mut g = GameState::new();
    play(&mut g, Square::E2, Square::E4).unwrap();
    play(&mut g, Square::A7, Square::A6).unwrap();
    play(&mut g, Square::E4, Square::E5).unwrap();
    play(&mut g, Square::D7, Square::D5).unwrap();
    play(&mut g, Square::H2, Square::H3).unwrap();
    assert_eq!(g.position.en_passant, None);
    play(&mut g, Square::H7, Square::H6).unwrap();
    assert_eq!(play(&mut g, Square::E5, Square::D6), Err(MoveError::NotInLegalSet));
    assert_eq!(g.piece_at(Square::D5), piece(PieceKind::Pawn, Colour::Black));
}

#[test]
fn repeating_a_knight_cycle_draws_by_repetition() {
    let mut g = GameState::new();
    let cycle = [
        (Square::G1, Square::F3),
        (Square::G8, Square::F6),
        (Square::F3, Square::G1),
        (Square::F6, Square::G8),
    ];
    let mut last = Ok(GameStatus::Ongoing);
    for _ in 0..2 {
        for (from, to) in cycle.iter() {
            last = play(&mut g, *from, *to);
        }
    }
    assert_eq!(last, Ok(GameStatus::DrawRepetition));
    assert_eq!(g.earlier_occurrences(), 2);
    assert_eq!(g.halfmove, 8);
    assert_eq!(play(&mut g, Square::G1, Square::F3), Err(MoveError::GameAlreadyOver));
}

#[test]
fn one_knight_cycle_is_not_yet_a_draw() {
    let mut g = GameState::new();
    play(&mut g, Square::G1, Square::F3).unwrap();
    play(&mut g, Square::G8, Square::F6).unwrap();
    play(&mut g, Square::F3, Square::G1).unwrap();
    assert_eq!(play(&mut g, Square::F6, Square::G8), Ok(GameStatus::Ongoing));
    assert_eq!(g.earlier_occurrences(), 1);
}

#[test]
fn hundred_quiet_halfmoves_draw() {
    let mut g = GameState::new();
    g.halfmove = 99;
    assert_eq!(play(&mut g, Square::G1, Square::F3), Ok(GameStatus::DrawFiftyMove));
    assert_eq!(g.halfmove, 100);
}

#[test]
fn counters_follow_pawn_moves_and_black_moves() {
    let mut g = GameState::new();
    play(&mut g, Square::G1, Square::F3).unwrap();
    assert_eq!((g.halfmove, g.fullmove), (1, 1));
    play(&mut g, Square::G8, Square::F6).unwrap();
    assert_eq!((g.halfmove, g.fullmove), (2, 2));
    play(&mut g, Square::E2, Square::E4).unwrap();
    assert_eq!((g.halfmove, g.fullmove), (0, 2));
}

#[test]
fn each_move_error_is_reported() {
    let mut g = GameState::new();
    assert_eq!(play(&mut g, Square::E3, Square::E4), Err(MoveError::NoPieceAtSource));
    assert_eq!(play(&mut g, Square::E7, Square::E5), Err(MoveError::WrongTurn));
    assert_eq!(play(&mut g, Square::E2, Square::E5), Err(MoveError::NotInLegalSet));
    assert_eq!(play(&mut g, Square::A1, Square::A3), Err(MoveError::NotInLegalSet));
    assert_eq!(g.history.len(), 0);
    assert_eq!(g.current_player(), Colour::White);
}

#[test]
fn a_queen_check_is_reported() {
    let mut g = GameState::new();
    play(&mut g, Square::E2, Square::E4).unwrap();
    play(&mut g, Square::F7, Square::F6).unwrap();
    assert_eq!(play(&mut g, Square::D1, Square::H5), Ok(GameStatus::Check));
    // Only the pawn step g7-g6 blocks; the king has no flight square.
    assert_eq!(g.legal_moves().len(), 1);
}

#[test]
fn stalemate_is_detected() {
    let mut p = empty_position(Colour::Black);
    put(&mut p, Square::A8, piece(PieceKind::King, Colour::Black));
    put(&mut p, Square::B6, piece(PieceKind::Queen, Colour::White));
    put(&mut p, Square::C1, piece(PieceKind::King, Colour::White));
    let g = GameState::from_position(p);
    assert!(g.legal_moves().is_empty());
    assert_eq!(g.status(), GameStatus::Stalemate);
}

#[test]
fn castling_moves_the_rook_and_drops_rights() {
    let mut p = empty_position(Colour::White);
    p.rights.white_king_side = true;
    p.rights.white_queen_side = true;
    put(&mut p, Square::E1, piece(PieceKind::King, Colour::White));
    put(&mut p, Square::H1, piece(PieceKind::Rook, Colour::White));
    put(&mut p, Square::A1, piece(PieceKind::Rook, Colour::White));
    put(&mut p, Square::E8, piece(PieceKind::King, Colour::Black));
    let mut g = GameState::from_position(p);
    assert_eq!(play(&mut g, Square::E1, Square::G1), Ok(GameStatus::Ongoing));
    assert_eq!(g.piece_at(Square::G1), piece(PieceKind::King, Colour::White));
    assert_eq!(g.piece_at(Square::F1), piece(PieceKind::Rook, Colour::White));
    assert_eq!(g.piece_at(Square::H1), None);
    assert!(!g.position.rights.white_king_side);
    assert!(!g.position.rights.white_queen_side);
}

#[test]
fn castling_through_an_attacked_square_is_illegal() {
    let mut p = empty_position(Colour::White);
    p.rights.white_king_side = true;
    put(&mut p, Square::E1, piece(PieceKind::King, Colour::White));
    put(&mut p, Square::H1, piece(PieceKind::Rook, Colour::White));
    put(&mut p, Square::F8, piece(PieceKind::Rook, Colour::Black));
    put(&mut p, Square::A8, piece(PieceKind::King, Colour::Black));
    let mut g = GameState::from_position(p);
    assert_eq!(play(&mut g, Square::E1, Square::G1), Err(MoveError::NotInLegalSet));
}

#[test]
fn promotion_replaces_the_pawn() {
    let mut p = empty_position(Colour::White);
    put(&mut p, Square::A7, piece(PieceKind::Pawn, Colour::White));
    put(&mut p, Square::E1, piece(PieceKind::King, Colour::White));
    put(&mut p, Square::H5, piece(PieceKind::King, Colour::Black));
    let mut g = GameState::from_position(p);
    assert_eq!(g.legal_moves().iter().filter(|m| m.from == Coord { rank: 6, file: 0 }).count(), 4);
    assert_eq!(play(&mut g, Square::A7, Square::A8), Err(MoveError::NotInLegalSet));
    assert_eq!(g.make_move(Square::A7, Square::A8, Some(PieceKind::Queen)), Ok(GameStatus::Ongoing));
    assert_eq!(g.piece_at(Square::A8), piece(PieceKind::Queen, Colour::White));
}

#[test]
fn a_pinned_piece_cannot_move() {
    let mut p = empty_position(Colour::White);
    put(&mut p, Square::E1, piece(PieceKind::King, Colour::White));
    put(&mut p, Square::E2, piece(PieceKind::Knight, Colour::White));
    put(&mut p, Square::E8, piece(PieceKind::Rook, Colour::Black));
    put(&mut p, Square::A8, piece(PieceKind::King, Colour::Black));
    let mut g = GameState::from_position(p);
    assert_eq!(play(&mut g, Square::E2, Square::C3), Err(MoveError::NotInLegalSet));
    assert!(g.legal_moves().iter().all(|m| m.from == Coord { rank: 0, file: 4 }));
}

#[test]
fn capturing_down_to_king_and_bishop_ends_the_game() {
    let mut p = empty_position(Colour::White);
    put(&mut p, Square::E1, piece(PieceKind::King, Colour::White));
    put(&mut p, Square::C1, piece(PieceKind::Bishop, Colour::White));
    put(&mut p, Square::E8, piece(PieceKind::King, Colour::Black));
    put(&mut p, Square::H6, piece(PieceKind::Pawn, Colour::Black));
    let mut g = GameState::from_position(p);
    assert_eq!(g.status(), GameStatus::Ongoing);
    assert_eq!(play(&mut g, Square::C1, Square::H6), Ok(GameStatus::DrawInsufficientMaterial));
    assert_eq!(play(&mut g, Square::E8, Square::E7), Err(MoveError::GameAlreadyOver));
    assert_eq!(g.history.len(), 1);
}
