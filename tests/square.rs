use chess::board::{Colour, Piece, PieceKind};
use chess::game::GameState;
use chess::square::Square;

#[test]
fn test_to_row_col_a1() {
    let square = Square::A1;
    let (row, col) = square.to_row_col();
    assert_eq!((row, col), (0, 0));
}

#[test]
fn test_to_row_col_h8() {
    let square = Square::H8;
    let (row, col) = square.to_row_col();
    assert_eq!((row, col), (7, 7));
}

// E4 is the fourth rank (row index 3) of the e-file (column index 4); an
// expectation of (4, 4) would contradict A1 -> (0, 0) and H8 -> (7, 7).
#[test]
fn test_to_row_col_e4() {
    let square = Square::E4;
    let (row, col) = square.to_row_col();
    assert_eq!((row, col), (3, 4));
}

#[test]
fn to_row_col_gives_rank_then_file() {
    assert_eq!(Square::A8.to_row_col(), (7, 0));
    assert_eq!(Square::H1.to_row_col(), (0, 7));
}

#[test]
fn test_from_str_valid_square() {
    let square: Square = "A1".parse().unwrap();
    assert_eq!(square, Square::A1);
}

#[test]
fn test_from_str_invalid_square() {
    let square: Result<Square, _> = "Z9".parse();
    assert!(square.is_err());
}

#[test]
fn from_name_accepts_either_case_and_rejects_other_text() {
    assert_eq!(Square::from_name("e4"), Some(Square::E4));
    assert_eq!(Square::from_name("H8"), Some(Square::H8));
    assert_eq!(Square::from_name("i1"), None);
    assert_eq!(Square::from_name("a9"), None);
    assert_eq!(Square::from_name("a0"), None);
    assert_eq!(Square::from_name("e44"), None);
    assert_eq!(Square::from_name(""), None);
}

#[test]
fn from_str_parses_every_name_in_either_case() {
    assert_eq!("e4".parse::<Square>(), Ok(Square::E4));
    assert_eq!("h8".parse::<Square>(), Ok(Square::H8));
    assert_eq!("C7".parse::<Square>(), Ok(Square::C7));
    assert!("i1".parse::<Square>().is_err());
    assert!("A0".parse::<Square>().is_err());
    assert!(" a1".parse::<Square>().is_err());
    assert!("a10".parse::<Square>().is_err());
}

#[test]
fn test_game_state_initialization() {
    let game_state = GameState::new();
    assert_eq!(game_state.piece_at(Square::A1), Some(Piece { kind: PieceKind::Rook, colour: Colour::White }));
    assert_eq!(game_state.piece_at(Square::H8), Some(Piece { kind: PieceKind::Rook, colour: Colour::Black }));
    assert_eq!(game_state.current_player(), Colour::White);
}
