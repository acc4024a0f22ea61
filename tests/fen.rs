use chess_engine::board::{BoardState, Piece, PieceColor, PieceKind, Square};
use chess_engine::engine::get_evaluation;
use chess_engine::fen::{board_from_fen, FenError};

const START: &str = "rnbqkbnr/pppppppp/8/8/8/8/PPPPPPPP/RNBQKBNR w KQkq - 0 1";

fn square(b: &BoardState, file: usize, rank: usize) -> Square {
    b.board[2 + 8 - rank][2 + file]
}

#[test]
fn start_fen_places_pieces_on_their_ranks() {
    let b = board_from_fen(START).unwrap();
    assert_eq!(b.to_move, PieceColor::White);
    assert_eq!(b.full_move_clock, 1);
    assert_eq!(b.half_move_clock, 0);
    let back = [
        PieceKind::Rook,
        PieceKind::Knight,
        PieceKind::Bishop,
        PieceKind::Queen,
        PieceKind::King,
        PieceKind::Bishop,
        PieceKind::Knight,
        PieceKind::Rook,
    ];
    for f in 0..8 {
        let white = PieceColor::White;
        let black = PieceColor::Black;
        assert_eq!(square(&b, f, 1), Square::Full(Piece { kind: back[f], color: white }));
        assert_eq!(square(&b, f, 2), Square::Full(Piece { kind: PieceKind::Pawn, color: white }));
        for r in 3..7 {
            assert_eq!(square(&b, f, r), Square::Empty);
        }
        assert_eq!(square(&b, f, 7), Square::Full(Piece { kind: PieceKind::Pawn, color: black }));
        assert_eq!(square(&b, f, 8), Square::Full(Piece { kind: back[f], color: black }));
    }
    assert_eq!(b.white_total_piece_value, 24000);
    assert_eq!(b.black_total_piece_value, 24000);
    assert_eq!(get_evaluation(&b), 0);
}

#[test]
fn start_fen_keeps_the_border() {
    let b = board_from_fen(START).unwrap();
    for i in 0..12 {
        for j in [0, 1, 10, 11] {
            assert_eq!(b.board[i][j], Square::Boundary);
            assert_eq!(b.board[j][i], Square::Boundary);
        }
    }
}

#[test]
fn empty_ranks_fen_gives_empty_board() {
    let b = board_from_fen("8/8/8/8/8/8/8/8 w - - 0 1").unwrap();
    assert_eq!(b, BoardState::empty(PieceColor::White));
    for r in 2..10 {
        for c in 2..10 {
            assert_eq!(b.board[r][c], Square::Empty);
        }
    }
    assert_eq!(b.white_total_piece_value, 0);
    assert_eq!(b.black_total_piece_value, 0);
}

#[test]
fn side_and_counters_are_read() {
    let b = board_from_fen("8/8/8/8/8/8/8/k6K b - - 12 40").unwrap();
    assert_eq!(b.to_move, PieceColor::Black);
    assert_eq!(b.half_move_clock, 12);
    assert_eq!(b.full_move_clock, 40);
    assert_eq!(square(&b, 0, 1), Square::Full(Piece { kind: PieceKind::King, color: PieceColor::Black }));
    assert_eq!(square(&b, 7, 1), Square::Full(Piece { kind: PieceKind::King, color: PieceColor::White }));
    assert_eq!(get_evaluation(&b), 0);
}

#[test]
fn missing_field_fails() {
    let r = board_from_fen("rnbqkbnr/pppppppp/8/8/8/8/PPPPPPPP/RNBQKBNR w KQkq - 0");
    assert_eq!(r, Err(FenError::WrongFieldCount));
    assert_eq!(board_from_fen(""), Err(FenError::WrongFieldCount));
    assert_eq!(board_from_fen("8/8/8/8/8/8/8/8 w - - 0 1 x"), Err(FenError::WrongFieldCount));
}

#[test]
fn unknown_piece_letter_fails() {
    let r = board_from_fen("rnbqkbnr/ppppxppp/8/8/8/8/PPPPPPPP/RNBQKBNR w KQkq - 0 1");
    assert_eq!(r, Err(FenError::UnknownPiece));
}

#[test]
fn row_over_eight_columns_fails() {
    let r = board_from_fen("rnbqkbnr/pppppppp/9/8/8/8/PPPPPPPP/RNBQKBNR w KQkq - 0 1");
    assert_eq!(r, Err(FenError::BadRowLength));
    let r = board_from_fen("rnbqkbnrp/pppppppp/8/8/8/8/PPPPPPPP/RNBQKBNR w KQkq - 0 1");
    assert_eq!(r, Err(FenError::BadRowLength));
    let r = board_from_fen("rnbqkbnr/pppppppp/44p/8/8/8/PPPPPPPP/RNBQKBNR w KQkq - 0 1");
    assert_eq!(r, Err(FenError::BadRowLength));
    let r = board_from_fen("rnbqkbnr/ppppppp/8/8/8/8/PPPPPPPP/RNBQKBNR w KQkq - 0 1");
    assert_eq!(r, Err(FenError::BadRowLength));
}

#[test]
fn wrong_row_count_fails() {
    assert_eq!(board_from_fen("8/8/8/8/8/8/8 w - - 0 1"), Err(FenError::WrongRowCount));
    assert_eq!(board_from_fen("8/8/8/8/8/8/8/8/8 w - - 0 1"), Err(FenError::WrongRowCount));
}

#[test]
fn bad_counter_fails() {
    assert_eq!(board_from_fen("8/8/8/8/8/8/8/8 w - - x 1"), Err(FenError::BadClock));
    assert_eq!(board_from_fen("8/8/8/8/8/8/8/8 w - - 0 256"), Err(FenError::BadClock));
    assert_eq!(board_from_fen("8/8/8/8/8/8/8/8 w - - 0 "), Err(FenError::BadClock));
}

#[test]
fn error_messages_are_distinct() {
    let all = [
        FenError::WrongFieldCount,
        FenError::WrongRowCount,
        FenError::BadRowLength,
        FenError::UnknownPiece,
        FenError::BadClock,
    ];
    for (i, a) in all.iter().enumerate() {
        for b in &all[i + 1..] {
            assert_ne!(a.message(), b.message());
        }
    }
}
