use vstd::prelude::*;

use crate::board::{
    lemma_material_upto_bounds, opposite, square_at, square_col, square_row, BoardState, Piece,
    PieceColor, PieceKind, Square, BOARD_END, BOARD_START, KING_VALUE,
};
use crate::move_generation::{valid_successor, MoveGenerator};

verus! {

// Piece-square tables, from White's side of the board: the first row is the
// eighth rank and the last row the first rank.

/// Pawns: a bonus for advancing, most of all toward promotion.
pub const PAWN_WEIGHTS: [[i32; 8]; 8] = [
    [0, 0, 0, 0, 0, 0, 0, 0],
    [50, 50, 50, 50, 50, 50, 50, 50],
    [10, 10, 20, 30, 30, 20, 10, 10],
    [5, 5, 10, 25, 25, 10, 5, 5],
    [0, 0, 0, 20, 20, 0, 0, 0],
    [5, -5, -10, 0, 0, -10, -5, 5],
    [5, 10, 10, -20, -20, 10, 10, 5],
    [0, 0, 0, 0, 0, 0, 0, 0],
];

/// Knights: strong in the centre, weak on the rim.
pub const KNIGHT_WEIGHTS: [[i32; 8]; 8] = [
    [-50, -40, -30, -30, -30, -30, -40, -50],
    [-40, -20, 0, 0, 0, 0, -20, -40],
    [-30, 0, 10, 15, 15, 10, 0, -30],
    [-30, 5, 15, 20, 20, 15, 5, -30],
    [-30, 0, 15, 20, 20, 15, 0, -30],
    [-30, 5, 10, 15, 15, 10, 5, -30],
    [-40, -20, 0, 5, 5, 0, -20, -40],
    [-50, -40, -30, -30, -30, -30, -40, -50],
];

/// Bishops: long central diagonals, away from corners.
pub const BISHOP_WEIGHTS: [[i32; 8]; 8] = [
    [-20, -10, -10, -10, -10, -10, -10, -20],
    [-10, 0, 0, 0, 0, 0, 0, -10],
    [-10, 0, 5, 10, 10, 5, 0, -10],
    [-10, 5, 5, 10, 10, 5, 5, -10],
    [-10, 0, 10, 10, 10, 10, 0, -10],
    [-10, 10, 10, 10, 10, 10, 10, -10],
    [-10, 5, 0, 0, 0, 0, 5, -10],
    [-20, -10, -10, -10, -10, -10, -10, -20],
];

/// Rooks: the seventh rank and the central files of the first.
pub const ROOK_WEIGHTS: [[i32; 8]; 8] = [
    [0, 0, 0, 0, 0, 0, 0, 0],
    [5, 10, 10, 10, 10, 10, 10, 5],
    [-5, 0, 0, 0, 0, 0, 0, -5],
    [-5, 0, 0, 0, 0, 0, 0, -5],
    [-5, 0, 0, 0, 0, 0, 0, -5],
    [-5, 0, 0, 0, 0, 0, 0, -5],
    [-5, 0, 0, 0, 0, 0, 0, -5],
    [0, 0, 0, 5, 5, 0, 0, 0],
];

/// Queens: a mild pull toward the centre.
pub const QUEEN_WEIGHTS: [[i32; 8]; 8] = [
    [-20, -10, -10, -5, -5, -10, -10, -20],
    [-10, 0, 0, 0, 0, 0, 0, -10],
    [-10, 0, 5, 5, 5, 5, 0, -10],
    [-5, 0, 5, 5, 5, 5, 0, -5],
    [0, 0, 5, 5, 5, 5, 0, -5],
    [-10, 5, 5, 5, 5, 5, 0, -10],
    [-10, 0, 5, 0, 0, 0, 0, -10],
    [-20, -10, -10, -5, -5, -10, -10, -20],
];

/// Kings in the middlegame: sheltered behind the pawns.
pub const KING_WEIGHTS: [[i32; 8]; 8] = [
    [-30, -40, -40, -50, -50, -40, -40, -30],
    [-30, -40, -40, -50, -50, -40, -40, -30],
    [-30, -40, -40, -50, -50, -40, -40, -30],
    [-30, -40, -40, -50, -50, -40, -40, -30],
    [-20, -30, -30, -40, -40, -30, -30, -20],
    [-10, -20, -20, -20, -20, -20, -20, -10],
    [20, 20, 0, 0, 0, 0, 20, 20],
    [20, 30, 10, 0, 0, 10, 30, 20],
];

/// Kings in the endgame: active and central.
pub const KING_LATE_GAME: [[i32; 8]; 8] = [
    [-50, -40, -30, -20, -20, -30, -40, -50],
    [-30, -20, -10, 0, 0, -10, -20, -30],
    [-30, -10, 20, 30, 30, 20, -10, -30],
    [-30, -10, 30, 40, 40, 30, -10, -30],
    [-30, -10, 30, 40, 40, 30, -10, -30],
    [-30, -10, 20, 30, 30, 20, -10, -30],
    [-30, -30, 0, 0, 0, 0, -30, -30],
    [-50, -30, -30, -30, -30, -30, -30, -50],
];

/// Past this full move the king is scored with the endgame table.
pub const ENDGAME_MOVE: u8 = 30;

/// Base magnitude of a checkmate score.
pub const MATE_SCORE: i32 = 99999999;

/// Largest magnitude of a piece-square weight.
pub const MAX_WEIGHT: i32 = 50;

/// The weight of `kind` at row `r` and column `c` of its table, oriented from
/// White's side; `late` selects the endgame table for the king.
pub open spec fn table_weight(kind: PieceKind, late: bool, r: int, c: int) -> int {
    match kind {
        PieceKind::Pawn => PAWN_WEIGHTS[r][c] as int,
        PieceKind::Knight => KNIGHT_WEIGHTS[r][c] as int,
        PieceKind::Bishop => BISHOP_WEIGHTS[r][c] as int,
        PieceKind::Rook => ROOK_WEIGHTS[r][c] as int,
        PieceKind::Queen => QUEEN_WEIGHTS[r][c] as int,
        PieceKind::King => if late {
            KING_LATE_GAME[r][c] as int
        } else {
            KING_WEIGHTS[r][c] as int
        },
    }
}

/// The table row that grid row `row` maps to for the owner `color`: White
/// reads the tables as written, Black reads them mirrored vertically.
pub open spec fn table_row(row: int, color: PieceColor) -> int {
    match color {
        PieceColor::White => row - BOARD_START,
        PieceColor::Black => 9 - row,
    }
}

/// Whether the game has gone on long enough to count as an endgame.
pub open spec fn is_late_game(b: BoardState) -> bool {
    b.full_move_clock > ENDGAME_MOVE
}

/// Positional weight of a piece of `color` standing at grid `(row, col)`.
pub open spec fn square_weight(b: BoardState, row: int, col: int, kind: PieceKind, color: PieceColor) -> int {
    table_weight(kind, is_late_game(b), table_row(row, color), col - BOARD_START)
}

/// What the playable square with index `k` adds to the score: its weight for
/// a White piece, minus it for a Black one.
pub open spec fn signed_weight(b: BoardState, k: int) -> int {
    match square_at(b, k) {
        Square::Full(p) => {
            let w = square_weight(b, square_row(k), square_col(k), p.kind, p.color);
            if p.color == PieceColor::White {
                w
            } else {
                -w
            }
        },
        _ => 0,
    }
}

/// Positional score of the first `n` playable squares.
pub open spec fn positional_upto(b: BoardState, n: nat) -> int
    decreases n,
{
    if n == 0 {
        0
    } else {
        positional_upto(b, (n - 1) as nat) + signed_weight(b, n - 1)
    }
}

/// The static score of a board from White's side: material difference plus
/// the positional weights of every piece.
pub open spec fn evaluation(b: BoardState) -> int {
    b.white_total_piece_value - b.black_total_piece_value + positional_upto(b, 64)
}

/// Largest magnitude of `evaluation` on a well-formed board.
pub open spec fn evaluation_bound() -> int {
    64 * KING_VALUE + 64 * MAX_WEIGHT
}

pub proof fn lemma_table_weight_bound(kind: PieceKind, late: bool, r: int, c: int)
    requires
        0 <= r < 8,
        0 <= c < 8,
    ensures
        -MAX_WEIGHT <= table_weight(kind, late, r, c) <= MAX_WEIGHT,
{
}

pub proof fn lemma_positional_bound(b: BoardState, n: nat)
    requires
        n <= 64,
    ensures
        -MAX_WEIGHT * n <= positional_upto(b, n) <= MAX_WEIGHT * n,
    decreases n,
{
    if n > 0 {
        lemma_positional_bound(b, (n - 1) as nat);
        let k = n - 1;
        if let Square::Full(p) = square_at(b, k) {
            lemma_table_weight_bound(
                p.kind,
                is_late_game(b),
                table_row(square_row(k), p.color),
                square_col(k) - BOARD_START,
            );
        }
    }
}

pub proof fn lemma_evaluation_bound(b: BoardState)
    requires
        b.wf(),
    ensures
        -evaluation_bound() <= evaluation(b) <= evaluation_bound(),
{
    lemma_material_upto_bounds(b.board, PieceColor::White, 64);
    lemma_material_upto_bounds(b.board, PieceColor::Black, 64);
    lemma_positional_bound(b, 64);
}

/// The positional weight of the piece at grid `(row, col)`, which belongs to
/// `color`.
fn get_pos_evaluation(row: usize, col: usize, board: &BoardState, color: PieceColor) -> (w: i32)
    requires
        BOARD_START <= row < BOARD_END,
        BOARD_START <= col < BOARD_END,
        board.board[row as int][col as int] is Full,
    ensures
        -MAX_WEIGHT <= w <= MAX_WEIGHT,
        w == square_weight(
            *board,
            row as int,
            col as int,
            board.board[row as int][col as int]->Full_0.kind,
            color,
        ),
{
    let piece = match board.board[row][col] {
        Square::Full(p) => p,
        _ => {
            proof {
                assert(false);
            }
            return 0;
        },
    };
    proof {
        lemma_table_weight_bound(
            piece.kind,
            is_late_game(*board),
            table_row(row as int, color),
            col - BOARD_START,
        );
    }
    let col = col - BOARD_START;
    let row = match color {
        PieceColor::White => row - BOARD_START,
        PieceColor::Black => 9 - row,
    };
    match piece.kind {
        PieceKind::Pawn => PAWN_WEIGHTS[row][col],
        PieceKind::Rook => ROOK_WEIGHTS[row][col],
        PieceKind::Bishop => BISHOP_WEIGHTS[row][col],
        PieceKind::Knight => KNIGHT_WEIGHTS[row][col],
        PieceKind::King => {
            if board.full_move_clock > ENDGAME_MOVE {
                KING_LATE_GAME[row][col]
            } else {
                KING_WEIGHTS[row][col]
            }
        },
        PieceKind::Queen => QUEEN_WEIGHTS[row][col],
    }
}

/// Scores a board from White's side: White plays to raise the score, Black to
/// lower it.
pub fn get_evaluation(board: &BoardState) -> (e: i32)
    requires
        board.wf(),
    ensures
        e == evaluation(*board),
{
    proof {
        lemma_material_upto_bounds(board.board, PieceColor::White, 64);
        lemma_material_upto_bounds(board.board, PieceColor::Black, 64);
    }
    let mut evaluation = board.white_total_piece_value;
    evaluation -= board.black_total_piece_value;
    let mut row: usize = BOARD_START;
    while row < BOARD_END
        invariant
            board.wf(),
            0 <= board.white_total_piece_value <= 64 * KING_VALUE,
            0 <= board.black_total_piece_value <= 64 * KING_VALUE,
            BOARD_START <= row <= BOARD_END,
            evaluation == board.white_total_piece_value - board.black_total_piece_value
                + positional_upto(*board, ((row - BOARD_START) * 8) as nat),
        decreases BOARD_END - row,
    {
        let mut col: usize = BOARD_START;
        while col < BOARD_END
            invariant
                board.wf(),
                0 <= board.white_total_piece_value <= 64 * KING_VALUE,
                0 <= board.black_total_piece_value <= 64 * KING_VALUE,
                BOARD_START <= row < BOARD_END,
                BOARD_START <= col <= BOARD_END,
                evaluation == board.white_total_piece_value - board.black_total_piece_value
                    + positional_upto(*board, ((row - BOARD_START) * 8 + col - BOARD_START) as nat),
            decreases BOARD_END - col,
        {
            let ghost k: int = (row - BOARD_START) * 8 + col - BOARD_START;
            proof {
                assert(square_row(k) == row && square_col(k) == col && 0 <= k < 64)
                    by (nonlinear_arith)
                    requires
                        k == (row - 2) * 8 + col - 2,
                        2 <= col < 10,
                        2 <= row < 10,
                ;
                lemma_positional_bound(*board, k as nat);
                lemma_positional_bound(*board, (k + 1) as nat);
            }
            let square = board.board[row][col];
            assert(square_at(*board, k) == square);
            assert(positional_upto(*board, (k + 1) as nat) == positional_upto(*board, k as nat)
                + signed_weight(*board, k));
            if let Square::Full(Piece { color, .. }) = square {
                let square_eval = get_pos_evaluation(row, col, board, color);
                assert(signed_weight(*board, k) == if color == PieceColor::White {
                    square_eval as int
                } else {
                    -square_eval
                });
                if color == PieceColor::White {
                    evaluation += square_eval;
                } else {
                    evaluation -= square_eval;
                }
            }
            col = col + 1;
        }
        row = row + 1;
    }
    evaluation
}

/// Scoring is a function of the board alone: equal boards score the same,
/// however often they are scored.
pub proof fn lemma_evaluation_deterministic(b1: BoardState, b2: BoardState)
    requires
        b1 == b2,
    ensures
        evaluation(b1) == evaluation(b2),
{
}

/// Score of a board with no legal move for the search that maximizes for
/// `player` with `depth` plies left: checkmate of `player` counts against it,
/// more the more plies were left, so that a quicker mate is preferred;
/// anything else is a stalemate and scores zero.
pub open spec fn terminal_score<G: MoveGenerator>(
    g: &G,
    b: BoardState,
    depth: nat,
    player: PieceColor,
) -> int {
    if player == PieceColor::White {
        if g.in_check(b, PieceColor::White) {
            -MATE_SCORE - depth
        } else {
            0
        }
    } else {
        if g.in_check(b, PieceColor::Black) {
            MATE_SCORE + depth
        } else {
            0
        }
    }
}

/// The minimax value of `b` searched to `depth` plies with `player` to choose:
/// White takes the largest value of its successors, Black the smallest.
pub open spec fn minimax<G: MoveGenerator>(g: &G, b: BoardState, depth: nat, player: PieceColor) -> int
    decreases depth, 1nat, 0nat,
{
    if depth == 0 {
        evaluation(b)
    } else if g.successors(b).len() == 0 {
        terminal_score(g, b, depth, player)
    } else {
        best_of(g, g.successors(b), (depth - 1) as nat, player)
    }
}

/// The best value, for `player`, among the boards of `s` searched to `depth`
/// plies by the opponent; the widest bound when `s` is empty.
pub open spec fn best_of<G: MoveGenerator>(
    g: &G,
    s: Seq<BoardState>,
    depth: nat,
    player: PieceColor,
) -> int
    decreases depth + 1, 0nat, s.len(),
{
    if s.len() == 0 {
        if player == PieceColor::White {
            i32::MIN as int
        } else {
            i32::MAX as int
        }
    } else {
        let rest = best_of(g, s.drop_last(), depth, player);
        let last = minimax(g, s.last(), depth, opposite(player));
        if s.len() == 1 {
            last
        } else if player == PieceColor::White {
            if last > rest {
                last
            } else {
                rest
            }
        } else {
            if last < rest {
                last
            } else {
                rest
            }
        }
    }
}

/// What a search with window `(alpha, beta)` owes about the true value `v`
/// when it returns `r`: `r` is exact inside the window, and outside it is a
/// bound on the same side as `v`.
pub open spec fn fail_soft(r: int, alpha: int, beta: int, v: int) -> bool {
    &&& r <= alpha ==> v <= r
    &&& r >= beta ==> v >= r
    &&& alpha < r && r < beta ==> v == r
}

/// The key the search orders successors by before visiting them: the larger
/// the material lead of `player`, the smaller the key.
pub open spec fn order_key(b: BoardState, player: PieceColor) -> int {
    if player == PieceColor::White {
        b.black_total_piece_value - b.white_total_piece_value
    } else {
        b.white_total_piece_value - b.black_total_piece_value
    }
}

/// `s`, already in order of `order_key`, with `x` placed after every board
/// whose key is not larger than its own.
pub open spec fn insert_by_key(s: Seq<BoardState>, x: BoardState, player: PieceColor) -> Seq<
    BoardState,
>
    decreases s.len(),
{
    if s.len() == 0 {
        seq![x]
    } else if order_key(s.last(), player) <= order_key(x, player) {
        s.push(x)
    } else {
        insert_by_key(s.drop_last(), x, player).push(s.last())
    }
}

/// `s` in ascending order of `order_key`, boards with equal keys keeping
/// their relative order.
pub open spec fn stable_order(s: Seq<BoardState>, player: PieceColor) -> Seq<BoardState>
    decreases s.len(),
{
    if s.len() == 0 {
        Seq::empty()
    } else {
        insert_by_key(stable_order(s.drop_last(), player), s.last(), player)
    }
}

/// The order in which the search visits the successors of `b`.
pub open spec fn search_order<G: MoveGenerator>(g: &G, b: BoardState, player: PieceColor) -> Seq<
    BoardState,
> {
    stable_order(g.successors(b), player)
}

/// `c` is the successor the search settles on when `b` is worth `v`: the
/// first one, in visiting order, whose own value is `v`.
pub open spec fn is_search_choice<G: MoveGenerator>(
    g: &G,
    b: BoardState,
    depth: nat,
    player: PieceColor,
    c: BoardState,
    v: int,
) -> bool {
    let o = search_order(g, b, player);
    exists|j: int|
        0 <= j < o.len() && o[j] == c && minimax(g, o[j], (depth - 1) as nat, opposite(player)) == v
            && forall|i: int|
            0 <= i < j ==> minimax(g, #[trigger] o[i], (depth - 1) as nat, opposite(player)) != v
}

pub proof fn lemma_best_of_bounds<G: MoveGenerator>(
    g: &G,
    s: Seq<BoardState>,
    depth: nat,
    player: PieceColor,
)
    ensures
        forall|i: int|
            0 <= i < s.len() ==> (if player == PieceColor::White {
                minimax(g, #[trigger] s[i], depth, opposite(player)) <= best_of(g, s, depth, player)
            } else {
                minimax(g, s[i], depth, opposite(player)) >= best_of(g, s, depth, player)
            }),
        s.len() > 0 ==> exists|i: int|
            0 <= i < s.len() && minimax(g, #[trigger] s[i], depth, opposite(player)) == best_of(
                g,
                s,
                depth,
                player,
            ),
    decreases s.len(),
{
    if s.len() > 0 {
        let t = s.drop_last();
        let n = s.len() - 1;
        lemma_best_of_bounds(g, t, depth, player);
        let best = best_of(g, s, depth, player);
        let rest = best_of(g, t, depth, player);
        let last = minimax(g, s[n], depth, opposite(player));
        assert(s[n] == s.last());
        assert(best == if n == 0 {
            last
        } else if player == PieceColor::White {
            if last > rest { last } else { rest }
        } else {
            if last < rest { last } else { rest }
        });
        assert forall|i: int| 0 <= i < s.len() implies (if player == PieceColor::White {
            minimax(g, #[trigger] s[i], depth, opposite(player)) <= best
        } else {
            minimax(g, s[i], depth, opposite(player)) >= best
        }) by {
            if i < n {
                assert(s[i] == t[i]);
            }
        }
        if best == last {
            assert(minimax(g, s[n], depth, opposite(player)) == best);
        } else {
            let j = choose|j: int|
                0 <= j < t.len() && minimax(g, #[trigger] t[j], depth, opposite(player)) == rest;
            assert(s[j] == t[j]);
            assert(minimax(g, s[j], depth, opposite(player)) == best);
        }
    }
}

/// Minimax values of well-formed boards searched to `depth` plies stay within
/// a mate found with `depth` plies left.
pub proof fn lemma_minimax_bound<G: MoveGenerator>(g: &G, b: BoardState, depth: nat, player: PieceColor)
    requires
        b.wf(),
    ensures
        -(MATE_SCORE + depth) <= minimax(g, b, depth, player) <= MATE_SCORE + depth,
    decreases depth,
{
    if depth == 0 {
        lemma_evaluation_bound(b);
    } else if g.successors(b).len() > 0 {
        let s = g.successors(b);
        g.lemma_successors_valid(b);
        lemma_best_of_bounds(g, s, (depth - 1) as nat, player);
        let i = choose|i: int|
            0 <= i < s.len() && minimax(g, #[trigger] s[i], (depth - 1) as nat, opposite(player))
                == best_of(g, s, (depth - 1) as nat, player);
        assert(valid_successor(b, s[i]));
        lemma_minimax_bound(g, s[i], (depth - 1) as nat, opposite(player));
    }
}

proof fn lemma_same_elements(a: Seq<BoardState>, b: Seq<BoardState>)
    requires
        a.to_multiset() == b.to_multiset(),
    ensures
        forall|x: BoardState| a.contains(x) <==> b.contains(x),
{
    assert forall|x: BoardState| a.contains(x) <==> b.contains(x) by {
        vstd::seq_lib::to_multiset_contains(a, x);
        vstd::seq_lib::to_multiset_contains(b, x);
    }
}

/// The material difference of a board, White's total minus Black's.
fn piece_value_differential(board: &BoardState) -> (d: i32)
    requires
        board.wf(),
    ensures
        d == board.white_total_piece_value - board.black_total_piece_value,
{
    proof {
        lemma_material_upto_bounds(board.board, PieceColor::White, 64);
        lemma_material_upto_bounds(board.board, PieceColor::Black, 64);
    }
    board.white_total_piece_value - board.black_total_piece_value
}

/// The ordering key of `board` for a search that maximizes for `player`.
fn move_order_key(board: &BoardState, player: PieceColor) -> (k: i64)
    requires
        board.wf(),
    ensures
        k == order_key(*board, player),
{
    let d = piece_value_differential(board) as i64;
    if player == PieceColor::White {
        -d
    } else {
        d
    }
}

/// Relies on `slice::sort_by_key`: it permutes the slice into ascending order
/// of the key, and the sort is stable, so boards with equal keys keep their
/// relative order.
#[verifier::external_body]
fn sort_by_order_key(moves: &mut Vec<BoardState>, player: PieceColor)
    requires
        forall|i: int| 0 <= i < old(moves)@.len() ==> (#[trigger] old(moves)@[i]).wf(),
    ensures
        final(moves)@ == stable_order(old(moves)@, player),
        final(moves)@.to_multiset() == old(moves)@.to_multiset(),
        forall|i: int, j: int|
            0 <= i < j < final(moves)@.len() ==> order_key(#[trigger] final(moves)@[i], player)
                <= order_key(#[trigger] final(moves)@[j], player),
{
    moves.sort_by_key(|b| move_order_key(b, player));
}

/// Searches `board` to `depth` plies with alpha-beta pruning, White
/// maximizing and Black minimizing, and returns the successor chosen for
/// `maximizing_player` with its score. Successors are visited in order of the
/// mover's material lead, best first; pruning never changes the score inside
/// the window.
pub fn alpha_beta_search<G: MoveGenerator>(
    generator: &G,
    board: &BoardState,
    depth: u8,
    alpha: i32,
    beta: i32,
    maximizing_player: PieceColor,
) -> (r: (Option<BoardState>, i32))
    requires
        board.wf(),
    ensures
        -(MATE_SCORE + depth) <= r.1 <= MATE_SCORE + depth,
        depth == 0 ==> r.0 is None && r.1 == evaluation(*board),
        depth > 0 && generator.successors(*board).len() == 0 ==> r.0 is None && r.1
            == terminal_score(generator, *board, depth as nat, maximizing_player),
        depth > 0 && generator.successors(*board).len() > 0 ==> r.0 is Some
            && generator.successors(*board).contains(r.0->Some_0),
        alpha < beta ==> fail_soft(
            r.1 as int,
            alpha as int,
            beta as int,
            minimax(generator, *board, depth as nat, maximizing_player),
        ),
        alpha == i32::MIN && beta == i32::MAX ==> r.1 == minimax(
            generator,
            *board,
            depth as nat,
            maximizing_player,
        ),
        alpha < r.1 < beta && r.0 is Some ==> is_search_choice(
            generator,
            *board,
            depth as nat,
            maximizing_player,
            r.0->Some_0,
            r.1 as int,
        ),
    decreases depth,
{
    proof {
        if alpha == i32::MIN && beta == i32::MAX {
            lemma_minimax_bound(generator, *board, depth as nat, maximizing_player);
        }
    }
    let mut alpha = alpha;
    let mut beta = beta;
    let ghost alpha0 = alpha as int;
    let ghost beta0 = beta as int;
    if depth == 0 {
        proof {
            lemma_minimax_bound(generator, *board, 0, maximizing_player);
        }
        return (None, get_evaluation(board));
    }
    let mut moves = generator.generate_moves(board);
    let ghost succ = moves@;
    if moves.len() == 0 {
        if maximizing_player == PieceColor::White {
            if generator.is_check(board, PieceColor::White) {
                return (None, -MATE_SCORE - depth as i32);
            }
        } else if generator.is_check(board, PieceColor::Black) {
            return (None, MATE_SCORE + depth as i32);
        }
        return (None, 0);
    }
    proof {
        generator.lemma_successors_valid(*board);
        assert forall|i: int| 0 <= i < moves@.len() implies (#[trigger] moves@[i]).wf() by {
            assert(valid_successor(*board, succ[i]));
        }
    }
    sort_by_order_key(&mut moves, maximizing_player);
    let ghost m = moves@;
    let ghost d = (depth - 1) as nat;
    let ghost opp = opposite(maximizing_player);
    proof {
        m.to_multiset_ensures();
        succ.to_multiset_ensures();
        assert(m.len() == succ.len());
        lemma_same_elements(m, succ);
        assert forall|i: int| 0 <= i < m.len() implies (#[trigger] m[i]).wf() && succ.contains(m[i]) by {
            assert(m.contains(m[i]));
            let j = choose|j: int| 0 <= j < succ.len() && succ[j] == m[i];
            assert(valid_successor(*board, succ[j]));
        }
        lemma_best_of_bounds(generator, succ, d, maximizing_player);
    }
    let n = moves.len();
    let mut best_move: Option<BoardState> = None;
    let mut k: usize = 0;
    let mut cut = false;
    let ghost mut best_idx: int = 0;
    if maximizing_player == PieceColor::White {
        let mut best_val = i32::MIN;
        while k < n && !cut
            invariant
                n == m.len(),
                moves@ == m,
                0 <= k <= n,
                forall|i: int| 0 <= i < m.len() ==> (#[trigger] m[i]).wf() && succ.contains(m[i]),
                opp == PieceColor::Black,
                d == depth - 1,
                beta == beta0,
                alpha == if alpha0 > best_val { alpha0 } else { best_val as int },
                k == 0 ==> best_val == i32::MIN && best_move is None && !cut,
                k > 0 ==> best_move is Some && succ.contains(best_move->Some_0),
                k > 0 ==> 0 <= best_idx < k && best_move == Some(m[best_idx]),
                m == search_order(generator, *board, maximizing_player),
                k > 0 ==> -(MATE_SCORE + depth) <= best_val <= MATE_SCORE + depth,
                alpha0 < beta0 && !cut ==> alpha < beta,
                alpha0 < beta0 && !cut ==> forall|i: int|
                    0 <= i < best_idx ==> minimax(generator, #[trigger] m[i], d, opp) < best_val,
                alpha0 < beta0 && !cut ==> forall|i: int|
                    0 <= i < k ==> minimax(generator, #[trigger] m[i], d, opp) <= best_val,
                alpha0 < beta0 && !cut && best_val > alpha0 ==> minimax(
                    generator,
                    best_move->Some_0,
                    d,
                    opp,
                ) == best_val,
                alpha0 < beta0 && cut ==> best_val >= beta && minimax(
                    generator,
                    best_move->Some_0,
                    d,
                    opp,
                ) >= best_val,
            decreases n - k,
        {
            let child = moves[k];
            let evaluation = alpha_beta_search(
                generator,
                &child,
                depth - 1,
                alpha,
                beta,
                PieceColor::Black,
            );
            if evaluation.1 > best_val {
                best_val = evaluation.1;
                best_move = Some(child);
                proof {
                    best_idx = k as int;
                }
            }
            if evaluation.1 > alpha {
                alpha = evaluation.1;
            }
            if beta <= alpha {
                cut = true;
            }
            k = k + 1;
        }
        proof {
            assert(k > 0);
            assert(succ.contains(best_move->Some_0));
            if alpha0 < beta0 {
                let v = minimax(generator, *board, depth as nat, maximizing_player);
                assert(v == best_of(generator, succ, d, maximizing_player));
                let bm = best_move->Some_0;
                let jb = choose|j: int| 0 <= j < succ.len() && succ[j] == bm;
                assert(minimax(generator, succ[jb], d, opp) <= v);
                if !cut {
                    assert forall|j: int| 0 <= j < succ.len() implies minimax(
                        generator,
                        #[trigger] succ[j],
                        d,
                        opp,
                    ) <= best_val by {
                        assert(succ.contains(succ[j]));
                        assert(m.contains(succ[j]));
                        let i = choose|i: int| 0 <= i < m.len() && m[i] == succ[j];
                    }
                    let jv = choose|j: int|
                        0 <= j < succ.len() && minimax(generator, #[trigger] succ[j], d, opp) == v;
                    assert(v <= best_val);
                    if alpha0 < best_val && best_val < beta0 {
                        assert(m[best_idx] == bm);
                    }
                }
            }
        }
        (best_move, best_val)
    } else {
        let mut best_val = i32::MAX;
        while k < n && !cut
            invariant
                n == m.len(),
                moves@ == m,
                0 <= k <= n,
                forall|i: int| 0 <= i < m.len() ==> (#[trigger] m[i]).wf() && succ.contains(m[i]),
                opp == PieceColor::White,
                d == depth - 1,
                alpha == alpha0,
                beta == if beta0 < best_val { beta0 } else { best_val as int },
                k == 0 ==> best_val == i32::MAX && best_move is None && !cut,
                k > 0 ==> best_move is Some && succ.contains(best_move->Some_0),
                k > 0 ==> 0 <= best_idx < k && best_move == Some(m[best_idx]),
                m == search_order(generator, *board, maximizing_player),
                k > 0 ==> -(MATE_SCORE + depth) <= best_val <= MATE_SCORE + depth,
                alpha0 < beta0 && !cut ==> alpha < beta,
                alpha0 < beta0 && !cut ==> forall|i: int|
                    0 <= i < best_idx ==> minimax(generator, #[trigger] m[i], d, opp) > best_val,
                alpha0 < beta0 && !cut ==> forall|i: int|
                    0 <= i < k ==> minimax(generator, #[trigger] m[i], d, opp) >= best_val,
                alpha0 < beta0 && !cut && best_val < beta0 ==> minimax(
                    generator,
                    best_move->Some_0,
                    d,
                    opp,
                ) == best_val,
                alpha0 < beta0 && cut ==> best_val <= alpha && minimax(
                    generator,
                    best_move->Some_0,
                    d,
                    opp,
                ) <= best_val,
            decreases n - k,
        {
            let child = moves[k];
            let evaluation = alpha_beta_search(
                generator,
                &child,
                depth - 1,
                alpha,
                beta,
                PieceColor::White,
            );
            if evaluation.1 < best_val {
                best_val = evaluation.1;
                best_move = Some(child);
                proof {
                    best_idx = k as int;
                }
            }
            if evaluation.1 < beta {
                beta = evaluation.1;
            }
            if beta <= alpha {
                cut = true;
            }
            k = k + 1;
        }
        proof {
            assert(k > 0);
            assert(succ.contains(best_move->Some_0));
            if alpha0 < beta0 {
                let v = minimax(generator, *board, depth as nat, maximizing_player);
                assert(v == best_of(generator, succ, d, maximizing_player));
                let bm = best_move->Some_0;
                let jb = choose|j: int| 0 <= j < succ.len() && succ[j] == bm;
                assert(minimax(generator, succ[jb], d, opp) >= v);
                if !cut {
                    assert forall|j: int| 0 <= j < succ.len() implies minimax(
                        generator,
                        #[trigger] succ[j],
                        d,
                        opp,
                    ) >= best_val by {
                        assert(succ.contains(succ[j]));
                        assert(m.contains(succ[j]));
                        let i = choose|i: int| 0 <= i < m.len() && m[i] == succ[j];
                    }
                    let jv = choose|j: int|
                        0 <= j < succ.len() && minimax(generator, #[trigger] succ[j], d, opp) == v;
                    assert(v >= best_val);
                    if alpha0 < best_val && best_val < beta0 {
                        assert(m[best_idx] == bm);
                    }
                }
            }
        }
        (best_move, best_val)
    }
}

/// Pruning never changes the result: a score that meets the fail-soft
/// contract for the widest window is the unpruned minimax value.
pub proof fn lemma_full_window_is_minimax<G: MoveGenerator>(
    g: &G,
    b: BoardState,
    depth: nat,
    player: PieceColor,
    r: int,
)
    requires
        b.wf(),
        depth <= 255,
        fail_soft(r, i32::MIN as int, i32::MAX as int, minimax(g, b, depth, player)),
    ensures
        r == minimax(g, b, depth, player),
{
    lemma_minimax_bound(g, b, depth, player);
}

/// A quicker mate scores better for the side delivering it: of two boards
/// where `player` is checkmated, the one reached with more plies left to
/// search scores lower for White and higher for Black.
pub proof fn lemma_faster_mate_preferred<G: MoveGenerator>(
    g: &G,
    sooner: BoardState,
    later: BoardState,
    sooner_depth: nat,
    later_depth: nat,
    player: PieceColor,
)
    requires
        g.successors(sooner).len() == 0,
        g.successors(later).len() == 0,
        g.in_check(sooner, player),
        g.in_check(later, player),
        sooner_depth > later_depth > 0,
    ensures
        player == PieceColor::White ==> minimax(g, sooner, sooner_depth, player) < minimax(
            g,
            later,
            later_depth,
            player,
        ) < 0,
        player == PieceColor::Black ==> minimax(g, sooner, sooner_depth, player) > minimax(
            g,
            later,
            later_depth,
            player,
        ) > 0,
{
}

/// A side that can checkmate at once does so: when a successor of `b` leaves
/// the opponent of `player` checkmated, `b` is worth exactly that mate, the
/// most extreme score a search of this depth can give, so no slower mate and
/// no material gain is preferred to it.
pub proof fn lemma_immediate_mate_is_best<G: MoveGenerator>(
    g: &G,
    b: BoardState,
    depth: nat,
    player: PieceColor,
    mated: BoardState,
)
    requires
        b.wf(),
        depth >= 2,
        g.successors(b).contains(mated),
        g.successors(mated).len() == 0,
        g.in_check(mated, opposite(player)),
    ensures
        minimax(g, b, depth, player) == if player == PieceColor::White {
            MATE_SCORE + depth - 1
        } else {
            -MATE_SCORE - depth + 1
        },
{
    let s = g.successors(b);
    let d = (depth - 1) as nat;
    g.lemma_successors_valid(b);
    lemma_best_of_bounds(g, s, d, player);
    let j = choose|j: int| 0 <= j < s.len() && s[j] == mated;
    assert(minimax(g, s[j], d, opposite(player)) == terminal_score(g, mated, d, opposite(player)));
    let i = choose|i: int|
        0 <= i < s.len() && minimax(g, #[trigger] s[i], d, opposite(player)) == best_of(
            g,
            s,
            d,
            player,
        );
    assert(valid_successor(b, s[i]));
    lemma_minimax_bound(g, s[i], d, opposite(player));
}

/// White can force checkmate within `k` plies from `b`, inside a search of
/// `depth` plies with `player` to choose: Black is mated on the spot, or White
/// has a successor and every Black reply keeps the mate within reach.
pub open spec fn white_mates_within<G: MoveGenerator>(
    g: &G,
    b: BoardState,
    depth: nat,
    player: PieceColor,
    k: nat,
) -> bool
    decreases k,
{
    if depth == 0 {
        false
    } else if g.successors(b).len() == 0 {
        player == PieceColor::Black && g.in_check(b, PieceColor::Black)
    } else if k == 0 {
        false
    } else if player == PieceColor::White {
        exists|i: int|
            0 <= i < g.successors(b).len() && white_mates_within(
                g,
                #[trigger] g.successors(b)[i],
                (depth - 1) as nat,
                PieceColor::Black,
                (k - 1) as nat,
            )
    } else {
        forall|i: int|
            0 <= i < g.successors(b).len() ==> white_mates_within(
                g,
                #[trigger] g.successors(b)[i],
                (depth - 1) as nat,
                PieceColor::White,
                (k - 1) as nat,
            )
    }
}

/// A mate that White can force within `k` plies is worth at least
/// `MATE_SCORE + depth - k`: the sooner the mate can be forced, the higher
/// the score it guarantees.
pub proof fn lemma_forced_mate_score<G: MoveGenerator>(
    g: &G,
    b: BoardState,
    depth: nat,
    player: PieceColor,
    k: nat,
)
    requires
        white_mates_within(g, b, depth, player, k),
    ensures
        minimax(g, b, depth, player) >= MATE_SCORE + depth - k,
    decreases k,
{
    let s = g.successors(b);
    if s.len() > 0 {
        let d = (depth - 1) as nat;
        lemma_best_of_bounds(g, s, d, player);
        if player == PieceColor::White {
            let i = choose|i: int|
                0 <= i < s.len() && white_mates_within(
                    g,
                    #[trigger] s[i],
                    d,
                    PieceColor::Black,
                    (k - 1) as nat,
                );
            lemma_forced_mate_score(g, s[i], d, PieceColor::Black, (k - 1) as nat);
        } else {
            let i = choose|i: int|
                0 <= i < s.len() && minimax(g, #[trigger] s[i], d, opposite(player)) == best_of(
                    g,
                    s,
                    d,
                    player,
                );
            assert(white_mates_within(g, s[i], d, PieceColor::White, (k - 1) as nat));
            lemma_forced_mate_score(g, s[i], d, PieceColor::White, (k - 1) as nat);
        }
    }
}

/// Plays the engine against itself from `b`: each turn searches `depth`
/// plies for the side to move with the widest window and adopts the chosen
/// successor, the first in visiting order that attains the board's value.
/// Stops once the full-move clock reaches `max_moves` or the search returns no
/// successor. Returns every board of the game in order,
/// starting with `b`.
pub fn play_game_against_self<G: MoveGenerator>(
    generator: &G,
    b: &BoardState,
    depth: u8,
    max_moves: u8,
) -> (game: Vec<BoardState>)
    requires
        b.wf(),
    ensures
        game@.len() >= 1,
        game@[0] == *b,
        forall|i: int| 0 <= i < game@.len() ==> (#[trigger] game@[i]).wf(),
        forall|i: int|
            0 < i < game@.len() ==> #[trigger] game@[i].full_move_clock <= max_moves,
        forall|i: int|
            0 <= i < game@.len() - 1 ==> {
                &&& (#[trigger] game@[i]).full_move_clock < max_moves
                &&& depth > 0
                &&& generator.successors(game@[i]).contains(game@[i + 1])
                &&& valid_successor(game@[i], game@[i + 1])
                &&& is_search_choice(
                    generator,
                    game@[i],
                    depth as nat,
                    game@[i].to_move,
                    game@[i + 1],
                    minimax(generator, game@[i], depth as nat, game@[i].to_move),
                )
            },
        ({
            let last = game@[game@.len() - 1];
            last.full_move_clock >= max_moves || depth == 0 || generator.successors(last).len()
                == 0
        }),
{
    let mut board = *b;
    let mut game: Vec<BoardState> = Vec::new();
    game.push(board);
    let mut done = false;
    while !done && board.full_move_clock < max_moves
        invariant
            board.wf(),
            game@.len() >= 1,
            game@[0] == *b,
            game@[game@.len() - 1] == board,
            forall|i: int| 0 <= i < game@.len() ==> (#[trigger] game@[i]).wf(),
            forall|i: int|
                0 < i < game@.len() ==> #[trigger] game@[i].full_move_clock <= max_moves,
            forall|i: int|
                0 <= i < game@.len() - 1 ==> {
                    &&& (#[trigger] game@[i]).full_move_clock < max_moves
                    &&& depth > 0
                    &&& generator.successors(game@[i]).contains(game@[i + 1])
                    &&& valid_successor(game@[i], game@[i + 1])
                    &&& is_search_choice(
                        generator,
                        game@[i],
                        depth as nat,
                        game@[i].to_move,
                        game@[i + 1],
                        minimax(generator, game@[i], depth as nat, game@[i].to_move),
                    )
                },
            done ==> depth == 0 || generator.successors(board).len() == 0,
        decreases (if done { 0int } else { 1int }) + 2 * (max_moves - board.full_move_clock) + (
        if board.to_move == PieceColor::White {
            1int
        } else {
            0int
        }),
    {
        let res = alpha_beta_search(generator, &board, depth, i32::MIN, i32::MAX, board.to_move);
        match res.0 {
            Some(next) => {
                proof {
                    generator.lemma_successors_valid(board);
                    let j = choose|j: int|
                        0 <= j < generator.successors(board).len() && generator.successors(
                            board,
                        )[j] == next;
                    assert(valid_successor(board, generator.successors(board)[j]));
                }
                let ghost prev = game@;
                game.push(next);
                proof {
                    assert forall|i: int| 0 <= i < prev.len() implies game@[i] == prev[i] by {}
                }
                board = next;
            },
            None => {
                done = true;
            },
        }
    }
    game
}

} // verus!
