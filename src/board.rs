use vstd::prelude::*;

verus! {

/// First playable row and column of the bordered grid.
pub const BOARD_START: usize = 2;

/// One past the last playable row and column of the bordered grid.
pub const BOARD_END: usize = 10;

/// Base values of the pieces, independent of where they stand.
pub const PAWN_VALUE: i32 = 100;
pub const KNIGHT_VALUE: i32 = 320;
pub const BISHOP_VALUE: i32 = 330;
pub const ROOK_VALUE: i32 = 500;
pub const QUEEN_VALUE: i32 = 900;
pub const KING_VALUE: i32 = 20000;

#[derive(Clone, Copy, Debug, PartialEq, Eq, Structural)]
pub enum PieceColor {
    White,
    Black,
}

#[derive(Clone, Copy, Debug, PartialEq, Eq, Structural)]
pub enum PieceKind {
    Pawn,
    Knight,
    Bishop,
    Rook,
    Queen,
    King,
}

#[derive(Clone, Copy, Debug, PartialEq, Eq, Structural)]
pub struct Piece {
    pub kind: PieceKind,
    pub color: PieceColor,
}

#[derive(Clone, Copy, Debug, PartialEq, Eq, Structural)]
pub enum Square {
    /// A sentinel cell of the border; never a destination.
    Boundary,
    Empty,
    Full(Piece),
}

/// A snapshot of a game: the bordered grid, the side to move, the clocks and
/// the material each side has on the board.
#[derive(Clone, Copy, Debug, PartialEq, Eq)]
pub struct BoardState {
    pub board: [[Square; 12]; 12],
    pub to_move: PieceColor,
    pub full_move_clock: u8,
    pub half_move_clock: u8,
    pub white_total_piece_value: i32,
    pub black_total_piece_value: i32,
}

pub open spec fn opposite(c: PieceColor) -> PieceColor {
    match c {
        PieceColor::White => PieceColor::Black,
        PieceColor::Black => PieceColor::White,
    }
}

pub open spec fn piece_value(k: PieceKind) -> int {
    match k {
        PieceKind::Pawn => PAWN_VALUE as int,
        PieceKind::Knight => KNIGHT_VALUE as int,
        PieceKind::Bishop => BISHOP_VALUE as int,
        PieceKind::Rook => ROOK_VALUE as int,
        PieceKind::Queen => QUEEN_VALUE as int,
        PieceKind::King => KING_VALUE as int,
    }
}

/// Grid row of the playable square with index `k` (0 to 63, row-major).
pub open spec fn square_row(k: int) -> int {
    BOARD_START as int + k / 8
}

/// Grid column of the playable square with index `k`.
pub open spec fn square_col(k: int) -> int {
    BOARD_START as int + k % 8
}

pub open spec fn is_playable(r: int, c: int) -> bool {
    BOARD_START <= r < BOARD_END && BOARD_START <= c < BOARD_END
}

/// What the playable square with index `k` holds.
pub open spec fn square_at(b: BoardState, k: int) -> Square {
    grid_square(b.board, k)
}

pub open spec fn grid_square(g: [[Square; 12]; 12], k: int) -> Square {
    g[square_row(k)][square_col(k)]
}

/// Value that a square contributes to the material of `color`.
pub open spec fn square_material(s: Square, color: PieceColor) -> int {
    match s {
        Square::Full(p) => if p.color == color {
            piece_value(p.kind)
        } else {
            0
        },
        _ => 0,
    }
}

/// Material of `color` on the first `n` playable squares.
pub open spec fn material_upto(g: [[Square; 12]; 12], color: PieceColor, n: nat) -> int
    decreases n,
{
    if n == 0 {
        0
    } else {
        material_upto(g, color, (n - 1) as nat) + square_material(grid_square(g, n - 1), color)
    }
}

/// Sum of the base values of the pieces of `color` on the board.
pub open spec fn material(b: BoardState, color: PieceColor) -> int {
    material_upto(b.board, color, 64)
}

/// The border holds sentinels and nothing else does.
pub open spec fn bordered(g: [[Square; 12]; 12]) -> bool {
    forall|r: int, c: int|
        0 <= r < 12 && 0 <= c < 12 ==> ((g[r][c] is Boundary) <==> !is_playable(r, c))
}

impl BoardState {
    /// The grid is bordered and the cached totals are the material on it.
    pub open spec fn wf(self) -> bool {
        &&& bordered(self.board)
        &&& self.white_total_piece_value == material(self, PieceColor::White)
        &&& self.black_total_piece_value == material(self, PieceColor::Black)
    }

    /// A board whose totals are computed from `board`.
    pub fn new(
        board: [[Square; 12]; 12],
        to_move: PieceColor,
        full_move_clock: u8,
        half_move_clock: u8,
    ) -> (r: BoardState)
        requires
            bordered(board),
        ensures
            r.board == board,
            r.to_move == to_move,
            r.full_move_clock == full_move_clock,
            r.half_move_clock == half_move_clock,
            r.wf(),
    {
        let mut r = BoardState {
            board,
            to_move,
            full_move_clock,
            half_move_clock,
            white_total_piece_value: 0,
            black_total_piece_value: 0,
        };
        r.white_total_piece_value = material_total(&r, PieceColor::White);
        r.black_total_piece_value = material_total(&r, PieceColor::Black);
        r
    }

    /// A bordered board with every playable square empty.
    pub fn empty(to_move: PieceColor) -> (r: BoardState)
        ensures
            r.wf(),
            r.to_move == to_move,
            r.full_move_clock == 1,
            r.half_move_clock == 0,
            forall|k: int| 0 <= k < 64 ==> square_at(r, k) is Empty,
    {
        let x = Square::Boundary;
        let e = Square::Empty;
        let edge: [Square; 12] = [x, x, x, x, x, x, x, x, x, x, x, x];
        let rank: [Square; 12] = [x, x, e, e, e, e, e, e, e, e, x, x];
        let g: [[Square; 12]; 12] = [
            edge, edge, rank, rank, rank, rank, rank, rank, rank, rank, edge, edge,
        ];
        assert(bordered(g));
        let r = BoardState::new(g, to_move, 1, 0);
        assert forall|k: int| 0 <= k < 64 implies square_at(r, k) is Empty by {
            assert(is_playable(square_row(k), square_col(k)));
        }
        r
    }
}

/// Base value of a piece kind.
pub fn piece_base_value(k: PieceKind) -> (v: i32)
    ensures
        v == piece_value(k),
{
    match k {
        PieceKind::Pawn => PAWN_VALUE,
        PieceKind::Knight => KNIGHT_VALUE,
        PieceKind::Bishop => BISHOP_VALUE,
        PieceKind::Rook => ROOK_VALUE,
        PieceKind::Queen => QUEEN_VALUE,
        PieceKind::King => KING_VALUE,
    }
}

pub proof fn lemma_material_upto_bounds(g: [[Square; 12]; 12], color: PieceColor, n: nat)
    ensures
        0 <= material_upto(g, color, n) <= KING_VALUE * n,
    decreases n,
{
    if n > 0 {
        lemma_material_upto_bounds(g, color, (n - 1) as nat);
    }
}

/// Sums the base values of the pieces of `color` on the board.
pub fn material_total(b: &BoardState, color: PieceColor) -> (t: i32)
    ensures
        t == material(*b, color),
{
    let mut t: i32 = 0;
    let mut k: usize = 0;
    while k < 64
        invariant
            k <= 64,
            t == material_upto(b.board, color, k as nat),
        decreases 64 - k,
    {
        proof {
            lemma_material_upto_bounds(b.board, color, k as nat);
        }
        let s = b.board[BOARD_START + k / 8][BOARD_START + k % 8];
        if let Square::Full(p) = s {
            if p.color == color {
                t = t + piece_base_value(p.kind);
            }
        }
        k = k + 1;
    }
    t
}

} // verus!
