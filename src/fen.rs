use vstd::prelude::*;
use vstd::string::StringSliceAdditionalSpecFns;

use crate::board::{
    bordered, grid_square, is_playable, square_at, square_col, square_row, BoardState, Piece,
    PieceColor, PieceKind, Square, BOARD_START,
};

verus! {

/// Why a position string was rejected.
#[derive(Clone, Copy, Debug, PartialEq, Eq, Structural)]
pub enum FenError {
    /// The string does not have exactly six space-separated fields.
    WrongFieldCount,
    /// The placement field does not have exactly eight rows.
    WrongRowCount,
    /// A row does not add up to exactly eight columns, or holds a bad count.
    BadRowLength,
    /// A row holds a character that names no piece.
    UnknownPiece,
    /// A move counter is not a number from 0 to 255.
    BadClock,
}

impl FenError {
    /// A one-line description of the error.
    pub fn message(&self) -> (m: &'static str)
        ensures
            m@ == match self {
                FenError::WrongFieldCount => "FEN string must have exactly 6 fields"@,
                FenError::WrongRowCount => "FEN placement must have exactly 8 rows"@,
                FenError::BadRowLength => "FEN row must describe exactly 8 columns"@,
                FenError::UnknownPiece => "FEN row holds an unrecognized piece"@,
                FenError::BadClock => "FEN move counter must be a number from 0 to 255"@,
            },
    {
        match self {
            FenError::WrongFieldCount => "FEN string must have exactly 6 fields",
            FenError::WrongRowCount => "FEN placement must have exactly 8 rows",
            FenError::BadRowLength => "FEN row must describe exactly 8 columns",
            FenError::UnknownPiece => "FEN row holds an unrecognized piece",
            FenError::BadClock => "FEN move counter must be a number from 0 to 255",
        }
    }
}

pub const SPACE: u8 = 32;
pub const SLASH: u8 = 47;
pub const DIGIT_ZERO: u8 = 48;
pub const DIGIT_NINE: u8 = 57;
pub const LETTER_W: u8 = 119;

/// The piece a placement letter names: upper case for White, lower case for
/// Black.
pub open spec fn piece_of_letter(b: u8) -> Option<Piece> {
    let white = PieceColor::White;
    let black = PieceColor::Black;
    if b == 80 {
        Some(Piece { kind: PieceKind::Pawn, color: white })
    } else if b == 78 {
        Some(Piece { kind: PieceKind::Knight, color: white })
    } else if b == 66 {
        Some(Piece { kind: PieceKind::Bishop, color: white })
    } else if b == 82 {
        Some(Piece { kind: PieceKind::Rook, color: white })
    } else if b == 81 {
        Some(Piece { kind: PieceKind::Queen, color: white })
    } else if b == 75 {
        Some(Piece { kind: PieceKind::King, color: white })
    } else if b == 112 {
        Some(Piece { kind: PieceKind::Pawn, color: black })
    } else if b == 110 {
        Some(Piece { kind: PieceKind::Knight, color: black })
    } else if b == 98 {
        Some(Piece { kind: PieceKind::Bishop, color: black })
    } else if b == 114 {
        Some(Piece { kind: PieceKind::Rook, color: black })
    } else if b == 113 {
        Some(Piece { kind: PieceKind::Queen, color: black })
    } else if b == 107 {
        Some(Piece { kind: PieceKind::King, color: black })
    } else {
        None
    }
}

/// Where a left-to-right reading of a position string stands.
pub struct FenScan {
    /// Index of the current field: the spaces read so far.
    pub field: u8,
    /// Index of the current placement row: the slashes read so far.
    pub row: u8,
    /// Columns described so far in the current row.
    pub col: u8,
    /// The playable squares described so far, from the eighth rank down.
    pub cells: Seq<Square>,
    /// 0 while the side field is empty, 1 while it reads exactly "w", else 2.
    pub side: u8,
    pub half: u16,
    pub half_seen: bool,
    pub full: u16,
    pub full_seen: bool,
    pub error: Option<FenError>,
}

pub open spec fn fen_start() -> FenScan {
    FenScan {
        field: 0,
        row: 0,
        col: 0,
        cells: Seq::empty(),
        side: 0,
        half: 0,
        half_seen: false,
        full: 0,
        full_seen: false,
        error: None,
    }
}

pub open spec fn failed(st: FenScan, e: FenError) -> FenScan {
    FenScan { error: Some(e), ..st }
}

pub open spec fn is_digit(b: u8) -> bool {
    DIGIT_ZERO <= b <= DIGIT_NINE
}

/// A counter after reading byte `b`, if it is a digit and the value stays
/// within 255.
pub open spec fn clock_digit(v: u16, b: u8) -> Option<u16> {
    if is_digit(b) && v * 10 + (b - DIGIT_ZERO) <= 255 {
        Some((v * 10 + (b - DIGIT_ZERO)) as u16)
    } else {
        None
    }
}

/// One byte of the placement field: a slash ends a full row, a digit from 1
/// to 8 skips that many empty squares, a letter places a piece.
pub open spec fn placement_step(st: FenScan, b: u8) -> FenScan {
    if b == SLASH {
        if st.col != 8 {
            failed(st, FenError::BadRowLength)
        } else if st.row >= 7 {
            failed(st, FenError::WrongRowCount)
        } else {
            FenScan { row: (st.row + 1) as u8, col: 0, ..st }
        }
    } else if is_digit(b) {
        let n = b - DIGIT_ZERO;
        if n == 0 || n > 8 || st.col + n > 8 {
            failed(st, FenError::BadRowLength)
        } else {
            FenScan {
                col: (st.col + n) as u8,
                cells: st.cells + Seq::new(n as nat, |i: int| Square::Empty),
                ..st
            }
        }
    } else {
        match piece_of_letter(b) {
            Some(p) => if st.col >= 8 {
                failed(st, FenError::BadRowLength)
            } else {
                FenScan { col: (st.col + 1) as u8, cells: st.cells.push(Square::Full(p)), ..st }
            },
            None => failed(st, FenError::UnknownPiece),
        }
    }
}

/// One byte of a position string. Fields are separated by single spaces;
/// the castling and en-passant fields are skipped.
pub open spec fn fen_step(st: FenScan, b: u8) -> FenScan {
    if st.error is Some {
        st
    } else if b == SPACE {
        if st.field >= 5 {
            failed(st, FenError::WrongFieldCount)
        } else {
            FenScan { field: (st.field + 1) as u8, ..st }
        }
    } else if st.field == 0 {
        placement_step(st, b)
    } else if st.field == 1 {
        FenScan {
            side: if st.side == 0 && b == LETTER_W {
                1
            } else {
                2
            },
            ..st
        }
    } else if st.field == 4 {
        match clock_digit(st.half, b) {
            Some(v) => FenScan { half: v, half_seen: true, ..st },
            None => failed(st, FenError::BadClock),
        }
    } else if st.field == 5 {
        match clock_digit(st.full, b) {
            Some(v) => FenScan { full: v, full_seen: true, ..st },
            None => failed(st, FenError::BadClock),
        }
    } else {
        st
    }
}

/// The reading after the bytes of `s`.
pub open spec fn fen_scan(s: Seq<u8>) -> FenScan
    decreases s.len(),
{
    if s.len() == 0 {
        fen_start()
    } else {
        fen_step(fen_scan(s.drop_last()), s.last())
    }
}

/// The complete reading of `s`, or the first error found in it.
pub open spec fn fen_outcome(s: Seq<u8>) -> Result<FenScan, FenError> {
    let st = fen_scan(s);
    if st.error is Some {
        Err(st.error->Some_0)
    } else if st.field != 5 {
        Err(FenError::WrongFieldCount)
    } else if st.row != 7 {
        Err(FenError::WrongRowCount)
    } else if st.col != 8 {
        Err(FenError::BadRowLength)
    } else if !st.half_seen || !st.full_seen {
        Err(FenError::BadClock)
    } else {
        Ok(st)
    }
}

/// What a reader holds in step with its `FenScan`.
pub open spec fn scan_wf(st: FenScan) -> bool {
    &&& forall|k: int| 0 <= k < st.cells.len() ==> !(#[trigger] st.cells[k] is Boundary)
    &&& st.error is None ==> {
        &&& st.field <= 5
        &&& st.row <= 7
        &&& st.col <= 8
        &&& st.cells.len() == st.row * 8 + st.col
        &&& st.side <= 2
        &&& st.half <= 255
        &&& st.full <= 255
    }
}

/// A position string being read byte by byte.
pub struct FenReader {
    pub field: u8,
    pub row: u8,
    pub col: u8,
    pub cells: Vec<Square>,
    pub side: u8,
    pub half: u16,
    pub half_seen: bool,
    pub full: u16,
    pub full_seen: bool,
    pub error: Option<FenError>,
}

impl View for FenReader {
    type V = FenScan;

    open spec fn view(&self) -> FenScan {
        FenScan {
            field: self.field,
            row: self.row,
            col: self.col,
            cells: self.cells@,
            side: self.side,
            half: self.half,
            half_seen: self.half_seen,
            full: self.full,
            full_seen: self.full_seen,
            error: self.error,
        }
    }
}

/// The piece that a placement letter names, if any.
fn letter_piece(b: u8) -> (r: Option<Piece>)
    ensures
        r == piece_of_letter(b),
{
    let white = PieceColor::White;
    let black = PieceColor::Black;
    let (kind, color) = match b {
        80 => (PieceKind::Pawn, white),
        78 => (PieceKind::Knight, white),
        66 => (PieceKind::Bishop, white),
        82 => (PieceKind::Rook, white),
        81 => (PieceKind::Queen, white),
        75 => (PieceKind::King, white),
        112 => (PieceKind::Pawn, black),
        110 => (PieceKind::Knight, black),
        98 => (PieceKind::Bishop, black),
        114 => (PieceKind::Rook, black),
        113 => (PieceKind::Queen, black),
        107 => (PieceKind::King, black),
        _ => {
            return None;
        },
    };
    Some(Piece { kind, color })
}

/// A counter after reading byte `b`, if it is a digit and the value stays
/// within 255.
fn read_clock_digit(v: u16, b: u8) -> (r: Option<u16>)
    requires
        v <= 255,
    ensures
        r == clock_digit(v, b),
{
    if DIGIT_ZERO <= b && b <= DIGIT_NINE && v * 10 + (b - DIGIT_ZERO) as u16 <= 255 {
        Some(v * 10 + (b - DIGIT_ZERO) as u16)
    } else {
        None
    }
}

impl FenReader {
    pub fn new() -> (r: FenReader)
        ensures
            r@ == fen_start(),
    {
        FenReader {
            field: 0,
            row: 0,
            col: 0,
            cells: Vec::new(),
            side: 0,
            half: 0,
            half_seen: false,
            full: 0,
            full_seen: false,
            error: None,
        }
    }

    /// Reads one byte of the placement field.
    fn read_placement(&mut self, b: u8)
        requires
            old(self)@.error is None,
            scan_wf(old(self)@),
        ensures
            final(self)@ == placement_step(old(self)@, b),
            scan_wf(final(self)@),
    {
        if b == SLASH {
            if self.col != 8 {
                self.error = Some(FenError::BadRowLength);
            } else if self.row >= 7 {
                self.error = Some(FenError::WrongRowCount);
            } else {
                self.row = self.row + 1;
                self.col = 0;
            }
        } else if DIGIT_ZERO <= b && b <= DIGIT_NINE {
            let n = b - DIGIT_ZERO;
            if n == 0 || n > 8 || self.col + n > 8 {
                self.error = Some(FenError::BadRowLength);
            } else {
                let ghost before = self.cells@;
                let mut i: u8 = 0;
                while i < n
                    invariant
                        i <= n,
                        n <= 8,
                        self.col + n <= 8,
                        self@ == (FenScan { cells: self.cells@, ..old(self)@ }),
                        self.cells@ == before + Seq::new(i as nat, |j: int| Square::Empty),
                    decreases n - i,
                {
                    self.cells.push(Square::Empty);
                    i = i + 1;
                    proof {
                        assert(self.cells@ =~= before + Seq::new(i as nat, |j: int| Square::Empty));
                    }
                }
                self.col = self.col + n;
            }
        } else {
            match letter_piece(b) {
                Some(p) => {
                    if self.col >= 8 {
                        self.error = Some(FenError::BadRowLength);
                    } else {
                        self.cells.push(Square::Full(p));
                        self.col = self.col + 1;
                    }
                },
                None => {
                    self.error = Some(FenError::UnknownPiece);
                },
            }
        }
    }

    /// Reads one byte of a position string.
    pub fn read_byte(&mut self, b: u8)
        requires
            scan_wf(old(self)@),
        ensures
            final(self)@ == fen_step(old(self)@, b),
            scan_wf(final(self)@),
    {
        if self.error.is_some() {
            return;
        }
        if b == SPACE {
            if self.field >= 5 {
                self.error = Some(FenError::WrongFieldCount);
            } else {
                self.field = self.field + 1;
            }
        } else if self.field == 0 {
            self.read_placement(b);
        } else if self.field == 1 {
            self.side = if self.side == 0 && b == LETTER_W {
                1
            } else {
                2
            };
        } else if self.field == 4 {
            match read_clock_digit(self.half, b) {
                Some(v) => {
                    self.half = v;
                    self.half_seen = true;
                },
                None => {
                    self.error = Some(FenError::BadClock);
                },
            }
        } else if self.field == 5 {
            match read_clock_digit(self.full, b) {
                Some(v) => {
                    self.full = v;
                    self.full_seen = true;
                },
                None => {
                    self.error = Some(FenError::BadClock);
                },
            }
        }
    }
}

/// The bordered grid whose playable squares, from the eighth rank down, are
/// `cells`.
fn grid_from_cells(cells: &Vec<Square>) -> (g: [[Square; 12]; 12])
    requires
        cells@.len() == 64,
        forall|k: int| 0 <= k < 64 ==> !(#[trigger] cells@[k] is Boundary),
    ensures
        bordered(g),
        forall|k: int| 0 <= k < 64 ==> #[trigger] grid_square(g, k) == cells@[k],
{
    let x = Square::Boundary;
    let e = Square::Empty;
    let edge: [Square; 12] = [x, x, x, x, x, x, x, x, x, x, x, x];
    let rank: [Square; 12] = [x, x, e, e, e, e, e, e, e, e, x, x];
    let mut g: [[Square; 12]; 12] = [
        edge, edge, rank, rank, rank, rank, rank, rank, rank, rank, edge, edge,
    ];
    let mut k: usize = 0;
    while k < 64
        invariant
            k <= 64,
            cells@.len() == 64,
            forall|k: int| 0 <= k < 64 ==> !(#[trigger] cells@[k] is Boundary),
            bordered(g),
            forall|j: int| 0 <= j < k ==> #[trigger] grid_square(g, j) == cells@[j],
        decreases 64 - k,
    {
        let r = BOARD_START + k / 8;
        let c = BOARD_START + k % 8;
        let ghost g0 = g;
        let mut line = g[r];
        line[c] = cells[k];
        g[r] = line;
        proof {
            assert forall|j: int| 0 <= j < k + 1 implies #[trigger] grid_square(g, j) == cells@[j] by {
                if j < k {
                    assert(square_row(j) != r || square_col(j) != c);
                    assert(grid_square(g0, j) == cells@[j]);
                }
            }
            assert forall|a: int, b: int| 0 <= a < 12 && 0 <= b < 12 implies ((g[a][b] is Boundary)
                <==> !is_playable(a, b)) by {
                if a != r || b != c {
                    assert(g[a][b] == g0[a][b]);
                }
            }
        }
        k = k + 1;
    }
    g
}

/// Reads a board from a position string in Forsyth-Edwards notation: six
/// fields separated by spaces, of which the placement, the side to move and
/// the two move counters are used. The side to move is White exactly when
/// its field is "w".
pub fn board_from_fen(fen: &str) -> (r: Result<BoardState, FenError>)
    ensures
        match fen_outcome(fen.spec_bytes()) {
            Err(e) => r == Err::<BoardState, FenError>(e),
            Ok(st) => {
                &&& r is Ok
                &&& r->Ok_0.wf()
                &&& forall|k: int| 0 <= k < 64 ==> square_at(r->Ok_0, k) == st.cells[k]
                &&& r->Ok_0.to_move == if st.side == 1 {
                    PieceColor::White
                } else {
                    PieceColor::Black
                }
                &&& r->Ok_0.half_move_clock == st.half
                &&& r->Ok_0.full_move_clock == st.full
            },
        },
{
    let bytes = fen.as_bytes();
    let mut reader = FenReader::new();
    let mut i: usize = 0;
    while i < bytes.len()
        invariant
            i <= bytes@.len(),
            bytes@ == fen.spec_bytes(),
            scan_wf(reader@),
            reader@ == fen_scan(bytes@.take(i as int)),
        decreases bytes@.len() - i,
    {
        assert(bytes@.take(i + 1).drop_last() =~= bytes@.take(i as int));
        reader.read_byte(bytes[i]);
        i = i + 1;
    }
    assert(bytes@.take(i as int) =~= bytes@);
    if let Some(e) = reader.error {
        return Err(e);
    }
    if reader.field != 5 {
        return Err(FenError::WrongFieldCount);
    }
    if reader.row != 7 {
        return Err(FenError::WrongRowCount);
    }
    if reader.col != 8 {
        return Err(FenError::BadRowLength);
    }
    if !reader.half_seen || !reader.full_seen {
        return Err(FenError::BadClock);
    }
    let g = grid_from_cells(&reader.cells);
    let to_move = if reader.side == 1 {
        PieceColor::White
    } else {
        PieceColor::Black
    };
    let b = BoardState::new(g, to_move, reader.full as u8, reader.half as u8);
    Ok(b)
}

} // verus!
