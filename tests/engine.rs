use chess_engine::board::{BoardState, Piece, PieceColor, PieceKind, Square};
use chess_engine::fen::board_from_fen;
use chess_engine::engine::{alpha_beta_search, get_evaluation, play_game_against_self, MATE_SCORE};
use chess_engine::move_generation::MoveGenerator;

/// A game tree given as a table: the half-move clock of a board names its
/// node, and each node lists its successors and whether the side is in check.
struct TreeGen {
    children: Vec<Vec<BoardState>>,
    check: Vec<bool>,
}

impl MoveGenerator for TreeGen {
    // Ghost items of the trait; only the verifier reads them.
    fn successors(&self, _b: BoardState) -> vstd::seq::Seq<BoardState> {
        unreachable!()
    }

    fn in_check(&self, _b: BoardState, _color: PieceColor) -> bool {
        unreachable!()
    }

    fn lemma_successors_valid(&self, _b: BoardState) {}

    fn generate_moves(&self, b: &BoardState) -> Vec<BoardState> {
        self.children[b.half_move_clock as usize].clone()
    }

    fn is_check(&self, b: &BoardState, _color: PieceColor) -> bool {
        self.check[b.half_move_clock as usize]
    }
}

fn piece(kind: PieceKind, color: PieceColor) -> Square {
    Square::Full(Piece { kind, color })
}

/// Grid coordinates of a square given as file (0 = a) and rank (1 to 8).
fn at(file: usize, rank: usize) -> (usize, usize) {
    (2 + 8 - rank, 2 + file)
}

fn board_with(
    pieces: &[((usize, usize), Square)],
    to_move: PieceColor,
    full_move: u8,
    id: u8,
) -> BoardState {
    let mut g = BoardState::empty(to_move).board;
    for &((r, c), s) in pieces {
        g[r][c] = s;
    }
    BoardState::new(g, to_move, full_move, id)
}

fn starting_position() -> BoardState {
    let back = [
        PieceKind::Rook,
        PieceKind::Knight,
        PieceKind::Bishop,
        PieceKind::Queen,
        PieceKind::King,
        PieceKind::Bishop,
        PieceKind::Knight,
        PieceKind::Rook,
    ];
    let mut pieces = Vec::new();
    for f in 0..8 {
        pieces.push((at(f, 1), piece(back[f], PieceColor::White)));
        pieces.push((at(f, 2), piece(PieceKind::Pawn, PieceColor::White)));
        pieces.push((at(f, 7), piece(PieceKind::Pawn, PieceColor::Black)));
        pieces.push((at(f, 8), piece(back[f], PieceColor::Black)));
    }
    board_with(&pieces, PieceColor::White, 1, 0)
}

/// The starting position after White moves the pawn of `file` from rank 2 to `rank`.
fn after_pawn_push(file: usize, rank: usize, id: u8) -> BoardState {
    let mut b = starting_position();
    let (r0, c0) = at(file, 2);
    let (r1, c1) = at(file, rank);
    b.board[r0][c0] = Square::Empty;
    b.board[r1][c1] = piece(PieceKind::Pawn, PieceColor::White);
    BoardState::new(b.board, PieceColor::Black, 1, id)
}

fn kings(extra: &[((usize, usize), Square)], to_move: PieceColor, full_move: u8, id: u8) -> BoardState {
    let mut pieces = vec![
        (at(4, 1), piece(PieceKind::King, PieceColor::White)),
        (at(4, 8), piece(PieceKind::King, PieceColor::Black)),
    ];
    pieces.extend_from_slice(extra);
    board_with(&pieces, to_move, full_move, id)
}

fn white_pawns(n: usize, to_move: PieceColor, full_move: u8, id: u8) -> BoardState {
    let extra: Vec<_> = (0..n).map(|f| (at(f, 3), piece(PieceKind::Pawn, PieceColor::White))).collect();
    kings(&extra, to_move, full_move, id)
}

fn minimax(g: &TreeGen, b: &BoardState, depth: u8, player: PieceColor) -> i32 {
    if depth == 0 {
        return get_evaluation(b);
    }
    let moves = g.generate_moves(b);
    if moves.is_empty() {
        return alpha_beta_search(g, b, depth, i32::MIN, i32::MAX, player).1;
    }
    let scores = moves.iter().map(|c| {
        let next = if player == PieceColor::White { PieceColor::Black } else { PieceColor::White };
        minimax(g, c, depth - 1, next)
    });
    if player == PieceColor::White { scores.max().unwrap() } else { scores.min().unwrap() }
}

#[test]
fn built_start_matches_parsed_start() {
    let parsed = board_from_fen("rnbqkbnr/pppppppp/8/8/8/8/PPPPPPPP/RNBQKBNR w KQkq - 0 1").unwrap();
    assert_eq!(parsed, starting_position());
}

#[test]
fn starting_position_scores_zero() {
    let b = starting_position();
    assert_eq!(b.white_total_piece_value, 8 * 100 + 2 * 500 + 2 * 320 + 2 * 330 + 900 + 20000);
    assert_eq!(b.white_total_piece_value, b.black_total_piece_value);
    assert_eq!(get_evaluation(&b), 0);
}

#[test]
fn white_pawn_on_e4_scores_material_and_weight() {
    let b = board_with(&[(at(4, 4), piece(PieceKind::Pawn, PieceColor::White))], PieceColor::White, 1, 0);
    assert_eq!(b.white_total_piece_value, 100);
    assert_eq!(get_evaluation(&b), 120);
}

#[test]
fn black_pawn_reads_table_mirrored() {
    let b = board_with(&[(at(4, 5), piece(PieceKind::Pawn, PieceColor::Black))], PieceColor::White, 1, 0);
    assert_eq!(get_evaluation(&b), -120);
    let b = board_with(&[(at(0, 2), piece(PieceKind::Pawn, PieceColor::Black))], PieceColor::White, 1, 0);
    assert_eq!(get_evaluation(&b), -150);
}

#[test]
fn knight_in_corner_is_penalized() {
    let b = board_with(&[(at(0, 1), piece(PieceKind::Knight, PieceColor::White))], PieceColor::White, 1, 0);
    assert_eq!(get_evaluation(&b), 320 - 50);
}

#[test]
fn king_table_switches_after_move_thirty() {
    let k = [(at(4, 1), piece(PieceKind::King, PieceColor::White))];
    assert_eq!(get_evaluation(&board_with(&k, PieceColor::White, 30, 0)), 20000);
    assert_eq!(get_evaluation(&board_with(&k, PieceColor::White, 31, 0)), 20000 - 30);
    let c = [(at(3, 4), piece(PieceKind::King, PieceColor::White))];
    assert_eq!(get_evaluation(&board_with(&c, PieceColor::White, 31, 0)), 20000 + 40);
}

#[test]
fn evaluation_is_deterministic() {
    let b = after_pawn_push(4, 4, 0);
    assert_eq!(get_evaluation(&b), get_evaluation(&b));
    assert_eq!(get_evaluation(&b), get_evaluation(&b.clone()));
}

#[test]
fn depth_zero_returns_evaluation() {
    let g = TreeGen { children: vec![vec![white_pawns(1, PieceColor::Black, 10, 1)]], check: vec![false] };
    let b = white_pawns(2, PieceColor::White, 10, 0);
    let r = alpha_beta_search(&g, &b, 0, i32::MIN, i32::MAX, PieceColor::White);
    assert!(r.0.is_none());
    assert_eq!(r.1, get_evaluation(&b));
}

#[test]
fn checkmate_scores_with_remaining_depth() {
    let g = TreeGen { children: vec![vec![]], check: vec![true] };
    let b = kings(&[], PieceColor::White, 10, 0);
    let r = alpha_beta_search(&g, &b, 3, i32::MIN, i32::MAX, PieceColor::White);
    assert!(r.0.is_none());
    assert_eq!(r.1, -MATE_SCORE - 3);
    let r = alpha_beta_search(&g, &b, 5, i32::MIN, i32::MAX, PieceColor::Black);
    assert_eq!(r.1, MATE_SCORE + 5);
    assert_eq!(MATE_SCORE, 99999999);
}

#[test]
fn stalemate_scores_zero() {
    let g = TreeGen { children: vec![vec![]], check: vec![false] };
    let b = kings(&[], PieceColor::White, 10, 0);
    assert_eq!(alpha_beta_search(&g, &b, 4, i32::MIN, i32::MAX, PieceColor::White), (None, 0));
    assert_eq!(alpha_beta_search(&g, &b, 4, i32::MIN, i32::MAX, PieceColor::Black), (None, 0));
}

/// A two-level tree: the side `root` picks one of three nodes, the other side
/// then picks a leaf. The root is at full move 10.
fn small_tree(root: PieceColor) -> TreeGen {
    let other = if root == PieceColor::White { PieceColor::Black } else { PieceColor::White };
    let (mid_move, leaf_move) = if root == PieceColor::White { (10, 11) } else { (11, 11) };
    let leaves = |ids: &[(u8, usize)]| {
        ids.iter().map(|&(id, n)| white_pawns(n, root, leaf_move, id)).collect::<Vec<_>>()
    };
    TreeGen {
        children: vec![
            vec![
                white_pawns(1, other, mid_move, 1),
                white_pawns(5, other, mid_move, 2),
                white_pawns(3, other, mid_move, 3),
            ],
            leaves(&[(4, 3), (5, 5)]),
            leaves(&[(6, 2), (7, 6), (8, 1)]),
            leaves(&[(9, 4), (10, 2)]),
            vec![], vec![], vec![], vec![], vec![], vec![], vec![],
        ],
        check: vec![false; 11],
    }
}

#[test]
fn pruned_search_matches_minimax() {
    let g = small_tree(PieceColor::White);
    let root = white_pawns(0, PieceColor::White, 10, 0);
    for depth in 0..4 {
        let r = alpha_beta_search(&g, &root, depth, i32::MIN, i32::MAX, PieceColor::White);
        assert_eq!(r.1, minimax(&g, &root, depth, PieceColor::White));
    }
    let r = alpha_beta_search(&g, &root, 2, i32::MIN, i32::MAX, PieceColor::White);
    assert_eq!(r.0.unwrap().half_move_clock, 1);
    assert_eq!(r.1, get_evaluation(&white_pawns(3, PieceColor::White, 11, 4)));
}

#[test]
fn minimizing_search_matches_minimax() {
    let g = small_tree(PieceColor::Black);
    let root = white_pawns(0, PieceColor::Black, 10, 0);
    let r = alpha_beta_search(&g, &root, 1, i32::MIN, i32::MAX, PieceColor::Black);
    assert_eq!(r.0.unwrap().half_move_clock, 1);
    assert_eq!(r.1, minimax(&g, &root, 1, PieceColor::Black));
}

#[test]
fn faster_mate_is_preferred() {
    // Black to move at the root; node 1 is mate for White at once, node 2
    // leads through one White move to node 3, also mate.
    let w = PieceColor::White;
    let b = PieceColor::Black;
    let g = TreeGen {
        children: vec![
            vec![kings(&[], w, 11, 2), kings(&[], w, 11, 1)],
            vec![],
            vec![kings(&[], b, 11, 4)],
            vec![],
            vec![kings(&[], w, 12, 3)],
        ],
        check: vec![false, true, false, true, false],
    };
    let root = kings(&[], b, 10, 0);
    let r = alpha_beta_search(&g, &root, 5, i32::MIN, i32::MAX, b);
    assert_eq!(r.0.unwrap().half_move_clock, 1);
    assert_eq!(r.1, -MATE_SCORE - 4);
}

#[test]
fn start_position_depth_one_picks_best_successor() {
    let pushes = [(4, 4, 1), (3, 4, 2), (0, 3, 3), (7, 4, 4)];
    let succ: Vec<BoardState> = pushes.iter().map(|&(f, r, id)| after_pawn_push(f, r, id)).collect();
    let mut children = vec![succ.clone()];
    children.extend((0..4).map(|_| vec![]));
    let g = TreeGen { children, check: vec![false; 5] };
    let root = starting_position();
    let r = alpha_beta_search(&g, &root, 1, i32::MIN, i32::MAX, PieceColor::White);
    let best = succ.iter().map(get_evaluation).max().unwrap();
    assert_eq!(best, 40);
    assert_eq!(r.1, best);
    assert_eq!(get_evaluation(&r.0.unwrap()), best);
}

/// A chain of boards where each node has exactly one successor; the clocks
/// follow the rules of a real game.
fn chain(len: u8) -> TreeGen {
    let mut children = Vec::new();
    for id in 0..len {
        let to_move = if id % 2 == 0 { PieceColor::Black } else { PieceColor::White };
        let next = board_with(
            &[(at(4, 1), piece(PieceKind::King, PieceColor::White)), (at(4, 8), piece(PieceKind::King, PieceColor::Black))],
            to_move,
            1 + (id + 1) / 2,
            id + 1,
        );
        children.push(vec![next]);
    }
    children.push(vec![]);
    TreeGen { children, check: vec![false; len as usize + 1] }
}

#[test]
fn self_play_stops_at_move_cap() {
    let g = chain(40);
    let start = kings(&[], PieceColor::White, 1, 0);
    let game = play_game_against_self(&g, &start, 2, 5);
    assert_eq!(game[0], start);
    assert_eq!(game.last().unwrap().full_move_clock, 5);
    assert_eq!(game.len(), 9);
    for w in game.windows(2) {
        assert!(w[0].full_move_clock <= w[1].full_move_clock);
        assert!(w[1].full_move_clock <= 5);
    }
}

#[test]
fn self_play_stops_at_terminal_position() {
    let g = chain(3);
    let start = kings(&[], PieceColor::White, 1, 0);
    let game = play_game_against_self(&g, &start, 2, 50);
    assert_eq!(game.len(), 4);
    assert_eq!(game.last().unwrap().half_move_clock, 3);
}

#[test]
fn self_play_at_depth_zero_plays_nothing() {
    let g = chain(3);
    let start = kings(&[], PieceColor::White, 1, 0);
    assert_eq!(play_game_against_self(&g, &start, 0, 50), vec![start]);
}

#[test]
fn equal_scores_keep_the_first_in_visiting_order() {
    // Three successors: two score the same, the third has less material and
    // a lower score. Equal material keeps the generator's order.
    let b = PieceColor::Black;
    let g = TreeGen {
        children: vec![
            vec![white_pawns(1, b, 10, 1), white_pawns(2, b, 10, 2), white_pawns(2, b, 10, 3)],
            vec![],
            vec![],
            vec![],
        ],
        check: vec![false; 4],
    };
    let root = white_pawns(2, PieceColor::White, 10, 0);
    let r = alpha_beta_search(&g, &root, 1, i32::MIN, i32::MAX, PieceColor::White);
    assert_eq!(r.1, 200);
    assert_eq!(r.0.unwrap().half_move_clock, 2);
}
