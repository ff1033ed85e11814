use shogi_core::{Board, Piece, PieceInfo, Player, Position};

fn pos(row: i32, column: i32) -> Position {
    Position::new(row, column)
}

fn sorted(mut v: Vec<Position>) -> Vec<(i32, i32)> {
    let mut out: Vec<(i32, i32)> = v.drain(..).map(|p| (p.row, p.column)).collect();
    out.sort();
    out
}

fn empty_board(turn: Player) -> Board {
    let mut b = Board::new();
    b.clear_board();
    b.set_current_player(turn);
    b
}

#[test]
fn new_board_pawn_steps_forward_one() {
    let b = Board::new();
    assert_eq!(sorted(b.get_valid_moves(pos(2, 4))), vec![(3, 4)]);
}

#[test]
fn new_board_rook_blocked_by_own_pieces() {
    let b = Board::new();
    let moves = sorted(b.get_valid_moves(pos(1, 7)));
    assert_eq!(moves, vec![(1, 2), (1, 3), (1, 4), (1, 5), (1, 6), (1, 8)]);
    assert!(!moves.contains(&(2, 7)));
}

#[test]
fn capture_of_white_pawn_goes_to_black_hand() {
    let mut b = empty_board(Player::Black);
    assert!(b.set_piece(pos(4, 3), Piece::Rook, Player::Black));
    assert!(b.set_piece(pos(6, 3), Piece::Pawn, Player::White));
    assert!(b.make_move(pos(4, 3), pos(6, 3)));
    assert_eq!(b.get_captured_piece_count(Player::Black, Piece::Pawn), 1);
    assert_eq!(b.get_piece(pos(6, 3)), PieceInfo { piece: Piece::Rook, player: Player::Black });
    assert_eq!(b.get_piece(pos(4, 3)).piece, Piece::Empty);
    assert_eq!(b.get_current_player(), Player::White);
}

#[test]
fn pawn_drop_refused_on_file_with_own_pawn() {
    let mut b = empty_board(Player::Black);
    assert!(b.set_piece(pos(5, 3), Piece::Pawn, Player::Black));
    assert!(b.set_captured_piece_count(Player::Black, Piece::Pawn, 1));
    for row in 0..9 {
        assert!(!b.can_drop_piece(Piece::Pawn, row, 3));
    }
    assert!(b.can_drop_piece(Piece::Pawn, 4, 4));
}

#[test]
fn pawn_drop_allowed_beside_opponent_pawn() {
    let mut b = empty_board(Player::Black);
    assert!(b.set_piece(pos(5, 3), Piece::Pawn, Player::White));
    assert!(b.set_piece(pos(4, 3), Piece::PromotedPawn, Player::Black));
    assert!(b.set_captured_piece_count(Player::Black, Piece::Pawn, 1));
    assert!(b.can_drop_piece(Piece::Pawn, 3, 3));
}

#[test]
fn knight_drop_refused_on_last_two_ranks() {
    let mut b = empty_board(Player::Black);
    assert!(b.set_captured_piece_count(Player::Black, Piece::Knight, 1));
    assert!(!b.can_drop_piece(Piece::Knight, 8, 4));
    assert!(!b.can_drop_piece(Piece::Knight, 7, 4));
    for row in 0..7 {
        assert!(b.can_drop_piece(Piece::Knight, row, 4));
    }
}

#[test]
fn white_knight_and_lance_drop_ranks() {
    let mut b = empty_board(Player::White);
    assert!(b.set_captured_piece_count(Player::White, Piece::Knight, 1));
    assert!(b.set_captured_piece_count(Player::White, Piece::Lance, 1));
    assert!(!b.can_drop_piece(Piece::Knight, 0, 4));
    assert!(!b.can_drop_piece(Piece::Knight, 1, 4));
    assert!(b.can_drop_piece(Piece::Knight, 2, 4));
    assert!(!b.can_drop_piece(Piece::Lance, 0, 4));
    assert!(b.can_drop_piece(Piece::Lance, 1, 4));
    assert!(b.can_drop_piece(Piece::Lance, 8, 4));
}

#[test]
fn black_lance_drop_refused_on_last_rank() {
    let mut b = empty_board(Player::Black);
    assert!(b.set_captured_piece_count(Player::Black, Piece::Lance, 1));
    assert!(!b.can_drop_piece(Piece::Lance, 8, 0));
    assert!(b.can_drop_piece(Piece::Lance, 7, 0));
    assert!(b.can_drop_piece(Piece::Lance, 0, 0));
}

#[test]
fn silver_leaving_zone_may_promote() {
    let mut b = empty_board(Player::Black);
    assert!(b.set_piece(pos(7, 4), Piece::Silver, Player::Black));
    assert!(b.can_promote(7, 4, 5, 4));
    assert!(b.can_promote(7, 4, 6, 3));
    assert!(b.make_move_with_promotion(pos(7, 4), pos(6, 3), true));
    assert_eq!(b.get_piece(pos(6, 3)), PieceInfo { piece: Piece::PromotedSilver, player: Player::Black });
}

#[test]
fn silver_stepping_out_of_zone_promotes() {
    let mut b = empty_board(Player::Black);
    assert!(b.set_piece(pos(6, 4), Piece::Silver, Player::Black));
    assert!(b.make_move_with_promotion(pos(6, 4), pos(5, 3), true));
    assert_eq!(b.get_piece(pos(5, 3)).piece, Piece::PromotedSilver);
}
