use shogi_core::piece::{
    can_move_backward, can_promote_piece, get_original_piece, get_promoted_piece, is_promoted_piece,
    other_player, piece_to_index,
};
use shogi_core::{Board, DropRefusals, Piece, PieceInfo, Player, Position};

fn pos(row: i32, column: i32) -> Position {
    Position::new(row, column)
}

fn sorted(v: Vec<Position>) -> Vec<(i32, i32)> {
    let mut out: Vec<(i32, i32)> = v.into_iter().map(|p| (p.row, p.column)).collect();
    out.sort();
    out
}

fn empty_board(turn: Player) -> Board {
    let mut b = Board::new();
    b.clear_board();
    b.set_current_player(turn);
    b
}

#[test]
fn position_out_of_range_becomes_corner() {
    assert_eq!(Position::new(9, 3), Position { row: 0, column: 0 });
    assert_eq!(Position::new(3, -1), Position { row: 0, column: 0 });
    assert_eq!(Position::new(8, 8), Position { row: 8, column: 8 });
    assert!(Position::new(100, 100).is_valid());
    assert!(!Position { row: 9, column: 0 }.is_valid());
    let p = Position::new(4, 7);
    assert_eq!((p.get_row(), p.get_column()), (4, 7));
}

#[test]
fn starting_position_layout() {
    let b = Board::new();
    assert_eq!(b.get_current_player(), Player::Black);
    assert_eq!(b.get_piece(pos(0, 4)), PieceInfo { piece: Piece::King, player: Player::Black });
    assert_eq!(b.get_piece(pos(8, 4)), PieceInfo { piece: Piece::King, player: Player::White });
    assert_eq!(b.get_piece(pos(1, 1)).piece, Piece::Bishop);
    assert_eq!(b.get_piece(pos(1, 7)).piece, Piece::Rook);
    assert_eq!(b.get_piece(pos(7, 1)).piece, Piece::Rook);
    assert_eq!(b.get_piece(pos(7, 7)).piece, Piece::Bishop);
    assert_eq!(b.get_piece(pos(0, 1)).piece, Piece::Knight);
    assert_eq!(b.get_piece(pos(8, 8)), PieceInfo { piece: Piece::Lance, player: Player::White });
    for c in 0..9 {
        assert_eq!(b.get_piece(pos(2, c)), PieceInfo { piece: Piece::Pawn, player: Player::Black });
        assert_eq!(b.get_piece(pos(6, c)), PieceInfo { piece: Piece::Pawn, player: Player::White });
        assert_eq!(b.get_piece(pos(4, c)).piece, Piece::Empty);
    }
    assert_eq!(b.get_all_captured_pieces(), vec![0; 16]);
}

#[test]
fn white_pieces_move_toward_lower_ranks() {
    let mut b = Board::new();
    assert!(b.get_valid_moves(pos(6, 4)).is_empty());
    b.set_current_player(Player::White);
    assert_eq!(sorted(b.get_valid_moves(pos(6, 4))), vec![(5, 4)]);
    assert_eq!(sorted(b.get_valid_moves(pos(8, 1))), Vec::<(i32, i32)>::new());
}

#[test]
fn knight_jumps_two_forward() {
    let mut b = empty_board(Player::Black);
    assert!(b.set_piece(pos(3, 4), Piece::Knight, Player::Black));
    assert_eq!(sorted(b.get_valid_moves(pos(3, 4))), vec![(5, 3), (5, 5)]);
    assert!(b.set_piece(pos(5, 0), Piece::Knight, Player::Black));
    assert_eq!(sorted(b.get_valid_moves(pos(5, 0))), vec![(7, 1)]);
}

#[test]
fn bishop_slides_until_blocked() {
    let mut b = empty_board(Player::Black);
    assert!(b.set_piece(pos(4, 4), Piece::Bishop, Player::Black));
    assert!(b.set_piece(pos(5, 5), Piece::Pawn, Player::Black));
    assert!(b.set_piece(pos(2, 2), Piece::Pawn, Player::White));
    assert_eq!(
        sorted(b.get_valid_moves(pos(4, 4))),
        vec![(0, 8), (1, 7), (2, 2), (2, 6), (3, 3), (3, 5), (5, 3), (6, 2), (7, 1), (8, 0)]
    );
}

#[test]
fn dragon_and_horse_add_single_steps() {
    let mut b = empty_board(Player::White);
    assert!(b.set_piece(pos(0, 0), Piece::PromotedRook, Player::White));
    assert!(b.set_piece(pos(0, 2), Piece::Gold, Player::White));
    assert!(b.set_piece(pos(2, 0), Piece::Gold, Player::Black));
    assert_eq!(sorted(b.get_valid_moves(pos(0, 0))), vec![(0, 1), (1, 0), (1, 1), (2, 0)]);
    assert!(b.set_piece(pos(8, 8), Piece::PromotedBishop, Player::White));
    assert!(b.set_piece(pos(6, 6), Piece::Gold, Player::White));
    assert_eq!(sorted(b.get_valid_moves(pos(8, 8))), vec![(7, 7), (7, 8), (8, 7)]);
}

#[test]
fn king_steps_all_round() {
    let mut b = empty_board(Player::Black);
    assert!(b.set_piece(pos(4, 4), Piece::King, Player::Black));
    assert_eq!(sorted(b.get_valid_moves(pos(4, 4))).len(), 8);
    assert!(b.set_piece(pos(0, 0), Piece::King, Player::Black));
    assert_eq!(sorted(b.get_valid_moves(pos(0, 0))), vec![(0, 1), (1, 0), (1, 1)]);
}

#[test]
fn piece_in_zone_also_shows_promoted_moves() {
    let mut b = empty_board(Player::Black);
    assert!(b.set_piece(pos(6, 4), Piece::Pawn, Player::Black));
    assert_eq!(
        sorted(b.get_valid_moves(pos(6, 4))),
        vec![(5, 4), (6, 3), (6, 5), (7, 3), (7, 4), (7, 5)]
    );
    assert!(b.set_piece(pos(5, 0), Piece::Pawn, Player::Black));
    assert_eq!(sorted(b.get_valid_moves(pos(5, 0))), vec![(6, 0)]);
    let mut w = empty_board(Player::White);
    assert!(w.set_piece(pos(2, 4), Piece::Silver, Player::White));
    assert_eq!(
        sorted(w.get_valid_moves(pos(2, 4))),
        vec![(1, 3), (1, 4), (1, 5), (2, 3), (2, 5), (3, 3), (3, 4), (3, 5)]
    );
}

#[test]
fn valid_moves_empty_for_vacant_or_off_board_origin() {
    let b = Board::new();
    assert!(b.get_valid_moves(pos(4, 4)).is_empty());
    assert!(b.get_valid_moves(Position { row: -1, column: 4 }).is_empty());
    assert_eq!(sorted(b.get_valid_moves_by_coords(2, 4)), vec![(3, 4)]);
    assert_eq!(sorted(b.get_valid_moves_by_coords(20, 4)), vec![(1, 0)]);
}

#[test]
fn coordinate_forms_clamp_to_corner() {
    let mut b = Board::new();
    assert_eq!(b.get_piece_by_coords(9, 9), PieceInfo { piece: Piece::Lance, player: Player::Black });
    assert!(b.clear_square_by_coords(-3, 2));
    assert_eq!(b.get_piece(pos(0, 0)).piece, Piece::Empty);
    assert!(b.set_piece_by_coords(4, 40, Piece::Gold, Player::White));
    assert_eq!(b.get_piece(pos(0, 0)), PieceInfo { piece: Piece::Gold, player: Player::White });
    assert!(!b.set_piece(Position { row: 0, column: 9 }, Piece::Gold, Player::White));
    assert!(!b.clear_square(Position { row: 9, column: 0 }));
    assert!(b.clear_square(pos(2, 4)));
    assert_eq!(b.get_piece(pos(2, 4)).piece, Piece::Empty);
}

#[test]
fn empty_square_reports_black() {
    let mut b = empty_board(Player::Black);
    assert!(b.set_piece(pos(3, 3), Piece::Empty, Player::White));
    assert_eq!(b.get_piece(pos(3, 3)), PieceInfo { piece: Piece::Empty, player: Player::Black });
}

#[test]
fn moves_by_coords() {
    let mut b = Board::new();
    assert!(b.make_move_by_coords(2, 6, 3, 6));
    assert!(!b.make_move_by_coords(2, 6, 3, 6));
    assert!(b.make_move_by_coords_with_promotion(6, 2, 5, 2, true));
    assert_eq!(b.get_piece(pos(5, 2)).piece, Piece::Pawn);
}

#[test]
fn stock_edits() {
    let mut b = Board::new();
    assert!(!b.set_captured_piece_count(Player::Black, Piece::Pawn, -1));
    assert!(!b.set_captured_piece_count(Player::Black, Piece::PromotedPawn, 2));
    assert!(!b.set_captured_piece_count(Player::Black, Piece::Empty, 2));
    assert!(b.set_captured_piece_count(Player::White, Piece::King, 2));
    assert_eq!(b.get_captured_piece_count(Player::White, Piece::King), 2);
    assert_eq!(b.get_captured_piece_count(Player::White, Piece::PromotedBishop), 0);
    assert!(b.use_captured_piece(Player::White, Piece::King));
    assert!(b.use_captured_piece(Player::White, Piece::King));
    assert!(!b.use_captured_piece(Player::White, Piece::King));
    assert!(!b.use_captured_piece(Player::White, Piece::PromotedRook));
    b.add_captured_piece(Player::Black, Piece::Lance);
    b.add_captured_piece(Player::Black, Piece::PromotedLance);
    assert_eq!(b.get_captured_piece_count(Player::Black, Piece::Lance), 1);
    let all = b.get_all_captured_pieces();
    assert_eq!(all.len(), 16);
    assert_eq!(all[1], 1);
    assert!(b.set_captured_piece_count(Player::White, Piece::Rook, 5));
    assert_eq!(b.get_all_captured_pieces()[14], 5);
    b.clear_captured_pieces(Player::Black);
    assert_eq!(b.get_captured_piece_count(Player::Black, Piece::Lance), 0);
    assert_eq!(b.get_captured_piece_count(Player::White, Piece::Rook), 5);
}

#[test]
fn stock_count_saturates_at_largest() {
    let mut b = Board::new();
    assert!(b.set_captured_piece_count(Player::Black, Piece::Gold, i32::MAX));
    b.add_captured_piece(Player::Black, Piece::Gold);
    assert_eq!(b.get_captured_piece_count(Player::Black, Piece::Gold), i32::MAX);
}

#[test]
fn drop_rules_each_refusal() {
    let mut b = empty_board(Player::Black);
    assert!(b.set_piece(pos(4, 4), Piece::Gold, Player::White));
    assert!(b.set_piece(pos(3, 2), Piece::Pawn, Player::Black));
    assert!(!b.can_drop_piece(Piece::Silver, 5, 5));
    assert!(b.set_captured_piece_count(Player::Black, Piece::Silver, 1));
    assert!(b.set_captured_piece_count(Player::Black, Piece::Pawn, 1));
    assert!(b.can_drop_piece(Piece::Silver, 5, 5));
    assert!(!b.can_drop_piece(Piece::Silver, 4, 4));
    assert!(!b.can_drop_piece(Piece::Silver, 9, 4));
    assert!(!b.can_drop_piece(Piece::Silver, 4, -1));
    assert!(!b.can_drop_piece(Piece::PromotedSilver, 5, 5));
    assert!(b.can_drop_piece(Piece::Pawn, 8, 3));
    assert_eq!(
        b.drop_refusals(Piece::Pawn, 7, 2),
        DropRefusals {
            no_stock: false,
            off_board: false,
            occupied: false,
            two_pawns: true,
            lance_rank: false,
            knight_rank: false,
        }
    );
    let r = b.drop_refusals(Piece::Knight, 8, 4);
    assert!(r.no_stock && r.knight_rank && !r.occupied && !r.off_board);
    let r = b.drop_refusals(Piece::Lance, 4, 4);
    assert!(r.no_stock && r.occupied && !r.lance_rank);
    let r = b.drop_refusals(Piece::Silver, 10, 4);
    assert!(r.off_board && !r.no_stock);
    assert_eq!(
        b.drop_refusals(Piece::Silver, 5, 5),
        DropRefusals {
            no_stock: false,
            off_board: false,
            occupied: false,
            two_pawns: false,
            lance_rank: false,
            knight_rank: false,
        }
    );
}

#[test]
fn drop_success_takes_from_hand() {
    let mut b = empty_board(Player::Black);
    assert!(b.set_captured_piece_count(Player::Black, Piece::Pawn, 2));
    assert!(b.drop_piece(Piece::Pawn, 3, 6));
    assert_eq!(b.get_captured_piece_count(Player::Black, Piece::Pawn), 1);
    assert_eq!(b.get_piece(pos(3, 6)), PieceInfo { piece: Piece::Pawn, player: Player::Black });
    assert_eq!(b.get_current_player(), Player::White);
    assert!(!b.drop_piece(Piece::Pawn, 4, 7));
}

#[test]
fn own_pawn_rows_lists_ranks() {
    let mut b = empty_board(Player::Black);
    assert!(b.set_piece(pos(1, 3), Piece::Pawn, Player::Black));
    assert!(b.set_piece(pos(5, 3), Piece::Pawn, Player::Black));
    assert!(b.set_piece(pos(6, 3), Piece::Pawn, Player::White));
    assert!(b.set_piece(pos(7, 3), Piece::PromotedPawn, Player::Black));
    assert_eq!(b.own_pawn_rows(3, Player::Black, -1), vec![1, 5]);
    assert_eq!(b.own_pawn_rows(3, Player::Black, 5), vec![1]);
    assert_eq!(b.own_pawn_rows(3, Player::White, -1), vec![6]);
    assert!(b.own_pawn_rows(4, Player::Black, -1).is_empty());
}

#[test]
fn reset_and_clone() {
    let mut b = Board::new();
    assert!(b.make_move(pos(2, 4), pos(3, 4)));
    let copy = b.clone();
    b.set_captured_piece_count(Player::White, Piece::Pawn, 4);
    b.reset_to_initial_position();
    assert_eq!(b.get_current_player(), Player::Black);
    assert_eq!(b.get_piece(pos(2, 4)).piece, Piece::Pawn);
    assert_eq!(b.get_piece(pos(3, 4)).piece, Piece::Empty);
    assert_eq!(b.get_all_captured_pieces(), vec![0; 16]);
    assert_eq!(copy.get_piece(pos(3, 4)).piece, Piece::Pawn);
    assert_eq!(copy.get_current_player(), Player::White);
}

#[test]
fn clear_board_keeps_turn_and_hands() {
    let mut b = Board::new();
    b.set_current_player(Player::White);
    assert!(b.set_captured_piece_count(Player::White, Piece::Gold, 1));
    b.clear_board();
    for r in 0..9 {
        for c in 0..9 {
            assert_eq!(b.get_piece(pos(r, c)).piece, Piece::Empty);
        }
    }
    assert_eq!(b.get_current_player(), Player::White);
    assert_eq!(b.get_captured_piece_count(Player::White, Piece::Gold), 1);
}

#[test]
fn catalog_tables() {
    assert_eq!(get_promoted_piece(Piece::Bishop), Some(Piece::PromotedBishop));
    assert_eq!(get_promoted_piece(Piece::Gold), None);
    assert_eq!(get_original_piece(Piece::PromotedKnight), Piece::Knight);
    assert_eq!(get_original_piece(Piece::King), Piece::King);
    assert!(is_promoted_piece(Piece::PromotedLance));
    assert!(!is_promoted_piece(Piece::Lance));
    assert!(can_promote_piece(Piece::Silver));
    assert!(!can_promote_piece(Piece::King));
    assert!(can_move_backward(Piece::Rook));
    assert!(!can_move_backward(Piece::Lance));
    assert_eq!(piece_to_index(Piece::King), 7);
    assert_eq!(piece_to_index(Piece::PromotedPawn), -1);
    assert_eq!(other_player(Player::Black), Player::White);
}

#[test]
fn listing_runs_rank_by_rank() {
    let mut b = empty_board(Player::Black);
    assert!(b.set_piece(pos(4, 4), Piece::King, Player::Black));
    let listed: Vec<(i32, i32)> = b.get_valid_moves(pos(4, 4)).into_iter().map(|p| (p.row, p.column)).collect();
    assert_eq!(listed, vec![(3, 3), (3, 4), (3, 5), (4, 3), (4, 5), (5, 3), (5, 4), (5, 5)]);
}

#[test]
fn listing_by_coords_matches_listing_by_position() {
    let b = Board::new();
    for (r, c) in [(1, 7), (2, 4), (0, 0), (12, -3), (8, 4), (4, 4)] {
        assert_eq!(b.get_valid_moves_by_coords(r, c), b.get_valid_moves(Position::new(r, c)));
    }
}
