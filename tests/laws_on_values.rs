use shogi_core::{Board, Piece, Player, Position};

fn pos(row: i32, column: i32) -> Position {
    Position::new(row, column)
}

fn snapshot(b: &Board) -> (Vec<(Piece, Player)>, Player, Vec<i32>) {
    let mut cells = Vec::new();
    for r in 0..9 {
        for c in 0..9 {
            let info = b.get_piece(pos(r, c));
            cells.push((info.piece, info.player));
        }
    }
    (cells, b.get_current_player(), b.get_all_captured_pieces())
}

fn empty_board(turn: Player) -> Board {
    let mut b = Board::new();
    b.clear_board();
    b.set_current_player(turn);
    b
}

#[test]
fn legal_move_passes_turn_each_time() {
    let mut b = Board::new();
    assert!(b.make_move(pos(2, 4), pos(3, 4)));
    assert_eq!(b.get_current_player(), Player::White);
    assert!(b.make_move(pos(6, 4), pos(5, 4)));
    assert_eq!(b.get_current_player(), Player::Black);
}

#[test]
fn legal_drop_passes_turn() {
    let mut b = empty_board(Player::White);
    assert!(b.set_captured_piece_count(Player::White, Piece::Gold, 2));
    assert!(b.drop_piece(Piece::Gold, 4, 4));
    assert_eq!(b.get_current_player(), Player::Black);
    assert_eq!(b.get_captured_piece_count(Player::White, Piece::Gold), 1);
    assert_eq!(b.get_piece(pos(4, 4)).piece, Piece::Gold);
    assert_eq!(b.get_piece(pos(4, 4)).player, Player::White);
}

#[test]
fn illegal_actions_change_nothing() {
    let mut b = Board::new();
    let before = snapshot(&b);
    assert!(!b.make_move(pos(2, 4), pos(4, 4)));
    assert!(!b.make_move(pos(6, 4), pos(5, 4)));
    assert!(!b.make_move(pos(4, 4), pos(5, 4)));
    assert!(!b.make_move(pos(1, 7), pos(2, 7)));
    assert!(!b.make_move_with_promotion(pos(2, 4), pos(3, 5), true));
    assert!(!b.make_move(pos(2, 4), Position { row: 9, column: 4 }));
    assert!(!b.drop_piece(Piece::Pawn, 4, 4));
    assert!(!b.drop_piece(Piece::Empty, 4, 4));
    assert_eq!(snapshot(&b), before);
}

#[test]
fn capture_of_promoted_rook_adds_one_rook() {
    let mut b = empty_board(Player::Black);
    assert!(b.set_piece(pos(3, 3), Piece::Bishop, Player::Black));
    assert!(b.set_piece(pos(5, 5), Piece::PromotedRook, Player::White));
    let before = b.get_all_captured_pieces();
    assert!(b.make_move(pos(3, 3), pos(5, 5)));
    let after = b.get_all_captured_pieces();
    for i in 0..16 {
        if i == 6 {
            assert_eq!(after[i], before[i] + 1);
        } else {
            assert_eq!(after[i], before[i]);
        }
    }
    assert_eq!(b.get_captured_piece_count(Player::Black, Piece::Rook), 1);
}

#[test]
fn quiet_move_leaves_hands_alone() {
    let mut b = Board::new();
    assert!(b.set_captured_piece_count(Player::Black, Piece::Silver, 3));
    let before = b.get_all_captured_pieces();
    assert!(b.make_move(pos(2, 0), pos(3, 0)));
    assert_eq!(b.get_all_captured_pieces(), before);
}

#[test]
fn ineligible_promotion_request_keeps_kind() {
    let mut b = Board::new();
    assert!(b.make_move_with_promotion(pos(2, 4), pos(3, 4), true));
    assert_eq!(b.get_piece(pos(3, 4)).piece, Piece::Pawn);
}

#[test]
fn eligible_move_without_request_keeps_kind() {
    let mut b = empty_board(Player::Black);
    assert!(b.set_piece(pos(5, 4), Piece::Pawn, Player::Black));
    assert!(b.can_promote(5, 4, 6, 4));
    assert!(b.make_move_with_promotion(pos(5, 4), pos(6, 4), false));
    assert_eq!(b.get_piece(pos(6, 4)).piece, Piece::Pawn);
}

#[test]
fn eligible_request_promotes_pawn() {
    let mut b = empty_board(Player::Black);
    assert!(b.set_piece(pos(5, 4), Piece::Pawn, Player::Black));
    assert!(b.make_move_with_promotion(pos(5, 4), pos(6, 4), true));
    assert_eq!(b.get_piece(pos(6, 4)).piece, Piece::PromotedPawn);
}

#[test]
fn promoted_piece_does_not_promote_again() {
    let mut b = empty_board(Player::Black);
    assert!(b.set_piece(pos(6, 4), Piece::PromotedRook, Player::Black));
    assert!(!b.can_promote(6, 4, 7, 4));
    assert!(b.make_move_with_promotion(pos(6, 4), pos(7, 4), true));
    assert_eq!(b.get_piece(pos(7, 4)).piece, Piece::PromotedRook);
}

#[test]
fn gold_and_king_never_promote() {
    let mut b = empty_board(Player::Black);
    assert!(b.set_piece(pos(6, 4), Piece::Gold, Player::Black));
    assert!(b.set_piece(pos(6, 0), Piece::King, Player::Black));
    assert!(!b.can_promote(6, 4, 7, 4));
    assert!(!b.can_promote(6, 0, 7, 0));
}

#[test]
fn forward_only_piece_leaving_zone_cannot_promote() {
    let mut b = empty_board(Player::White);
    assert!(b.set_piece(pos(2, 4), Piece::Knight, Player::White));
    assert!(b.set_piece(pos(4, 4), Piece::Lance, Player::White));
    assert!(!b.can_promote(2, 4, 4, 3));
    assert!(b.can_promote(4, 4, 2, 4));
    assert!(!b.can_promote(4, 4, 3, 4));
}

#[test]
fn generator_and_executor_agree_on_start_and_after() {
    let mut start = Board::new();
    for round in 0..2 {
        for fr in 0..9 {
            for fc in 0..9 {
                let listed = start.get_valid_moves(pos(fr, fc));
                for tr in 0..9 {
                    for tc in 0..9 {
                        let mut trial = start.clone();
                        let ok = trial.make_move(pos(fr, fc), pos(tr, tc));
                        assert_eq!(ok, listed.contains(&pos(tr, tc)));
                        assert_eq!(ok, start.is_valid_move(pos(fr, fc), pos(tr, tc)));
                    }
                }
            }
        }
        if round == 0 {
            assert!(start.make_move(pos(2, 2), pos(3, 2)));
        }
    }
}

#[test]
fn no_file_gets_two_pawns_during_play() {
    let mut b = Board::new();
    assert!(b.make_move(pos(2, 2), pos(3, 2)));
    assert!(b.make_move(pos(6, 6), pos(5, 6)));
    assert!(b.make_move(pos(1, 1), pos(7, 7)));
    assert!(b.make_move(pos(8, 6), pos(7, 7)));
    assert_eq!(b.get_captured_piece_count(Player::Black, Piece::Bishop), 1);
    assert_eq!(b.get_captured_piece_count(Player::White, Piece::Bishop), 1);
    assert!(b.make_move(pos(3, 2), pos(4, 2)));
    assert!(b.make_move(pos(6, 2), pos(5, 2)));
    assert!(b.make_move(pos(4, 2), pos(5, 2)));
    assert_eq!(b.get_captured_piece_count(Player::Black, Piece::Pawn), 1);
    assert!(!b.can_drop_piece(Piece::Pawn, 4, 0));
    assert!(b.make_move(pos(6, 0), pos(5, 0)));
    assert!(!b.can_drop_piece(Piece::Pawn, 4, 5));
    assert!(b.drop_piece(Piece::Bishop, 4, 4));
    for player in [Player::Black, Player::White] {
        for c in 0..9 {
            assert!(b.own_pawn_rows(c, player, -1).len() <= 1);
        }
    }
}

#[test]
fn pawn_in_zone_may_not_step_onto_file_with_own_pawn() {
    let mut b = empty_board(Player::Black);
    assert!(b.set_piece(pos(6, 4), Piece::Pawn, Player::Black));
    assert!(b.set_piece(pos(3, 3), Piece::Pawn, Player::Black));
    assert!(!b.is_valid_move(pos(6, 4), pos(6, 3)));
    assert!(!b.make_move_with_promotion(pos(6, 4), pos(6, 3), false));
    assert!(!b.make_move_with_promotion(pos(6, 4), pos(6, 3), true));
    assert!(!b.get_valid_moves(pos(6, 4)).contains(&pos(7, 3)));
    assert!(b.get_valid_moves(pos(6, 4)).contains(&pos(7, 5)));
    assert_eq!(b.own_pawn_rows(3, Player::Black, -1), vec![3]);
    assert!(b.make_move_with_promotion(pos(6, 4), pos(6, 5), false));
    assert_eq!(b.get_piece(pos(6, 5)).piece, Piece::Pawn);
}

#[test]
fn pawn_step_refused_on_file_already_doubled() {
    let mut b = empty_board(Player::Black);
    assert!(b.set_piece(pos(2, 4), Piece::Pawn, Player::Black));
    assert!(b.set_piece(pos(4, 4), Piece::Pawn, Player::Black));
    assert!(!b.make_move(pos(2, 4), pos(3, 4)));
    assert!(b.get_valid_moves(pos(4, 4)).is_empty());
}

#[test]
fn white_capture_fills_white_hand() {
    let mut b = empty_board(Player::White);
    assert!(b.set_piece(pos(5, 5), Piece::Lance, Player::White));
    assert!(b.set_piece(pos(2, 5), Piece::PromotedKnight, Player::Black));
    assert!(b.make_move(pos(5, 5), pos(2, 5)));
    assert_eq!(b.get_captured_piece_count(Player::White, Piece::Knight), 1);
    assert_eq!(b.get_captured_piece_count(Player::Black, Piece::Knight), 0);
    assert_eq!(b.get_all_captured_pieces().iter().sum::<i32>(), 1);
}
