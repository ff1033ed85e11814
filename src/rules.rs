//! Playing: legality of moves and drops, and carrying them out.

use vstd::prelude::*;
use crate::piece::{
    Piece, Player, get_promoted_piece, get_original_piece, is_promoted_piece, can_promote_piece,
    can_move_backward, other_player,
};
use crate::position::{Position, on_board};
use crate::state::{promotion_eligible, drop_rank_allowed};
use crate::board::Board;
use crate::movegen::list_contains;

verus! {

/// Which of the drop rules a drop would break; every field is false for a
/// legal drop.
#[derive(Clone, Copy, Debug, PartialEq, Eq, Structural)]
pub struct DropRefusals {
    /// The side to move holds none of the kind.
    pub no_stock: bool,
    /// The square is off the board.
    pub off_board: bool,
    /// The square, on the board, holds a piece.
    pub occupied: bool,
    /// A pawn would join an unpromoted pawn of its side on its file.
    pub two_pawns: bool,
    /// A lance would stand on the last rank.
    pub lance_rank: bool,
    /// A knight would stand on one of the last two ranks.
    pub knight_rank: bool,
}

impl DropRefusals {
    /// No rule is broken.
    pub open spec fn none(self) -> bool {
        !self.no_stock && !self.off_board && !self.occupied && !self.two_pawns && !self.lance_rank
            && !self.knight_rank
    }
}

impl Board {
    /// Returns whether moving the piece on `from` to `to` is legal: `from`
    /// holds a piece of the side to move, `to` is on the board without a
    /// piece of that side, and the piece reaches `to`.
    pub fn is_valid_move(&self, from: Position, to: Position) -> (r: bool)
        ensures
            r == self@.legal_move(from.row as int, from.column as int, to.row as int, to.column as int),
    {
        let (piece, player) = match self.get_piece_at(from) {
            Some(p) => p,
            None => return false,
        };
        if player != self.get_current_player() {
            return false;
        }
        if !to.is_valid() {
            return false;
        }
        if !self.is_empty_or_opponent(to, player) {
            return false;
        }
        let valid_moves = self.get_piece_moves(from, piece, player);
        list_contains(&valid_moves, to)
    }

    /// Returns whether the piece on the square that `Position::new(from_row,
    /// from_col)` names may promote on a move to the square that
    /// `Position::new(to_row, to_col)` names.
    pub fn can_promote(&self, from_row: i32, from_col: i32, to_row: i32, to_col: i32) -> (r: bool)
        ensures
            r == ({
                let f = Position::clamped(from_row as int, from_col as int);
                let t = Position::clamped(to_row as int, to_col as int);
                self@.occupied(f.0, f.1) && promotion_eligible(
                    self@.kind_at(f.0, f.1),
                    self@.owner_at(f.0, f.1),
                    f.0,
                    t.0,
                )
            }),
    {
        let from = Position::new(from_row, from_col);
        let to = Position::new(to_row, to_col);
        let (piece, player) = match self.get_piece_at(from) {
            Some(p) => p,
            None => return false,
        };
        if is_promoted_piece(piece) {
            return false;
        }
        if !can_promote_piece(piece) {
            return false;
        }
        if can_move_backward(piece) {
            match player {
                Player::Black => from.row >= 6 || to.row >= 6,
                Player::White => from.row <= 2 || to.row <= 2,
            }
        } else {
            match player {
                Player::Black => to.row >= 6,
                Player::White => to.row <= 2,
            }
        }
    }

    /// Moves the piece on `from` to `to`, promoting it where `promote` asks
    /// for it and the move is eligible. A piece taken goes, in its base form,
    /// to the mover's hand. The turn passes. An illegal move fails and
    /// changes nothing.
    pub fn make_move_with_promotion(&mut self, from: Position, to: Position, promote: bool) -> (r: bool)
        ensures
            r == old(self)@.legal_move(
                from.row as int,
                from.column as int,
                to.row as int,
                to.column as int,
            ),
            r ==> final(self)@ == old(self)@.after_move(
                from.row as int,
                from.column as int,
                to.row as int,
                to.column as int,
                promote,
            ),
            !r ==> *final(self) == *old(self),
    {
        if !self.is_valid_move(from, to) {
            return false;
        }
        let (piece, player) = self.cell(from.row as usize, from.column as usize);
        if let Some((captured_piece, captured_player)) = self.get_piece_at(to) {
            if captured_player != player {
                let base = get_original_piece(captured_piece);
                self.add_captured_piece(player, base);
            }
        }
        let final_piece = if promote && self.can_promote(from.row, from.column, to.row, to.column) {
            match get_promoted_piece(piece) {
                Some(p) => p,
                None => piece,
            }
        } else {
            piece
        };
        self.put_cell(to.row as usize, to.column as usize, (final_piece, player));
        self.put_cell(from.row as usize, from.column as usize, (Piece::Empty, Player::Black));
        let next = other_player(self.get_current_player());
        self.set_current_player(next);
        true
    }

    /// Moves the piece on `from` to `to` without promoting it.
    pub fn make_move(&mut self, from: Position, to: Position) -> (r: bool)
        ensures
            r == old(self)@.legal_move(
                from.row as int,
                from.column as int,
                to.row as int,
                to.column as int,
            ),
            r ==> final(self)@ == old(self)@.after_move(
                from.row as int,
                from.column as int,
                to.row as int,
                to.column as int,
                false,
            ),
            !r ==> *final(self) == *old(self),
    {
        self.make_move_with_promotion(from, to, false)
    }

    /// `make_move` between the squares that `Position::new` names.
    pub fn make_move_by_coords(&mut self, from_row: i32, from_col: i32, to_row: i32, to_col: i32) -> (r: bool)
        ensures
            ({
                let f = Position::clamped(from_row as int, from_col as int);
                let t = Position::clamped(to_row as int, to_col as int);
                &&& r == old(self)@.legal_move(f.0, f.1, t.0, t.1)
                &&& r ==> final(self)@ == old(self)@.after_move(f.0, f.1, t.0, t.1, false)
                &&& !r ==> *final(self) == *old(self)
            }),
    {
        let from = Position::new(from_row, from_col);
        let to = Position::new(to_row, to_col);
        self.make_move(from, to)
    }

    /// `make_move_with_promotion` between the squares that `Position::new` names.
    pub fn make_move_by_coords_with_promotion(
        &mut self,
        from_row: i32,
        from_col: i32,
        to_row: i32,
        to_col: i32,
        promote: bool,
    ) -> (r: bool)
        ensures
            ({
                let f = Position::clamped(from_row as int, from_col as int);
                let t = Position::clamped(to_row as int, to_col as int);
                &&& r == old(self)@.legal_move(f.0, f.1, t.0, t.1)
                &&& r ==> final(self)@ == old(self)@.after_move(f.0, f.1, t.0, t.1, promote)
                &&& !r ==> *final(self) == *old(self)
            }),
    {
        let from = Position::new(from_row, from_col);
        let to = Position::new(to_row, to_col);
        self.make_move_with_promotion(from, to, promote)
    }

    /// Returns whether `player` has an unpromoted pawn on file `col` on a
    /// rank other than `except_row`.
    pub(crate) fn has_pawn_in_column_except(&self, col: i32, player: Player, except_row: i32) -> (r: bool)
        requires
            0 <= col < 9,
        ensures
            r == self@.has_pawn_in_file(col as int, player, except_row as int),
    {
        let mut row: i32 = 0;
        while row < 9
            invariant
                0 <= row <= 9,
                0 <= col < 9,
                forall|r: int|
                    0 <= r < row && r != except_row ==> #[trigger] self@.at(r, col as int) != (
                        Piece::Pawn,
                        player,
                    ),
            decreases 9 - row,
        {
            if row != except_row {
                let pos = Position::new(row, col);
                if let Some((piece, piece_player)) = self.get_piece_at(pos) {
                    if piece == Piece::Pawn && piece_player == player {
                        return true;
                    }
                }
            }
            row += 1;
        }
        false
    }

    /// Returns whether the side to move may drop `piece` from its hand on
    /// (`to_row`, `to_col`): it holds one, the square is on the board and
    /// vacant, a pawn goes to no file that holds an unpromoted pawn of that
    /// side, a lance not to the last rank and a knight not to the last two.
    pub fn can_drop_piece(&self, piece: Piece, to_row: i32, to_col: i32) -> (r: bool)
        ensures
            r == self@.legal_drop(piece, to_row as int, to_col as int),
    {
        let player = self.get_current_player();
        if self.get_captured_piece_count(player, piece) <= 0 {
            return false;
        }
        if to_row < 0 || to_row >= 9 || to_col < 0 || to_col >= 9 {
            return false;
        }
        let to_pos = Position::new(to_row, to_col);
        if let Some(_) = self.get_piece_at(to_pos) {
            return false;
        }
        match piece {
            Piece::Pawn => {
                if self.has_pawn_in_column_except(to_col, player, -1) {
                    return false;
                }
            },
            Piece::Lance => {
                let forbidden_row: i32 = if player == Player::Black {
                    8
                } else {
                    0
                };
                if to_row == forbidden_row {
                    return false;
                }
            },
            Piece::Knight => {
                let forbidden = if player == Player::Black {
                    to_row == 7 || to_row == 8
                } else {
                    to_row == 0 || to_row == 1
                };
                if forbidden {
                    return false;
                }
            },
            _ => {},
        }
        true
    }

    /// Drops `piece` from the hand of the side to move on (`to_row`,
    /// `to_col`); the turn passes. An illegal drop fails and changes nothing.
    pub fn drop_piece(&mut self, piece: Piece, to_row: i32, to_col: i32) -> (r: bool)
        ensures
            r == old(self)@.legal_drop(piece, to_row as int, to_col as int),
            r ==> final(self)@ == old(self)@.after_drop(piece, to_row as int, to_col as int),
            !r ==> *final(self) == *old(self),
    {
        if !self.can_drop_piece(piece, to_row, to_col) {
            return false;
        }
        let player = self.get_current_player();
        if self.use_captured_piece(player, piece) {
            self.put_cell(to_row as usize, to_col as usize, (piece, player));
            let next = other_player(player);
            self.set_current_player(next);
            true
        } else {
            false
        }
    }

    /// Checks every drop rule for `piece` on (`to_row`, `to_col`) by the side
    /// to move, and reports each one broken.
    pub fn drop_refusals(&self, piece: Piece, to_row: i32, to_col: i32) -> (r: DropRefusals)
        ensures
            r.no_stock == (self@.count(self@.turn, piece) <= 0),
            r.off_board == !on_board(to_row as int, to_col as int),
            r.occupied == self@.occupied(to_row as int, to_col as int),
            r.two_pawns == (piece == Piece::Pawn && on_board(to_row as int, to_col as int)
                && self@.has_pawn_in_file(to_col as int, self@.turn, -1)),
            r.lance_rank == (piece == Piece::Lance && !drop_rank_allowed(piece, self@.turn, to_row as int)),
            r.knight_rank == (piece == Piece::Knight && !drop_rank_allowed(piece, self@.turn, to_row as int)),
            r.none() == self@.legal_drop(piece, to_row as int, to_col as int),
    {
        let player = self.get_current_player();
        let no_stock = self.get_captured_piece_count(player, piece) <= 0;
        let off_board = to_row < 0 || to_row >= 9 || to_col < 0 || to_col >= 9;
        let to_pos = Position { row: to_row, column: to_col };
        let occupied = self.get_piece_at(to_pos).is_some();
        let two_pawns = piece == Piece::Pawn && !off_board && self.has_pawn_in_column_except(
            to_col,
            player,
            -1,
        );
        let lance_rank = piece == Piece::Lance && if player == Player::Black {
            to_row == 8
        } else {
            to_row == 0
        };
        let knight_rank = piece == Piece::Knight && if player == Player::Black {
            to_row == 7 || to_row == 8
        } else {
            to_row == 0 || to_row == 1
        };
        DropRefusals { no_stock, off_board, occupied, two_pawns, lance_rank, knight_rank }
    }

    /// Lists, in increasing order, the ranks other than `except_row` on which
    /// `player` has an unpromoted pawn on the file of `Position::new(0, col)`.
    pub fn own_pawn_rows(&self, col: i32, player: Player, except_row: i32) -> (rows: Vec<i32>)
        ensures
            forall|i: int, j: int| 0 <= i < j < rows@.len() ==> rows@[i] < rows@[j],
            forall|i: int| 0 <= i < rows@.len() ==> 0 <= #[trigger] rows@[i] < 9,
            forall|row: i32|
                #[trigger] rows@.contains(row) <==> (0 <= row < 9 && row != except_row && ({
                    let sq = Position::clamped(row as int, col as int);
                    self@.info_at(sq.0, sq.1) == (Piece::Pawn, player)
                })),
    {
        let mut rows: Vec<i32> = Vec::new();
        let mut row: i32 = 0;
        while row < 9
            invariant
                0 <= row <= 9,
                forall|i: int, j: int| 0 <= i < j < rows@.len() ==> rows@[i] < rows@[j],
                forall|i: int| 0 <= i < rows@.len() ==> 0 <= #[trigger] rows@[i] < row,
                forall|x: i32|
                    #[trigger] rows@.contains(x) <==> (0 <= x < row && x != except_row && ({
                        let sq = Position::clamped(x as int, col as int);
                        self@.info_at(sq.0, sq.1) == (Piece::Pawn, player)
                    })),
            decreases 9 - row,
        {
            if row != except_row {
                let pos = Position::new(row, col);
                if let Some((piece, piece_player)) = self.get_piece_at(pos) {
                    if piece == Piece::Pawn && piece_player == player {
                        let ghost before = rows@;
                        rows.push(row);
                        assert forall|x: i32| #[trigger] rows@.contains(x) <==> (before.contains(x) || x == row) by {
                            if before.contains(x) {
                                let k = choose|k: int| 0 <= k < before.len() && before[k] == x;
                                assert(rows@[k] == x);
                            }
                            if x == row {
                                assert(rows@[before.len() as int] == x);
                            }
                        }
                    }
                }
            }
            row += 1;
        }
        rows
    }
}

} // verus!
