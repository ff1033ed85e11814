//! The executable board: a 9x9 grid of cells, the side to move, and the
//! two hands, with the editing operations used to set a position up.

use vstd::prelude::*;
use crate::piece::{
    Piece, Player, side_index, is_stockable, piece_to_index,
};
use crate::position::{Position, on_board};
use crate::state::{BoardState, STOCK_MAX, initial_cell};

verus! {

/// What stands on a square: a kind and its side. An empty square reports
/// `Piece::Empty` with `Player::Black`.
#[derive(Clone, Copy, Debug, PartialEq, Eq, Structural)]
pub struct PieceInfo {
    pub piece: Piece,
    pub player: Player,
}

/// A shogi board.
pub struct Board {
    pieces: [[(Piece, Player); 9]; 9],
    current_player: Player,
    captured_pieces: [[i32; 8]; 2],
}

impl View for Board {
    type V = BoardState;

    closed spec fn view(&self) -> BoardState {
        BoardState {
            cells: Seq::new(9, |r: int| self.pieces[r]@),
            turn: self.current_player,
            hand: Seq::new(2, |i: int| Seq::new(8, |j: int| self.captured_pieces[i][j] as int)),
        }
    }
}

impl Board {
    #[verifier::type_invariant]
    spec fn hands_valid(&self) -> bool {
        forall|i: int, j: int| 0 <= i < 2 && 0 <= j < 8 ==> #[trigger] self.captured_pieces[i][j] >= 0
    }

    /// The model of every board has nine ranks of nine files and two hands
    /// of eight counts.
    pub proof fn lemma_shaped(&self)
        ensures
            self@.shaped(),
    {
    }

    /// Reads a cell.
    pub(crate) fn cell(&self, r: usize, c: usize) -> (cell: (Piece, Player))
        requires
            r < 9,
            c < 9,
        ensures
            cell == self@.at(r as int, c as int),
    {
        self.pieces[r][c]
    }

    /// Writes a cell.
    pub(crate) fn put_cell(&mut self, r: usize, c: usize, cell: (Piece, Player))
        requires
            r < 9,
            c < 9,
        ensures
            final(self)@ == old(self)@.with_cell(r as int, c as int, cell),
    {
        proof {
            use_type_invariant(&*self);
        }
        self.pieces[r][c] = cell;
        assert(self@.cells =~~= old(self)@.with_cell(r as int, c as int, cell).cells);
        assert(self@.hand =~~= old(self)@.hand);
    }

    /// Places the starting position on the squares it occupies; every other
    /// square keeps what it held.
    fn initialize(&mut self)
        ensures
            final(self)@.turn == old(self)@.turn,
            final(self)@.hand == old(self)@.hand,
            forall|r: int, c: int|
                on_board(r, c) ==> #[trigger] final(self)@.at(r, c) == if initial_cell(r, c).0
                    != Piece::Empty {
                    initial_cell(r, c)
                } else {
                    old(self)@.at(r, c)
                },
    {
        proof {
            use_type_invariant(&*self);
        }
        self.pieces[0] = [
            (Piece::Lance, Player::Black),
            (Piece::Knight, Player::Black),
            (Piece::Silver, Player::Black),
            (Piece::Gold, Player::Black),
            (Piece::King, Player::Black),
            (Piece::Gold, Player::Black),
            (Piece::Silver, Player::Black),
            (Piece::Knight, Player::Black),
            (Piece::Lance, Player::Black),
        ];
        self.pieces[1][1] = (Piece::Bishop, Player::Black);
        self.pieces[1][7] = (Piece::Rook, Player::Black);
        self.pieces[2] = [(Piece::Pawn, Player::Black); 9];
        self.pieces[8] = [
            (Piece::Lance, Player::White),
            (Piece::Knight, Player::White),
            (Piece::Silver, Player::White),
            (Piece::Gold, Player::White),
            (Piece::King, Player::White),
            (Piece::Gold, Player::White),
            (Piece::Silver, Player::White),
            (Piece::Knight, Player::White),
            (Piece::Lance, Player::White),
        ];
        self.pieces[7][1] = (Piece::Rook, Player::White);
        self.pieces[7][7] = (Piece::Bishop, Player::White);
        self.pieces[6] = [(Piece::Pawn, Player::White); 9];
        assert(self@.hand =~~= old(self)@.hand);
    }

    /// Makes a board in the starting position.
    pub fn new() -> (b: Board)
        ensures
            b@.is_initial(),
    {
        let mut board = Board {
            pieces: [[(Piece::Empty, Player::Black); 9]; 9],
            current_player: Player::Black,
            captured_pieces: [[0i32; 8]; 2],
        };
        board.initialize();
        board
    }

    /// The piece on `pos`, or `None` where `pos` is off the board or vacant.
    pub(crate) fn get_piece_at(&self, pos: Position) -> (r: Option<(Piece, Player)>)
        ensures
            r == if self@.occupied(pos.row as int, pos.column as int) {
                Some(self@.at(pos.row as int, pos.column as int))
            } else {
                None
            },
    {
        if !pos.is_valid() {
            return None;
        }
        let (piece, player) = self.pieces[pos.row as usize][pos.column as usize];
        if piece == Piece::Empty {
            None
        } else {
            Some((piece, player))
        }
    }

    /// Reports what stands on `position`.
    pub fn get_piece(&self, position: Position) -> (r: PieceInfo)
        ensures
            (r.piece, r.player) == self@.info_at(position.row as int, position.column as int),
    {
        match self.get_piece_at(position) {
            Some((piece, player)) => PieceInfo { piece, player },
            None => PieceInfo { piece: Piece::Empty, player: Player::Black },
        }
    }

    /// Reports what stands on the square that `Position::new(row, col)` names.
    pub fn get_piece_by_coords(&self, row: i32, col: i32) -> (r: PieceInfo)
        ensures
            ({
                let sq = Position::clamped(row as int, col as int);
                (r.piece, r.player) == self@.info_at(sq.0, sq.1)
            }),
    {
        let position = Position::new(row, col);
        self.get_piece(position)
    }

    /// Returns the side to move.
    pub fn get_current_player(&self) -> (r: Player)
        ensures
            r == self@.turn,
    {
        self.current_player
    }

    /// Sets the side to move.
    pub fn set_current_player(&mut self, player: Player)
        ensures
            final(self)@ == old(self)@.with_turn(player),
    {
        proof {
            use_type_invariant(&*self);
        }
        self.current_player = player;
        assert(self@.cells =~~= old(self)@.cells);
        assert(self@.hand =~~= old(self)@.hand);
    }

    /// Returns a copy of the board.
    pub fn clone(&self) -> (r: Board)
        ensures
            r@ == self@,
    {
        proof {
            use_type_invariant(self);
        }
        Board {
            pieces: self.pieces,
            current_player: self.current_player,
            captured_pieces: self.captured_pieces,
        }
    }

    /// Puts `piece` of `player` on `position`, bypassing the rules; fails,
    /// changing nothing, where `position` is off the board.
    pub fn set_piece(&mut self, position: Position, piece: Piece, player: Player) -> (r: bool)
        ensures
            r == position.valid(),
            r ==> final(self)@ == old(self)@.with_cell(
                position.row as int,
                position.column as int,
                (piece, player),
            ),
            !r ==> *final(self) == *old(self),
    {
        if !position.is_valid() {
            return false;
        }
        self.put_cell(position.row as usize, position.column as usize, (piece, player));
        true
    }

    /// Puts `piece` of `player` on the square that `Position::new(row, col)`
    /// names, bypassing the rules.
    pub fn set_piece_by_coords(&mut self, row: i32, col: i32, piece: Piece, player: Player) -> (r: bool)
        ensures
            r,
            ({
                let sq = Position::clamped(row as int, col as int);
                final(self)@ == old(self)@.with_cell(sq.0, sq.1, (piece, player))
            }),
    {
        let position = Position::new(row, col);
        self.set_piece(position, piece, player)
    }

    /// Empties `position`; fails, changing nothing, where it is off the board.
    pub fn clear_square(&mut self, position: Position) -> (r: bool)
        ensures
            r == position.valid(),
            r ==> final(self)@ == old(self)@.with_cell(
                position.row as int,
                position.column as int,
                (Piece::Empty, Player::Black),
            ),
            !r ==> *final(self) == *old(self),
    {
        if !position.is_valid() {
            return false;
        }
        self.put_cell(position.row as usize, position.column as usize, (Piece::Empty, Player::Black));
        true
    }

    /// Empties the square that `Position::new(row, col)` names.
    pub fn clear_square_by_coords(&mut self, row: i32, col: i32) -> (r: bool)
        ensures
            r,
            ({
                let sq = Position::clamped(row as int, col as int);
                final(self)@ == old(self)@.with_cell(sq.0, sq.1, (Piece::Empty, Player::Black))
            }),
    {
        let position = Position::new(row, col);
        self.clear_square(position)
    }

    /// Empties every square; the side to move and the hands stay.
    pub fn clear_board(&mut self)
        ensures
            final(self)@ == old(self)@.cleared(),
    {
        proof {
            use_type_invariant(&*self);
        }
        self.pieces = [[(Piece::Empty, Player::Black); 9]; 9];
        assert(self@.cells =~~= old(self)@.cleared().cells);
        assert(self@.hand =~~= old(self)@.hand);
    }

    /// Sets the starting position up again: pieces, Black to move, empty hands.
    pub fn reset_to_initial_position(&mut self)
        ensures
            final(self)@.is_initial(),
    {
        self.clear_board();
        proof {
            use_type_invariant(&*self);
        }
        self.current_player = Player::Black;
        self.captured_pieces = [[0i32; 8]; 2];
        self.initialize();
    }

    /// The row of `player` in the captured-piece table.
    fn player_index(player: Player) -> (r: usize)
        ensures
            r == side_index(player),
    {
        if player == Player::Black {
            0
        } else {
            1
        }
    }

    /// Returns how many pieces of `piece` `player` holds; 0 for a kind that
    /// cannot be held.
    pub fn get_captured_piece_count(&self, player: Player, piece: Piece) -> (r: i32)
        ensures
            r == self@.count(player, piece),
            r >= 0,
    {
        proof {
            use_type_invariant(self);
        }
        let player_index = Board::player_index(player);
        let piece_index = piece_to_index(piece);
        if piece_index >= 0 && piece_index < 8 {
            self.captured_pieces[player_index][piece_index as usize]
        } else {
            0
        }
    }

    /// Adds one `piece` to the hand of `player`; a count already at
    /// `STOCK_MAX` stays there, and a kind that cannot be held is ignored.
    pub fn add_captured_piece(&mut self, player: Player, piece: Piece)
        ensures
            final(self)@ == if is_stockable(piece) {
                old(self)@.with_capture(player, piece)
            } else {
                old(self)@
            },
    {
        proof {
            use_type_invariant(&*self);
        }
        let player_index = Board::player_index(player);
        let piece_index = piece_to_index(piece);
        if piece_index >= 0 && piece_index < 8 {
            let n = self.captured_pieces[player_index][piece_index as usize];
            if n < STOCK_MAX {
                self.captured_pieces[player_index][piece_index as usize] = n + 1;
            }
        }
        proof {
            assert(self@.cells =~~= old(self)@.cells);
            if is_stockable(piece) {
                assert(self@.hand =~~= old(self)@.with_capture(player, piece).hand);
            } else {
                assert(self@.hand =~~= old(self)@.hand);
            }
        }
    }

    /// Takes one `piece` out of the hand of `player`; fails, changing
    /// nothing, where the hand holds none.
    pub fn use_captured_piece(&mut self, player: Player, piece: Piece) -> (r: bool)
        ensures
            r == (old(self)@.count(player, piece) > 0),
            r ==> final(self)@ == old(self)@.with_count(
                player,
                piece,
                old(self)@.count(player, piece) - 1,
            ),
            !r ==> *final(self) == *old(self),
    {
        proof {
            use_type_invariant(&*self);
        }
        let player_index = Board::player_index(player);
        let piece_index = piece_to_index(piece);
        if piece_index >= 0 && piece_index < 8 {
            if self.captured_pieces[player_index][piece_index as usize] > 0 {
                self.captured_pieces[player_index][piece_index as usize] -= 1;
                assert(self@.cells =~~= old(self)@.cells);
                assert(self@.hand =~~= old(self)@.with_count(
                    player,
                    piece,
                    old(self)@.count(player, piece) - 1,
                ).hand);
                true
            } else {
                false
            }
        } else {
            false
        }
    }

    /// Sets how many `piece` `player` holds, bypassing the rules; fails,
    /// changing nothing, for a kind that cannot be held or a negative count.
    pub fn set_captured_piece_count(&mut self, player: Player, piece: Piece, count: i32) -> (r: bool)
        ensures
            r == (is_stockable(piece) && count >= 0),
            r ==> final(self)@ == old(self)@.with_count(player, piece, count as int),
            !r ==> *final(self) == *old(self),
    {
        proof {
            use_type_invariant(&*self);
        }
        let player_index = Board::player_index(player);
        let piece_index = piece_to_index(piece);
        if piece_index >= 0 && piece_index < 8 && count >= 0 {
            self.captured_pieces[player_index][piece_index as usize] = count;
            assert(self@.cells =~~= old(self)@.cells);
            assert(self@.hand =~~= old(self)@.with_count(player, piece, count as int).hand);
            true
        } else {
            false
        }
    }

    /// Empties the hand of `player`.
    pub fn clear_captured_pieces(&mut self, player: Player)
        ensures
            final(self)@.cells == old(self)@.cells,
            final(self)@.turn == old(self)@.turn,
            final(self)@.hand == old(self)@.hand.update(
                side_index(player),
                Seq::new(8, |j: int| 0int),
            ),
    {
        proof {
            use_type_invariant(&*self);
        }
        let player_index = Board::player_index(player);
        self.captured_pieces[player_index] = [0i32; 8];
        assert(self@.cells =~~= old(self)@.cells);
        assert(self@.hand =~~= old(self)@.hand.update(
            side_index(player),
            Seq::new(8, |j: int| 0int),
        ));
    }

    /// Returns both hands as sixteen counts: Black's eight, then White's, each
    /// in the order pawn, lance, knight, silver, gold, bishop, rook, king.
    pub fn get_all_captured_pieces(&self) -> (r: Vec<i32>)
        ensures
            r@.len() == 16,
            forall|i: int, j: int|
                0 <= i < 2 && 0 <= j < 8 ==> r@[8 * i + j] == #[trigger] self@.hand[i][j],
    {
        let mut result: Vec<i32> = Vec::new();
        let mut player_index: usize = 0;
        while player_index < 2
            invariant
                player_index <= 2,
                result@.len() == 8 * player_index,
                forall|i: int, j: int|
                    0 <= i < player_index && 0 <= j < 8 ==> result@[8 * i + j]
                        == #[trigger] self@.hand[i][j],
            decreases 2 - player_index,
        {
            let mut piece_index: usize = 0;
            while piece_index < 8
                invariant
                    player_index < 2,
                    piece_index <= 8,
                    result@.len() == 8 * player_index + piece_index,
                    forall|i: int, j: int|
                        0 <= i < player_index && 0 <= j < 8 ==> result@[8 * i + j]
                            == #[trigger] self@.hand[i][j],
                    forall|j: int|
                        0 <= j < piece_index ==> result@[8 * player_index + j]
                            == #[trigger] self@.hand[player_index as int][j],
                decreases 8 - piece_index,
            {
                result.push(self.captured_pieces[player_index][piece_index]);
                piece_index += 1;
            }
            player_index += 1;
        }
        result
    }
}

} // verus!
