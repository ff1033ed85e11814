//! The mathematical model of a board and the rules of play over it.
//!
//! `BoardState` is what a `Board` means: the grid, the side to move and
//! both hands. Every rule of the engine is a spec function here, and the
//! executable board is proved against these functions.

use vstd::prelude::*;
use crate::piece::{
    Piece, Player, opponent, side_index, promoted_form, base_form, is_promotable, is_promoted,
    is_backward_capable, stock_index, is_stockable,
};
use crate::position::{Position, on_board};

verus! {

/// The saturation bound of a count in hand.
pub const STOCK_MAX: i32 = 2147483647;

/// One step or one slide direction, as (rank delta, file delta).
pub type Dir = (int, int);

/// The rank delta of one step forward for `side`.
pub open spec fn forward(side: Player) -> int {
    match side {
        Player::Black => 1,
        Player::White => -1,
    }
}

/// True when rank `r` lies in the promotion zone of `side`.
pub open spec fn in_zone(r: int, side: Player) -> bool {
    match side {
        Player::Black => r >= 6,
        Player::White => r <= 2,
    }
}

/// The four diagonal directions.
pub open spec fn diagonals() -> Seq<Dir> {
    seq![(-1, -1), (-1, 1), (1, -1), (1, 1)]
}

/// The four orthogonal directions.
pub open spec fn orthogonals() -> Seq<Dir> {
    seq![(-1, 0), (1, 0), (0, -1), (0, 1)]
}

/// The single steps of a kind, oriented for `side`.
pub open spec fn step_dirs(kind: Piece, side: Player) -> Seq<Dir> {
    let f = forward(side);
    match kind {
        Piece::Pawn => seq![(f, 0)],
        Piece::Knight => seq![(2 * f, -1), (2 * f, 1)],
        Piece::Silver => seq![(f, -1), (f, 0), (f, 1), (-f, -1), (-f, 1)],
        Piece::Gold | Piece::PromotedPawn | Piece::PromotedLance | Piece::PromotedKnight
        | Piece::PromotedSilver => seq![(f, -1), (f, 0), (f, 1), (0, -1), (0, 1), (-f, 0)],
        Piece::King => seq![(-1, -1), (-1, 0), (-1, 1), (0, -1), (0, 1), (1, -1), (1, 0), (1, 1)],
        Piece::PromotedBishop => orthogonals(),
        Piece::PromotedRook => diagonals(),
        _ => seq![],
    }
}

/// The sliding directions of a kind, oriented for `side`.
pub open spec fn slide_dirs(kind: Piece, side: Player) -> Seq<Dir> {
    match kind {
        Piece::Lance => seq![(forward(side), 0)],
        Piece::Bishop | Piece::PromotedBishop => diagonals(),
        Piece::Rook | Piece::PromotedRook => orthogonals(),
        _ => seq![],
    }
}

/// A direction that moves by at most one square along each axis.
pub open spec fn unit_dir(d: Dir) -> bool {
    -1 <= d.0 <= 1 && -1 <= d.1 <= 1 && d != (0int, 0int)
}

/// The square `k` steps from (`fr`, `fc`) along `d`.
pub open spec fn ray(fr: int, fc: int, d: Dir, k: int) -> (int, int) {
    (fr + k * d.0, fc + k * d.1)
}

/// Whether a promotion request is honoured for a `kind` of `side` moving
/// from rank `fr` to rank `tr`: pieces that can move backward promote when
/// either end lies in the zone, the others only when they arrive in it.
pub open spec fn promotion_eligible(kind: Piece, side: Player, fr: int, tr: int) -> bool {
    &&& is_promotable(kind)
    &&& !is_promoted(kind)
    &&& if is_backward_capable(kind) {
        in_zone(fr, side) || in_zone(tr, side)
    } else {
        in_zone(tr, side)
    }
}

/// The kind that lands on the destination of a move.
pub open spec fn landing_kind(kind: Piece, side: Player, fr: int, tr: int, promote: bool) -> Piece {
    if promote && promotion_eligible(kind, side, fr, tr) {
        match promoted_form(kind) {
            Some(p) => p,
            None => kind,
        }
    } else {
        kind
    }
}

/// The rank restriction on a drop of `kind` by `side` at rank `r`: a lance
/// never on the last rank, a knight never on the last two.
pub open spec fn drop_rank_allowed(kind: Piece, side: Player, r: int) -> bool {
    match kind {
        Piece::Lance => r != (match side {
            Player::Black => 8int,
            Player::White => 0int,
        }),
        Piece::Knight => match side {
            Player::Black => r != 7 && r != 8,
            Player::White => r != 0 && r != 1,
        },
        _ => true,
    }
}

/// The kind and side on each square of the starting position.
pub open spec fn initial_cell(r: int, c: int) -> (Piece, Player) {
    let back = if c == 0 || c == 8 {
        Piece::Lance
    } else if c == 1 || c == 7 {
        Piece::Knight
    } else if c == 2 || c == 6 {
        Piece::Silver
    } else if c == 3 || c == 5 {
        Piece::Gold
    } else {
        Piece::King
    };
    if r == 0 {
        (back, Player::Black)
    } else if r == 1 && c == 1 {
        (Piece::Bishop, Player::Black)
    } else if r == 1 && c == 7 {
        (Piece::Rook, Player::Black)
    } else if r == 2 {
        (Piece::Pawn, Player::Black)
    } else if r == 6 {
        (Piece::Pawn, Player::White)
    } else if r == 7 && c == 1 {
        (Piece::Rook, Player::White)
    } else if r == 7 && c == 7 {
        (Piece::Bishop, Player::White)
    } else if r == 8 {
        (back, Player::White)
    } else {
        (Piece::Empty, Player::Black)
    }
}

/// The square of index `i` when the squares are numbered rank by rank.
pub open spec fn square_of(i: int) -> Position {
    Position { row: (i / 9) as i32, column: (i % 9) as i32 }
}

/// A board as a mathematical value.
pub struct BoardState {
    /// `cells[r][c]`: the kind and side on rank `r`, file `c`.
    pub cells: Seq<Seq<(Piece, Player)>>,
    /// The side to move.
    pub turn: Player,
    /// `hand[side_index(p)][stock_index(k)]`: how many `k` side `p` holds.
    pub hand: Seq<Seq<int>>,
}

impl BoardState {
    /// Nine ranks of nine files, two hands of eight counts.
    pub open spec fn shaped(self) -> bool {
        &&& self.cells.len() == 9
        &&& forall|r: int| 0 <= r < 9 ==> (#[trigger] self.cells[r]).len() == 9
        &&& self.hand.len() == 2
        &&& forall|i: int| 0 <= i < 2 ==> (#[trigger] self.hand[i]).len() == 8
    }

    pub open spec fn at(self, r: int, c: int) -> (Piece, Player) {
        self.cells[r][c]
    }

    pub open spec fn kind_at(self, r: int, c: int) -> Piece {
        self.at(r, c).0
    }

    pub open spec fn owner_at(self, r: int, c: int) -> Player {
        self.at(r, c).1
    }

    /// A square of the board that holds a piece.
    pub open spec fn occupied(self, r: int, c: int) -> bool {
        on_board(r, c) && self.kind_at(r, c) != Piece::Empty
    }

    /// A square of the board that holds no piece.
    pub open spec fn vacant(self, sq: (int, int)) -> bool {
        on_board(sq.0, sq.1) && self.kind_at(sq.0, sq.1) == Piece::Empty
    }

    /// A square that holds a piece of `side`.
    pub open spec fn holds_own(self, r: int, c: int, side: Player) -> bool {
        self.occupied(r, c) && self.owner_at(r, c) == side
    }

    /// What a square reports: its kind and side where it holds a piece,
    /// `Empty` with `Black` where it is vacant or off the board.
    pub open spec fn info_at(self, r: int, c: int) -> (Piece, Player) {
        if self.occupied(r, c) {
            self.at(r, c)
        } else {
            (Piece::Empty, Player::Black)
        }
    }

    /// How many pieces of `kind` side `side` holds in hand.
    pub open spec fn count(self, side: Player, kind: Piece) -> int {
        if is_stockable(kind) {
            self.hand[side_index(side)][stock_index(kind)]
        } else {
            0
        }
    }

    /// One step along `d` from (`fr`, `fc`) lands on (`tr`, `tc`), a square
    /// of the board without a piece of `side`.
    pub open spec fn step_hits(self, fr: int, fc: int, d: Dir, side: Player, tr: int, tc: int) -> bool {
        &&& tr == fr + d.0
        &&& tc == fc + d.1
        &&& on_board(tr, tc)
        &&& !self.holds_own(tr, tc, side)
    }

    /// Sliding `k` squares along `d` from (`fr`, `fc`) reaches (`tr`, `tc`):
    /// every square passed over is vacant and the last one is on the board
    /// without a piece of `side`.
    pub open spec fn slide_hits_at(
        self,
        fr: int,
        fc: int,
        d: Dir,
        side: Player,
        k: int,
        tr: int,
        tc: int,
    ) -> bool {
        &&& 1 <= k
        &&& (tr, tc) == ray(fr, fc, d, k)
        &&& on_board(tr, tc)
        &&& !self.holds_own(tr, tc, side)
        &&& forall|j: int| 1 <= j < k ==> self.vacant(#[trigger] ray(fr, fc, d, j))
    }

    /// Some slide along `d` reaches (`tr`, `tc`).
    pub open spec fn slide_hits(self, fr: int, fc: int, d: Dir, side: Player, tr: int, tc: int) -> bool {
        exists|k: int| #[trigger] self.slide_hits_at(fr, fc, d, side, k, tr, tc)
    }

    /// Direction `d`, stepped once or slid, reaches (`tr`, `tc`).
    pub open spec fn dir_hits(
        self,
        fr: int,
        fc: int,
        d: Dir,
        sliding: bool,
        side: Player,
        tr: int,
        tc: int,
    ) -> bool {
        if sliding {
            self.slide_hits(fr, fc, d, side, tr, tc)
        } else {
            self.step_hits(fr, fc, d, side, tr, tc)
        }
    }

    /// Some direction of `ds` reaches (`tr`, `tc`).
    pub open spec fn any_dir_hits(
        self,
        fr: int,
        fc: int,
        ds: Seq<Dir>,
        sliding: bool,
        side: Player,
        tr: int,
        tc: int,
    ) -> bool {
        exists|i: int| 0 <= i < ds.len() && #[trigger] self.dir_hits(fr, fc, ds[i], sliding, side, tr, tc)
    }

    /// The movement template of `kind` for `side` reaches (`tr`, `tc`) from
    /// (`fr`, `fc`).
    pub open spec fn template_hits(self, fr: int, fc: int, kind: Piece, side: Player, tr: int, tc: int) -> bool {
        ||| self.any_dir_hits(fr, fc, step_dirs(kind, side), false, side, tr, tc)
        ||| self.any_dir_hits(fr, fc, slide_dirs(kind, side), true, side, tr, tc)
    }

    /// A pawn of `side` moving from (`fr`, `fc`) may not end on file `tc`
    /// where that side already has another unpromoted pawn: the file would
    /// then hold two.
    pub open spec fn pawn_file_blocked(self, fr: int, fc: int, tc: int, side: Player) -> bool {
        &&& 0 <= tc < 9
        &&& self.has_pawn_in_file(tc, side, if tc == fc { fr } else { -1 })
    }

    /// A `kind` of `side` standing on (`fr`, `fc`) reaches (`tr`, `tc`): by
    /// its own template, or, where it is unpromoted and stands in its
    /// promotion zone, by the template of its promoted form; a pawn never
    /// onto a file that already holds another unpromoted pawn of its side.
    pub open spec fn piece_hits(self, fr: int, fc: int, kind: Piece, side: Player, tr: int, tc: int) -> bool {
        &&& {
            ||| self.template_hits(fr, fc, kind, side, tr, tc)
            ||| {
                &&& is_promotable(kind)
                &&& in_zone(fr, side)
                &&& self.template_hits(fr, fc, promoted_form(kind)->Some_0, side, tr, tc)
            }
        }
        &&& !(kind == Piece::Pawn && self.pawn_file_blocked(fr, fc, tc, side))
    }

    /// The piece on (`fr`, `fc`) reaches (`tr`, `tc`).
    pub open spec fn reaches(self, fr: int, fc: int, tr: int, tc: int) -> bool {
        &&& self.occupied(fr, fc)
        &&& self.piece_hits(fr, fc, self.kind_at(fr, fc), self.owner_at(fr, fc), tr, tc)
    }

    /// (`tr`, `tc`) is listed among the destinations of the piece on
    /// (`fr`, `fc`): that piece belongs to the side to move and reaches it.
    pub open spec fn listed_destination(self, fr: int, fc: int, tr: int, tc: int) -> bool {
        &&& self.occupied(fr, fc)
        &&& self.owner_at(fr, fc) == self.turn
        &&& self.reaches(fr, fc, tr, tc)
    }

    /// The destinations listed for the piece on (`fr`, `fc`) among the first
    /// `n` squares, taken rank by rank and file by file from (0, 0).
    pub open spec fn destinations_upto(self, fr: int, fc: int, n: nat) -> Seq<Position>
        decreases n,
    {
        if n == 0 {
            Seq::empty()
        } else {
            let before = self.destinations_upto(fr, fc, (n - 1) as nat);
            let sq = square_of(n - 1);
            if self.listed_destination(fr, fc, sq.row as int, sq.column as int) {
                before.push(sq)
            } else {
                before
            }
        }
    }

    /// The destinations listed for the piece on (`fr`, `fc`), in the order of
    /// the squares: rank by rank, and within a rank file by file.
    pub open spec fn destination_listing(self, fr: int, fc: int) -> Seq<Position> {
        self.destinations_upto(fr, fc, 81)
    }

    /// A move from (`fr`, `fc`) to (`tr`, `tc`) is legal: the origin holds a
    /// piece of the side to move, the destination is on the board and holds
    /// no piece of that side, and the piece reaches it.
    pub open spec fn legal_move(self, fr: int, fc: int, tr: int, tc: int) -> bool {
        &&& self.occupied(fr, fc)
        &&& self.owner_at(fr, fc) == self.turn
        &&& on_board(tr, tc)
        &&& !self.holds_own(tr, tc, self.turn)
        &&& self.reaches(fr, fc, tr, tc)
    }

    /// Side `side` has an unpromoted pawn on file `c` on a rank other than
    /// `except_row`.
    pub open spec fn has_pawn_in_file(self, c: int, side: Player, except_row: int) -> bool {
        exists|r: int|
            0 <= r < 9 && r != except_row && #[trigger] self.at(r, c) == (Piece::Pawn, side)
    }

    /// A drop of `kind` at (`r`, `c`) by the side to move is legal.
    pub open spec fn legal_drop(self, kind: Piece, r: int, c: int) -> bool {
        &&& self.count(self.turn, kind) > 0
        &&& on_board(r, c)
        &&& self.kind_at(r, c) == Piece::Empty
        &&& kind == Piece::Pawn ==> !self.has_pawn_in_file(c, self.turn, -1)
        &&& drop_rank_allowed(kind, self.turn, r)
    }

    /// The state with (`r`, `c`) holding `cell`.
    pub open spec fn with_cell(self, r: int, c: int, cell: (Piece, Player)) -> BoardState {
        BoardState { cells: self.cells.update(r, self.cells[r].update(c, cell)), ..self }
    }

    /// The state with every square vacant.
    pub open spec fn cleared(self) -> BoardState {
        BoardState {
            cells: Seq::new(9, |r: int| Seq::new(9, |c: int| (Piece::Empty, Player::Black))),
            ..self
        }
    }

    /// The state with `side` to move.
    pub open spec fn with_turn(self, side: Player) -> BoardState {
        BoardState { turn: side, ..self }
    }

    /// The state with `n` pieces of stockable `kind` in the hand of `side`.
    pub open spec fn with_count(self, side: Player, kind: Piece, n: int) -> BoardState {
        let i = side_index(side);
        BoardState { hand: self.hand.update(i, self.hand[i].update(stock_index(kind), n)), ..self }
    }

    /// The state after `side` takes a piece whose base form is `kind`; a
    /// count already at `STOCK_MAX` stays there.
    pub open spec fn with_capture(self, side: Player, kind: Piece) -> BoardState {
        let n = self.count(side, kind);
        self.with_count(side, kind, if n < STOCK_MAX { n + 1 } else { n })
    }

    /// The state after the move from (`fr`, `fc`) to (`tr`, `tc`), with
    /// promotion requested or not, where that move is legal.
    pub open spec fn after_move(self, fr: int, fc: int, tr: int, tc: int, promote: bool) -> BoardState {
        let kind = self.kind_at(fr, fc);
        let side = self.owner_at(fr, fc);
        let target = self.at(tr, tc);
        let taken = if target.0 != Piece::Empty && target.1 != side {
            self.with_capture(side, base_form(target.0))
        } else {
            self
        };
        taken.with_cell(tr, tc, (landing_kind(kind, side, fr, tr, promote), side)).with_cell(
            fr,
            fc,
            (Piece::Empty, Player::Black),
        ).with_turn(opponent(self.turn))
    }

    /// The state after the side to move drops `kind` at (`r`, `c`), where
    /// that drop is legal.
    pub open spec fn after_drop(self, kind: Piece, r: int, c: int) -> BoardState {
        self.with_count(self.turn, kind, self.count(self.turn, kind) - 1).with_cell(
            r,
            c,
            (kind, self.turn),
        ).with_turn(opponent(self.turn))
    }

    /// The starting position: pieces as `initial_cell` places them, Black to
    /// move, both hands empty.
    pub open spec fn is_initial(self) -> bool {
        &&& forall|r: int, c: int| on_board(r, c) ==> #[trigger] self.at(r, c) == initial_cell(r, c)
        &&& self.turn == Player::Black
        &&& forall|i: int, j: int| 0 <= i < 2 && 0 <= j < 8 ==> #[trigger] self.hand[i][j] == 0
    }

    /// No side has two unpromoted pawns on one file.
    pub open spec fn two_pawn_free(self) -> bool {
        forall|c: int, r1: int, r2: int|
            0 <= c < 9 && 0 <= r1 < 9 && 0 <= r2 < 9 && (#[trigger] self.at(r1, c)).0 == Piece::Pawn
                && (#[trigger] self.at(r2, c)).0 == Piece::Pawn && self.at(r1, c).1 == self.at(r2, c).1
                ==> r1 == r2
    }

    /// The action is legal here.
    pub open spec fn action_legal(self, a: Action) -> bool {
        match a {
            Action::Move { fr, fc, tr, tc, promote } => self.legal_move(fr, fc, tr, tc),
            Action::Drop { kind, r, c } => self.legal_drop(kind, r, c),
        }
    }

    /// The state after the action.
    pub open spec fn apply(self, a: Action) -> BoardState {
        match a {
            Action::Move { fr, fc, tr, tc, promote } => self.after_move(fr, fc, tr, tc, promote),
            Action::Drop { kind, r, c } => self.after_drop(kind, r, c),
        }
    }

    /// Every action of `acts` is legal in turn.
    pub open spec fn plays_legally(self, acts: Seq<Action>) -> bool
        decreases acts.len(),
    {
        if acts.len() == 0 {
            true
        } else {
            &&& self.action_legal(acts[0])
            &&& self.apply(acts[0]).plays_legally(acts.drop_first())
        }
    }

    /// The state after the actions of `acts`, one after another.
    pub open spec fn play(self, acts: Seq<Action>) -> BoardState
        decreases acts.len(),
    {
        if acts.len() == 0 {
            self
        } else {
            self.apply(acts[0]).play(acts.drop_first())
        }
    }
}

/// A move or a drop, on the model.
pub enum Action {
    Move { fr: int, fc: int, tr: int, tc: int, promote: bool },
    Drop { kind: Piece, r: int, c: int },
}

} // verus!
