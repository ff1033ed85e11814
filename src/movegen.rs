//! The move generator: the squares a piece may move to.

use vstd::prelude::*;
use crate::piece::{Piece, Player, get_promoted_piece};
use crate::position::{Position, on_board};
use crate::state::{Dir, step_dirs, slide_dirs, unit_dir, ray, in_zone, square_of};
use crate::board::Board;

verus! {

/// Directions as the executable tables hold them, read as integers.
pub open spec fn dirs_view(v: Seq<(i32, i32)>) -> Seq<Dir> {
    v.map_values(|d: (i32, i32)| (d.0 as int, d.1 as int))
}

/// A direction small enough to step from any square without overflow.
pub open spec fn short_dir(d: Dir) -> bool {
    -2 <= d.0 <= 2 && -2 <= d.1 <= 2
}

/// The single steps of `piece` for `player`.
fn step_directions(piece: Piece, player: Player) -> (v: Vec<(i32, i32)>)
    ensures
        dirs_view(v@) == step_dirs(piece, player),
        forall|i: int| 0 <= i < v@.len() ==> short_dir(#[trigger] dirs_view(v@)[i]),
{
    let f: i32 = if player == Player::Black {
        1
    } else {
        -1
    };
    let b: i32 = -f;
    let v = match piece {
        Piece::Pawn => vec![(f, 0)],
        Piece::Knight => vec![(2 * f, -1), (2 * f, 1)],
        Piece::Silver => vec![(f, -1), (f, 0), (f, 1), (b, -1), (b, 1)],
        Piece::Gold | Piece::PromotedPawn | Piece::PromotedLance | Piece::PromotedKnight
        | Piece::PromotedSilver => vec![(f, -1), (f, 0), (f, 1), (0, -1), (0, 1), (b, 0)],
        Piece::King => vec![(-1, -1), (-1, 0), (-1, 1), (0, -1), (0, 1), (1, -1), (1, 0), (1, 1)],
        Piece::PromotedBishop => vec![(-1, 0), (1, 0), (0, -1), (0, 1)],
        Piece::PromotedRook => vec![(-1, -1), (-1, 1), (1, -1), (1, 1)],
        _ => Vec::new(),
    };
    assert(dirs_view(v@) =~= step_dirs(piece, player));
    v
}

/// The sliding directions of `piece` for `player`.
fn slide_directions(piece: Piece, player: Player) -> (v: Vec<(i32, i32)>)
    ensures
        dirs_view(v@) == slide_dirs(piece, player),
        forall|i: int| 0 <= i < v@.len() ==> unit_dir(#[trigger] dirs_view(v@)[i]),
{
    let f: i32 = if player == Player::Black {
        1
    } else {
        -1
    };
    let v = match piece {
        Piece::Lance => vec![(f, 0)],
        Piece::Bishop | Piece::PromotedBishop => vec![(-1, -1), (-1, 1), (1, -1), (1, 1)],
        Piece::Rook | Piece::PromotedRook => vec![(-1, 0), (1, 0), (0, -1), (0, 1)],
        _ => Vec::new(),
    };
    assert(dirs_view(v@) =~= slide_dirs(piece, player));
    v
}

/// Returns whether `v` holds `p`.
pub(crate) fn list_contains(v: &Vec<Position>, p: Position) -> (r: bool)
    ensures
        r == v@.contains(p),
{
    let mut i: usize = 0;
    while i < v.len()
        invariant
            i <= v@.len(),
            forall|j: int| 0 <= j < i ==> v@[j] != p,
        decreases v@.len() - i,
    {
        if v[i] == p {
            return true;
        }
        i += 1;
    }
    false
}

/// Appends `p` unless `moves` already holds it.
fn add_unique(moves: &mut Vec<Position>, p: Position)
    ensures
        forall|q: Position| #[trigger] final(moves)@.contains(q) <==> (old(moves)@.contains(q) || q == p),
        old(moves)@.no_duplicates() ==> final(moves)@.no_duplicates(),
{
    let mut i: usize = 0;
    while i < moves.len()
        invariant
            i <= moves@.len(),
            forall|j: int| 0 <= j < i ==> moves@[j] != p,
        decreases moves@.len() - i,
    {
        if moves[i] == p {
            return;
        }
        i += 1;
    }
    moves.push(p);
    assert(forall|q: Position| #[trigger] moves@.contains(q) <==> (old(moves)@.contains(q) || q == p)) by {
        assert(moves@ == old(moves)@.push(p));
        assert forall|q: Position| old(moves)@.contains(q) implies #[trigger] moves@.contains(q) by {
            let j = choose|j: int| 0 <= j < old(moves)@.len() && old(moves)@[j] == q;
            assert(moves@[j] == q);
        }
        assert(moves@[old(moves)@.len() as int] == p);
    }
}

/// One more step along `d` adds `d` to the square reached.
proof fn lemma_ray_next(fr: int, fc: int, d: Dir, k: int)
    ensures
        ray(fr, fc, d, k + 1) == (ray(fr, fc, d, k).0 + d.0, ray(fr, fc, d, k).1 + d.1),
{
    assert((k + 1) * d.0 == k * d.0 + d.0) by (nonlinear_arith);
    assert((k + 1) * d.1 == k * d.1 + d.1) by (nonlinear_arith);
}

/// A ray from a square of the board leaves the board within nine steps.
proof fn lemma_ray_bounded(fr: int, fc: int, d: Dir, k: int)
    requires
        unit_dir(d),
        on_board(fr, fc),
        k >= 1,
        on_board(ray(fr, fc, d, k).0, ray(fr, fc, d, k).1),
    ensures
        k <= 8,
{
    if d.0 == 1 {
        assert(k * d.0 == k) by (nonlinear_arith)
            requires
                d.0 == 1,
        ;
    } else if d.0 == -1 {
        assert(k * d.0 == -k) by (nonlinear_arith)
            requires
                d.0 == -1,
        ;
    } else if d.1 == 1 {
        assert(k * d.1 == k) by (nonlinear_arith)
            requires
                d.1 == 1,
        ;
    } else {
        assert(k * d.1 == -k) by (nonlinear_arith)
            requires
                d.1 == -1,
        ;
    }
}

impl Board {
    /// Returns whether `pos` holds no piece of `player`.
    pub(crate) fn is_empty_or_opponent(&self, pos: Position, player: Player) -> (r: bool)
        ensures
            r == !self@.holds_own(pos.row as int, pos.column as int, player),
    {
        if let Some((_, piece_player)) = self.get_piece_at(pos) {
            piece_player != player
        } else {
            true
        }
    }

    /// Adds to `moves` the squares that one step along some direction of
    /// `dirs` reaches from `from`.
    fn add_step_moves(&self, from: Position, dirs: &Vec<(i32, i32)>, player: Player, moves: &mut Vec<Position>)
        requires
            from.valid(),
            forall|i: int| 0 <= i < dirs@.len() ==> short_dir(#[trigger] dirs_view(dirs@)[i]),
            old(moves)@.no_duplicates(),
        ensures
            final(moves)@.no_duplicates(),
            forall|q: Position| #[trigger]
                final(moves)@.contains(q) <==> (old(moves)@.contains(q) || self@.any_dir_hits(
                    from.row as int,
                    from.column as int,
                    dirs_view(dirs@),
                    false,
                    player,
                    q.row as int,
                    q.column as int,
                )),
    {
        let ghost fr = from.row as int;
        let ghost fc = from.column as int;
        let ghost ds = dirs_view(dirs@);
        let mut i: usize = 0;
        while i < dirs.len()
            invariant
                i <= dirs@.len(),
                from.valid(),
                fr == from.row,
                fc == from.column,
                ds == dirs_view(dirs@),
                forall|j: int| 0 <= j < dirs@.len() ==> short_dir(#[trigger] dirs_view(dirs@)[j]),
                moves@.no_duplicates(),
                forall|q: Position| #[trigger]
                    moves@.contains(q) <==> (old(moves)@.contains(q) || exists|k: int|
                        0 <= k < i && #[trigger] self@.dir_hits(
                            fr,
                            fc,
                            ds[k],
                            false,
                            player,
                            q.row as int,
                            q.column as int,
                        )),
            decreases dirs@.len() - i,
        {
            let (dr, dc) = dirs[i];
            assert(ds[i as int] == (dr as int, dc as int));
            assert(short_dir(ds[i as int]));
            let ghost before = moves@;
            let new_row = from.row + dr;
            let new_col = from.column + dc;
            if new_row >= 0 && new_row < 9 && new_col >= 0 && new_col < 9 {
                let new_pos = Position::new(new_row, new_col);
                if self.is_empty_or_opponent(new_pos, player) {
                    add_unique(moves, new_pos);
                }
            }
            assert forall|q: Position| #[trigger]
                moves@.contains(q) <==> (old(moves)@.contains(q) || exists|k: int|
                    0 <= k < i + 1 && #[trigger] self@.dir_hits(
                        fr,
                        fc,
                        ds[k],
                        false,
                        player,
                        q.row as int,
                        q.column as int,
                    )) by {
                if self@.dir_hits(fr, fc, ds[i as int], false, player, q.row as int, q.column as int) {
                    assert(q == Position { row: new_row, column: new_col });
                }
            }
            i += 1;
        }
    }

    /// Adds to `moves` the squares that a slide along `d` reaches from
    /// `from`: each vacant square in turn, and the first occupied one where
    /// it holds a piece of the other side.
    fn add_slide_moves_along(&self, from: Position, dr: i32, dc: i32, player: Player, moves: &mut Vec<Position>)
        requires
            from.valid(),
            unit_dir((dr as int, dc as int)),
            old(moves)@.no_duplicates(),
        ensures
            final(moves)@.no_duplicates(),
            forall|q: Position| #[trigger]
                final(moves)@.contains(q) <==> (old(moves)@.contains(q) || self@.slide_hits(
                    from.row as int,
                    from.column as int,
                    (dr as int, dc as int),
                    player,
                    q.row as int,
                    q.column as int,
                )),
    {
        let ghost fr = from.row as int;
        let ghost fc = from.column as int;
        let ghost d: Dir = (dr as int, dc as int);
        let mut current_row = from.row + dr;
        let mut current_col = from.column + dc;
        let ghost mut k: int = 1;
        proof {
            lemma_ray_next(fr, fc, d, 0);
        }
        loop
            invariant_except_break
                1 <= k <= 9,
                (current_row as int, current_col as int) == ray(fr, fc, d, k),
                -1 <= current_row <= 9,
                -1 <= current_col <= 9,
                forall|j: int| 1 <= j < k ==> self@.vacant(#[trigger] ray(fr, fc, d, j)),
                moves@.no_duplicates(),
                forall|q: Position| #[trigger]
                    moves@.contains(q) <==> (old(moves)@.contains(q) || exists|j: int|
                        1 <= j < k && #[trigger] ray(fr, fc, d, j) == (q.row as int, q.column as int)),
            invariant
                from.valid(),
                fr == from.row,
                fc == from.column,
                d == (dr as int, dc as int),
                unit_dir(d),
            ensures
                moves@.no_duplicates(),
                forall|q: Position| #[trigger]
                    moves@.contains(q) <==> (old(moves)@.contains(q) || self@.slide_hits(
                        fr,
                        fc,
                        d,
                        player,
                        q.row as int,
                        q.column as int,
                    )),
            decreases 9 - k,
        {
            if !(current_row >= 0 && current_row < 9 && current_col >= 0 && current_col < 9) {
                proof {
                    assert forall|q: Position| #[trigger]
                        moves@.contains(q) <==> (old(moves)@.contains(q) || self@.slide_hits(
                            fr,
                            fc,
                            d,
                            player,
                            q.row as int,
                            q.column as int,
                        )) by {
                        if self@.slide_hits(fr, fc, d, player, q.row as int, q.column as int) {
                            let m = choose|m: int| #[trigger]
                                self@.slide_hits_at(fr, fc, d, player, m, q.row as int, q.column as int);
                            if m > k {
                                // a longer slide would pass over square k, off the board
                                assert(self@.vacant(ray(fr, fc, d, k)));
                            }
                            if m < k {
                                assert(ray(fr, fc, d, m) == (q.row as int, q.column as int));
                            }
                        }
                        if moves@.contains(q) && !old(moves)@.contains(q) {
                            let j = choose|j: int|
                                1 <= j < k && #[trigger] ray(fr, fc, d, j) == (q.row as int, q.column as int);
                            assert(self@.slide_hits_at(fr, fc, d, player, j, q.row as int, q.column as int));
                        }
                    }
                }
                break;
            }
            proof {
                lemma_ray_bounded(fr, fc, d, k);
                lemma_ray_next(fr, fc, d, k);
            }
            let new_pos = Position::new(current_row, current_col);
            if let Some((_, piece_player)) = self.get_piece_at(new_pos) {
                if piece_player != player {
                    add_unique(moves, new_pos);
                }
                assert forall|q: Position| #[trigger]
                    moves@.contains(q) <==> (old(moves)@.contains(q) || self@.slide_hits(
                        fr,
                        fc,
                        d,
                        player,
                        q.row as int,
                        q.column as int,
                    )) by {
                    if self@.slide_hits(fr, fc, d, player, q.row as int, q.column as int) {
                        let m = choose|m: int| #[trigger]
                            self@.slide_hits_at(fr, fc, d, player, m, q.row as int, q.column as int);
                        if m > k {
                            // a longer slide would pass over the occupied square k
                            assert(self@.vacant(ray(fr, fc, d, k)));
                        }
                    }
                    if moves@.contains(q) && !old(moves)@.contains(q) {
                        if q == new_pos {
                            assert(self@.slide_hits_at(fr, fc, d, player, k, q.row as int, q.column as int));
                        } else {
                            let j = choose|j: int|
                                1 <= j < k && #[trigger] ray(fr, fc, d, j) == (q.row as int, q.column as int);
                            assert(self@.slide_hits_at(fr, fc, d, player, j, q.row as int, q.column as int));
                        }
                    }
                }
                break;
            }
            add_unique(moves, new_pos);
            current_row += dr;
            current_col += dc;
            proof {
                k = k + 1;
            }
        }
    }

    /// Adds to `moves` the squares that a slide along some direction of
    /// `directions` reaches from `from`.
    fn add_sliding_moves(
        &self,
        from: Position,
        directions: Vec<(i32, i32)>,
        player: Player,
        moves: &mut Vec<Position>,
    )
        requires
            from.valid(),
            forall|i: int| 0 <= i < directions@.len() ==> unit_dir(#[trigger] dirs_view(directions@)[i]),
            old(moves)@.no_duplicates(),
        ensures
            final(moves)@.no_duplicates(),
            forall|q: Position| #[trigger]
                final(moves)@.contains(q) <==> (old(moves)@.contains(q) || self@.any_dir_hits(
                    from.row as int,
                    from.column as int,
                    dirs_view(directions@),
                    true,
                    player,
                    q.row as int,
                    q.column as int,
                )),
    {
        let ghost fr = from.row as int;
        let ghost fc = from.column as int;
        let ghost ds = dirs_view(directions@);
        let mut i: usize = 0;
        while i < directions.len()
            invariant
                i <= directions@.len(),
                from.valid(),
                fr == from.row,
                fc == from.column,
                ds == dirs_view(directions@),
                forall|j: int| 0 <= j < directions@.len() ==> unit_dir(#[trigger] dirs_view(directions@)[j]),
                moves@.no_duplicates(),
                forall|q: Position| #[trigger]
                    moves@.contains(q) <==> (old(moves)@.contains(q) || exists|k: int|
                        0 <= k < i && #[trigger] self@.dir_hits(
                            fr,
                            fc,
                            ds[k],
                            true,
                            player,
                            q.row as int,
                            q.column as int,
                        )),
            decreases directions@.len() - i,
        {
            let (dr, dc) = directions[i];
            assert(ds[i as int] == (dr as int, dc as int));
            assert(unit_dir(ds[i as int]));
            self.add_slide_moves_along(from, dr, dc, player, moves);
            assert forall|q: Position| #[trigger]
                moves@.contains(q) <==> (old(moves)@.contains(q) || exists|k: int|
                    0 <= k < i + 1 && #[trigger] self@.dir_hits(
                        fr,
                        fc,
                        ds[k],
                        true,
                        player,
                        q.row as int,
                        q.column as int,
                    )) by {
                if self@.dir_hits(fr, fc, ds[i as int], true, player, q.row as int, q.column as int) {
                    assert(self@.slide_hits(fr, fc, (dr as int, dc as int), player, q.row as int, q.column as int));
                }
            }
            i += 1;
        }
    }

    /// Adds to `moves` the squares that the template of `piece` for
    /// `player` reaches from `from`.
    fn add_template_moves(&self, from: Position, piece: Piece, player: Player, moves: &mut Vec<Position>)
        requires
            from.valid(),
            old(moves)@.no_duplicates(),
        ensures
            final(moves)@.no_duplicates(),
            forall|q: Position| #[trigger]
                final(moves)@.contains(q) <==> (old(moves)@.contains(q) || self@.template_hits(
                    from.row as int,
                    from.column as int,
                    piece,
                    player,
                    q.row as int,
                    q.column as int,
                )),
    {
        let steps = step_directions(piece, player);
        self.add_step_moves(from, &steps, player, moves);
        let slides = slide_directions(piece, player);
        self.add_sliding_moves(from, slides, player, moves);
    }

    /// The squares that `piece` of `player` standing on `from` reaches: its
    /// own template, and where it is unpromoted and stands in its promotion
    /// zone, the template of its promoted form too. Each square is listed once.
    pub(crate) fn get_piece_moves(&self, from: Position, piece: Piece, player: Player) -> (moves: Vec<Position>)
        requires
            from.valid(),
        ensures
            moves@.no_duplicates(),
            forall|q: Position| #[trigger]
                moves@.contains(q) <==> self@.piece_hits(
                    from.row as int,
                    from.column as int,
                    piece,
                    player,
                    q.row as int,
                    q.column as int,
                ),
    {
        let mut moves: Vec<Position> = Vec::new();
        self.add_template_moves(from, piece, player, &mut moves);
        let in_zone_now = if player == Player::Black {
            from.row >= 6
        } else {
            from.row <= 2
        };
        assert(in_zone_now == in_zone(from.row as int, player));
        if in_zone_now {
            if let Some(promoted) = get_promoted_piece(piece) {
                self.add_template_moves(from, promoted, player, &mut moves);
            }
        }
        if piece == Piece::Pawn {
            moves = self.without_doubled_pawn_files(from, player, moves);
        }
        moves
    }

    /// Keeps the squares of `moves` to which a pawn of `player` on `from`
    /// may go without joining another unpromoted pawn of its side on a file.
    fn without_doubled_pawn_files(&self, from: Position, player: Player, moves: Vec<Position>) -> (kept: Vec<
        Position,
    >)
        requires
            from.valid(),
        ensures
            kept@.no_duplicates(),
            forall|q: Position| #[trigger]
                kept@.contains(q) <==> (moves@.contains(q) && !self@.pawn_file_blocked(
                    from.row as int,
                    from.column as int,
                    q.column as int,
                    player,
                )),
    {
        let mut kept: Vec<Position> = Vec::new();
        let mut i: usize = 0;
        while i < moves.len()
            invariant
                i <= moves@.len(),
                kept@.no_duplicates(),
                forall|q: Position| #[trigger]
                    kept@.contains(q) <==> ((exists|j: int| 0 <= j < i && #[trigger] moves@[j] == q)
                        && !self@.pawn_file_blocked(from.row as int, from.column as int, q.column as int, player)),
            decreases moves@.len() - i,
        {
            let p = moves[i];
            let except_row = if p.column == from.column {
                from.row
            } else {
                -1
            };
            let blocked = p.column >= 0 && p.column < 9 && self.has_pawn_in_column_except(
                p.column,
                player,
                except_row,
            );
            if !blocked {
                add_unique(&mut kept, p);
            }
            assert forall|q: Position| #[trigger]
                kept@.contains(q) <==> ((exists|j: int| 0 <= j < i + 1 && #[trigger] moves@[j] == q)
                    && !self@.pawn_file_blocked(from.row as int, from.column as int, q.column as int, player)) by {
                if q == p {
                    assert(moves@[i as int] == q);
                }
            }
            i += 1;
        }
        assert forall|q: Position| #[trigger] moves@.contains(q) <==> (exists|j: int|
            0 <= j < moves@.len() && #[trigger] moves@[j] == q) by {
            if moves@.contains(q) {
                let j = choose|j: int| 0 <= j < moves@.len() && moves@[j] == q;
                assert(moves@[j] == q);
            }
        }
        kept
    }

    /// Lists the squares the piece on `from` may move to, rank by rank and
    /// file by file; nothing where `from` is off the board, vacant, or holds a
    /// piece of the side not to move.
    pub fn get_valid_moves(&self, from: Position) -> (r: Vec<Position>)
        ensures
            r@ == self@.destination_listing(from.row as int, from.column as int),
            r@.no_duplicates(),
            forall|q: Position| #[trigger]
                r@.contains(q) <==> self@.listed_destination(
                    from.row as int,
                    from.column as int,
                    q.row as int,
                    q.column as int,
                ),
    {
        let ghost fr = from.row as int;
        let ghost fc = from.column as int;
        let candidates: Vec<Position> = match self.get_piece_at(from) {
            Some((piece, player)) => {
                if player == self.get_current_player() {
                    self.get_piece_moves(from, piece, player)
                } else {
                    Vec::new()
                }
            },
            None => Vec::new(),
        };
        let mut result: Vec<Position> = Vec::new();
        let mut i: usize = 0;
        while i < 81
            invariant
                i <= 81,
                fr == from.row,
                fc == from.column,
                forall|q: Position| #[trigger]
                    candidates@.contains(q) <==> self@.listed_destination(fr, fc, q.row as int, q.column as int),
                result@ == self@.destinations_upto(fr, fc, i as nat),
                result@.no_duplicates(),
                forall|q: Position| #[trigger]
                    result@.contains(q) <==> (q.valid() && 9 * q.row + q.column < i
                        && self@.listed_destination(fr, fc, q.row as int, q.column as int)),
            decreases 81 - i,
        {
            let sq = Position { row: (i / 9) as i32, column: (i % 9) as i32 };
            assert(sq == square_of(i as int));
            assert(9 * sq.row + sq.column == i);
            assert forall|q: Position| q.valid() && 9 * q.row + q.column == i implies q == sq by {
                assert(q.row == i / 9 && q.column == i % 9) by (nonlinear_arith)
                    requires
                        0 <= q.column < 9,
                        0 <= q.row,
                        9 * q.row + q.column == i,
                ;
            }
            if list_contains(&candidates, sq) {
                assert(!result@.contains(sq));
                let ghost before = result@;
                result.push(sq);
                assert forall|q: Position| #[trigger] result@.contains(q) <==> (before.contains(q) || q == sq) by {
                    if before.contains(q) {
                        let k = choose|k: int| 0 <= k < before.len() && before[k] == q;
                        assert(result@[k] == q);
                    }
                    if q == sq {
                        assert(result@[before.len() as int] == sq);
                    }
                }
            }
            i += 1;
        }
        result
    }

    /// Lists the squares the piece on the square that `Position::new(from_row,
    /// from_col)` names may move to, as `get_valid_moves` lists them.
    pub fn get_valid_moves_by_coords(&self, from_row: i32, from_col: i32) -> (r: Vec<Position>)
        ensures
            ({
                let sq = Position::clamped(from_row as int, from_col as int);
                &&& r@ == self@.destination_listing(sq.0, sq.1)
                &&& r@.no_duplicates()
                &&& forall|q: Position| #[trigger]
                    r@.contains(q) <==> self@.listed_destination(sq.0, sq.1, q.row as int, q.column as int)
            }),
    {
        let from = Position::new(from_row, from_col);
        self.get_valid_moves(from)
    }
}

} // verus!
