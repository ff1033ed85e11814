//! Laws of the rules, proved over the model.

use vstd::prelude::*;
use crate::piece::{Piece, Player, opponent, base_form, promoted_form, is_stockable, stock_index};
use crate::position::on_board;
use crate::state::{
    BoardState, Action, STOCK_MAX, step_dirs, slide_dirs, unit_dir, landing_kind,
    promotion_eligible, initial_cell,
};

verus! {

/// Every single step of every template moves.
proof fn lemma_step_dirs_move(kind: Piece, side: Player, i: int)
    requires
        0 <= i < step_dirs(kind, side).len(),
    ensures
        step_dirs(kind, side)[i] != (0int, 0int),
{
}

/// Every sliding direction of every template is a unit direction.
proof fn lemma_slide_dirs_unit(kind: Piece, side: Player, i: int)
    requires
        0 <= i < slide_dirs(kind, side).len(),
    ensures
        unit_dir(slide_dirs(kind, side)[i]),
{
}

/// What a template reaches is a square of the board, other than the
/// origin, that holds no piece of the mover.
proof fn lemma_template_target(s: BoardState, fr: int, fc: int, kind: Piece, side: Player, tr: int, tc: int)
    requires
        s.template_hits(fr, fc, kind, side, tr, tc),
    ensures
        on_board(tr, tc),
        !s.holds_own(tr, tc, side),
        (tr, tc) != (fr, fc),
{
    if s.any_dir_hits(fr, fc, step_dirs(kind, side), false, side, tr, tc) {
        let i = choose|i: int|
            0 <= i < step_dirs(kind, side).len() && #[trigger] s.dir_hits(
                fr,
                fc,
                step_dirs(kind, side)[i],
                false,
                side,
                tr,
                tc,
            );
        lemma_step_dirs_move(kind, side, i);
    } else {
        let i = choose|i: int|
            0 <= i < slide_dirs(kind, side).len() && #[trigger] s.dir_hits(
                fr,
                fc,
                slide_dirs(kind, side)[i],
                true,
                side,
                tr,
                tc,
            );
        let d = slide_dirs(kind, side)[i];
        lemma_slide_dirs_unit(kind, side, i);
        let k = choose|k: int| #[trigger] s.slide_hits_at(fr, fc, d, side, k, tr, tc);
        if (tr, tc) == (fr, fc) {
            assert(k * d.0 == 0 && k * d.1 == 0);
            assert(d.0 == 0 && d.1 == 0) by (nonlinear_arith)
                requires
                    k >= 1,
                    k * d.0 == 0,
                    k * d.1 == 0,
            ;
        }
    }
}

/// What a piece reaches is a square of the board, other than the origin,
/// that holds no piece of its side.
proof fn lemma_reach_target(s: BoardState, fr: int, fc: int, tr: int, tc: int)
    requires
        s.reaches(fr, fc, tr, tc),
    ensures
        on_board(tr, tc),
        !s.holds_own(tr, tc, s.owner_at(fr, fc)),
        (tr, tc) != (fr, fc),
{
    let kind = s.kind_at(fr, fc);
    let side = s.owner_at(fr, fc);
    if s.template_hits(fr, fc, kind, side, tr, tc) {
        lemma_template_target(s, fr, fc, kind, side, tr, tc);
    } else {
        lemma_template_target(s, fr, fc, promoted_form(kind)->Some_0, side, tr, tc);
    }
}

/// The squares of the board after a legal move: the origin is vacant, the
/// destination holds the landing piece, every other square keeps its piece.
proof fn lemma_after_move_squares(s: BoardState, fr: int, fc: int, tr: int, tc: int, promote: bool)
    requires
        s.shaped(),
        s.legal_move(fr, fc, tr, tc),
    ensures
        s.after_move(fr, fc, tr, tc, promote).shaped(),
        (tr, tc) != (fr, fc),
        forall|r: int, c: int|
            on_board(r, c) ==> #[trigger] s.after_move(fr, fc, tr, tc, promote).at(r, c) == if (r, c)
                == (fr, fc) {
                (Piece::Empty, Player::Black)
            } else if (r, c) == (tr, tc) {
                (landing_kind(s.kind_at(fr, fc), s.turn, fr, tr, promote), s.turn)
            } else {
                s.at(r, c)
            },
{
    lemma_reach_target(s, fr, fc, tr, tc);
    let t = s.after_move(fr, fc, tr, tc, promote);
    let target = s.at(tr, tc);
    let taken = if target.0 != Piece::Empty && target.1 != s.turn {
        s.with_capture(s.turn, base_form(target.0))
    } else {
        s
    };
    assert(taken.cells == s.cells);
    assert(taken.shaped());
}

/// The side to move takes its turn: a legal action passes the turn to the
/// other side.
pub proof fn lemma_turn_alternates(s: BoardState, a: Action)
    requires
        s.action_legal(a),
    ensures
        s.apply(a).turn == opponent(s.turn),
        s.apply(a).turn != s.turn,
{
}

/// A capture puts exactly one piece, the base form of the piece taken, into
/// the mover's hand, and leaves every other count as it was; a move that
/// takes nothing leaves both hands as they were. (A count already at
/// `STOCK_MAX` cannot grow, so such captures are left out.)
pub proof fn lemma_capture_conservation(s: BoardState, fr: int, fc: int, tr: int, tc: int, promote: bool)
    requires
        s.shaped(),
        s.legal_move(fr, fc, tr, tc),
        s.occupied(tr, tc) ==> s.count(s.turn, base_form(s.kind_at(tr, tc))) < STOCK_MAX,
    ensures
        ({
            let t = s.after_move(fr, fc, tr, tc, promote);
            let k = base_form(s.kind_at(tr, tc));
            if s.occupied(tr, tc) {
                &&& t.count(s.turn, k) == s.count(s.turn, k) + 1
                &&& forall|side: Player, kind: Piece|
                    (side, kind) != (s.turn, k) ==> #[trigger] t.count(side, kind) == s.count(side, kind)
            } else {
                forall|side: Player, kind: Piece| #[trigger] t.count(side, kind) == s.count(side, kind)
            }
        }),
{
    lemma_reach_target(s, fr, fc, tr, tc);
    let t = s.after_move(fr, fc, tr, tc, promote);
    let k = base_form(s.kind_at(tr, tc));
    if s.occupied(tr, tc) {
        assert(s.owner_at(tr, tc) != s.turn);
        assert(is_stockable(k));
        assert forall|side: Player, kind: Piece|
            (side, kind) != (s.turn, k) implies #[trigger] t.count(side, kind) == s.count(side, kind) by {
            if is_stockable(kind) && side == s.turn {
                assert(stock_index(kind) != stock_index(k));
            }
        }
    }
}

/// Promotion happens only by request and only by rule: a move that is not
/// eligible never changes the kind of the piece, nor does a move made
/// without asking; an eligible move made asking lands the promoted form.
pub proof fn lemma_promotion_by_rule(s: BoardState, fr: int, fc: int, tr: int, tc: int, promote: bool)
    requires
        s.shaped(),
        s.legal_move(fr, fc, tr, tc),
    ensures
        ({
            let kind = s.kind_at(fr, fc);
            let landed = s.after_move(fr, fc, tr, tc, promote).kind_at(tr, tc);
            &&& !promotion_eligible(kind, s.turn, fr, tr) ==> landed == kind
            &&& !promote ==> landed == kind
            &&& promote && promotion_eligible(kind, s.turn, fr, tr) ==> landed == promoted_form(
                kind,
            )->Some_0
        }),
{
    lemma_after_move_squares(s, fr, fc, tr, tc, promote);
    assert(s.after_move(fr, fc, tr, tc, promote).at(tr, tc) == (
        landing_kind(s.kind_at(fr, fc), s.turn, fr, tr, promote),
        s.turn,
    ));
}

/// The generator and the executor agree: a move is legal exactly when the
/// destination is listed for the origin, and listed destinations never hold
/// a piece of the mover.
pub proof fn lemma_generator_agrees(s: BoardState, fr: int, fc: int, tr: int, tc: int)
    ensures
        s.legal_move(fr, fc, tr, tc) <==> s.listed_destination(fr, fc, tr, tc),
        s.listed_destination(fr, fc, tr, tc) ==> on_board(tr, tc) && !s.holds_own(tr, tc, s.turn),
{
    if s.listed_destination(fr, fc, tr, tc) {
        lemma_reach_target(s, fr, fc, tr, tc);
    }
}

/// The starting position has no file with two unpromoted pawns of a side.
pub proof fn lemma_initial_two_pawn_free(s: BoardState)
    requires
        s.is_initial(),
    ensures
        s.two_pawn_free(),
{
    assert forall|c: int, r1: int, r2: int|
        0 <= c < 9 && 0 <= r1 < 9 && 0 <= r2 < 9 && (#[trigger] s.at(r1, c)).0 == Piece::Pawn
            && (#[trigger] s.at(r2, c)).0 == Piece::Pawn && s.at(r1, c).1 == s.at(r2, c).1 implies r1
        == r2 by {
        assert(s.at(r1, c) == initial_cell(r1, c));
        assert(s.at(r2, c) == initial_cell(r2, c));
    }
}

/// A legal move keeps every file free of two unpromoted pawns of a side.
pub proof fn lemma_move_keeps_two_pawn_free(s: BoardState, fr: int, fc: int, tr: int, tc: int, promote: bool)
    requires
        s.shaped(),
        s.two_pawn_free(),
        s.legal_move(fr, fc, tr, tc),
    ensures
        s.after_move(fr, fc, tr, tc, promote).two_pawn_free(),
        s.after_move(fr, fc, tr, tc, promote).shaped(),
{
    lemma_after_move_squares(s, fr, fc, tr, tc, promote);
    let t = s.after_move(fr, fc, tr, tc, promote);
    let kind = s.kind_at(fr, fc);
    let landed = landing_kind(kind, s.turn, fr, tr, promote);
    assert(landed == Piece::Pawn ==> kind == Piece::Pawn);
    assert forall|c: int, r1: int, r2: int|
        0 <= c < 9 && 0 <= r1 < 9 && 0 <= r2 < 9 && (#[trigger] t.at(r1, c)).0 == Piece::Pawn
            && (#[trigger] t.at(r2, c)).0 == Piece::Pawn && t.at(r1, c).1 == t.at(r2, c).1 implies r1
        == r2 by {
        if (r1, c) == (tr, tc) && (r2, c) != (tr, tc) {
            lemma_pawn_not_doubled(s, fr, fc, tr, tc, r2);
        } else if (r2, c) == (tr, tc) && (r1, c) != (tr, tc) {
            lemma_pawn_not_doubled(s, fr, fc, tr, tc, r1);
        } else if (r1, c) != (tr, tc) && (r2, c) != (tr, tc) {
            assert(s.at(r1, c) == t.at(r1, c));
            assert(s.at(r2, c) == t.at(r2, c));
        }
    }
}

/// A legal pawn move never ends on a file where another square than its
/// origin holds an unpromoted pawn of its side.
proof fn lemma_pawn_not_doubled(s: BoardState, fr: int, fc: int, tr: int, tc: int, r: int)
    requires
        s.legal_move(fr, fc, tr, tc),
        s.kind_at(fr, fc) == Piece::Pawn,
        0 <= r < 9,
        (r, tc) != (fr, fc),
    ensures
        s.at(r, tc) != (Piece::Pawn, s.turn),
{
    lemma_reach_target(s, fr, fc, tr, tc);
    if s.at(r, tc) == (Piece::Pawn, s.turn) {
        assert(s.has_pawn_in_file(tc, s.turn, if tc == fc { fr } else { -1 }));
    }
}

/// A legal drop keeps every file free of two unpromoted pawns of a side.
pub proof fn lemma_drop_keeps_two_pawn_free(s: BoardState, kind: Piece, r: int, c: int)
    requires
        s.shaped(),
        s.two_pawn_free(),
        s.legal_drop(kind, r, c),
    ensures
        s.after_drop(kind, r, c).two_pawn_free(),
        s.after_drop(kind, r, c).shaped(),
{
    let t = s.after_drop(kind, r, c);
    let counted = s.with_count(s.turn, kind, s.count(s.turn, kind) - 1);
    assert(counted.cells == s.cells);
    assert forall|rr: int, cc: int| on_board(rr, cc) && (rr, cc) != (r, c) implies #[trigger] t.at(rr, cc)
        == s.at(rr, cc) by {}
    assert(t.at(r, c) == (kind, s.turn));
    assert forall|f: int, r1: int, r2: int|
        0 <= f < 9 && 0 <= r1 < 9 && 0 <= r2 < 9 && (#[trigger] t.at(r1, f)).0 == Piece::Pawn
            && (#[trigger] t.at(r2, f)).0 == Piece::Pawn && t.at(r1, f).1 == t.at(r2, f).1 implies r1
        == r2 by {
        if (r1, f) == (r, c) && (r2, f) != (r, c) {
            assert(s.at(r2, c) == (Piece::Pawn, s.turn));
        } else if (r2, f) == (r, c) && (r1, f) != (r, c) {
            assert(s.at(r1, c) == (Piece::Pawn, s.turn));
        } else if (r1, f) != (r, c) && (r2, f) != (r, c) {
            assert(s.at(r1, f) == t.at(r1, f));
            assert(s.at(r2, f) == t.at(r2, f));
        }
    }
}

/// No side ever has two unpromoted pawns on one file: from the starting
/// position, after any sequence of legal moves and drops.
pub proof fn lemma_two_pawn_free_after_play(s: BoardState, acts: Seq<Action>)
    requires
        s.shaped(),
        s.is_initial(),
        s.plays_legally(acts),
    ensures
        s.play(acts).two_pawn_free(),
{
    lemma_initial_two_pawn_free(s);
    lemma_play_keeps_two_pawn_free(s, acts);
}

/// Playing legal actions keeps a board free of two unpromoted pawns of a
/// side on one file.
pub proof fn lemma_play_keeps_two_pawn_free(s: BoardState, acts: Seq<Action>)
    requires
        s.shaped(),
        s.two_pawn_free(),
        s.plays_legally(acts),
    ensures
        s.play(acts).two_pawn_free(),
    decreases acts.len(),
{
    if acts.len() > 0 {
        match acts[0] {
            Action::Move { fr, fc, tr, tc, promote } => {
                lemma_move_keeps_two_pawn_free(s, fr, fc, tr, tc, promote);
            },
            Action::Drop { kind, r, c } => {
                lemma_drop_keeps_two_pawn_free(s, kind, r, c);
            },
        }
        lemma_play_keeps_two_pawn_free(s.apply(acts[0]), acts.drop_first());
    }
}

} // verus!
