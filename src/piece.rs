//! The piece catalog: piece kinds, sides, and the promotion tables.

use vstd::prelude::*;

verus! {

/// The kind of piece standing on a square; `Empty` marks a vacant square.
#[derive(Clone, Copy, Debug, PartialEq, Eq, Structural)]
pub enum Piece {
    Empty,
    Pawn,
    Lance,
    Knight,
    Silver,
    Gold,
    Bishop,
    Rook,
    King,
    PromotedPawn,
    PromotedLance,
    PromotedKnight,
    PromotedSilver,
    PromotedBishop,
    PromotedRook,
}

/// The two sides. Black moves first and moves toward higher ranks.
#[derive(Clone, Copy, Debug, PartialEq, Eq, Structural)]
pub enum Player {
    Black,
    White,
}

/// The side that is not `p`.
pub open spec fn opponent(p: Player) -> Player {
    match p {
        Player::Black => Player::White,
        Player::White => Player::Black,
    }
}

/// The row of a side in the captured-piece table.
pub open spec fn side_index(p: Player) -> int {
    match p {
        Player::Black => 0,
        Player::White => 1,
    }
}

/// The promoted form of a kind, for the six kinds that promote.
pub open spec fn promoted_form(k: Piece) -> Option<Piece> {
    match k {
        Piece::Pawn => Some(Piece::PromotedPawn),
        Piece::Lance => Some(Piece::PromotedLance),
        Piece::Knight => Some(Piece::PromotedKnight),
        Piece::Silver => Some(Piece::PromotedSilver),
        Piece::Bishop => Some(Piece::PromotedBishop),
        Piece::Rook => Some(Piece::PromotedRook),
        _ => None,
    }
}

/// The base form of a kind: a promoted kind demotes, every other kind stays.
pub open spec fn base_form(k: Piece) -> Piece {
    match k {
        Piece::PromotedPawn => Piece::Pawn,
        Piece::PromotedLance => Piece::Lance,
        Piece::PromotedKnight => Piece::Knight,
        Piece::PromotedSilver => Piece::Silver,
        Piece::PromotedBishop => Piece::Bishop,
        Piece::PromotedRook => Piece::Rook,
        _ => k,
    }
}

/// True for the six kinds that have a promoted form.
pub open spec fn is_promotable(k: Piece) -> bool {
    promoted_form(k) is Some
}

/// True for the six promoted kinds.
pub open spec fn is_promoted(k: Piece) -> bool {
    match k {
        Piece::PromotedPawn | Piece::PromotedLance | Piece::PromotedKnight
        | Piece::PromotedSilver | Piece::PromotedBishop | Piece::PromotedRook => true,
        _ => false,
    }
}

/// True for the promotable kinds that can also move backward, and so may
/// promote on a move that leaves the promotion zone.
pub open spec fn is_backward_capable(k: Piece) -> bool {
    match k {
        Piece::Silver | Piece::Bishop | Piece::Rook => true,
        _ => false,
    }
}

/// The column of a kind in the captured-piece table: the eight unpromoted
/// kinds have one each, every other kind has none (-1).
pub open spec fn stock_index(k: Piece) -> int {
    match k {
        Piece::Pawn => 0,
        Piece::Lance => 1,
        Piece::Knight => 2,
        Piece::Silver => 3,
        Piece::Gold => 4,
        Piece::Bishop => 5,
        Piece::Rook => 6,
        Piece::King => 7,
        _ => -1,
    }
}

/// True for the kinds that can be held in hand.
pub open spec fn is_stockable(k: Piece) -> bool {
    stock_index(k) >= 0
}

/// Returns the other side.
pub fn other_player(p: Player) -> (r: Player)
    ensures
        r == opponent(p),
{
    match p {
        Player::Black => Player::White,
        Player::White => Player::Black,
    }
}

/// Returns the promoted form of `piece`, or `None` where it has none.
pub fn get_promoted_piece(piece: Piece) -> (r: Option<Piece>)
    ensures
        r == promoted_form(piece),
{
    match piece {
        Piece::Pawn => Some(Piece::PromotedPawn),
        Piece::Lance => Some(Piece::PromotedLance),
        Piece::Knight => Some(Piece::PromotedKnight),
        Piece::Silver => Some(Piece::PromotedSilver),
        Piece::Bishop => Some(Piece::PromotedBishop),
        Piece::Rook => Some(Piece::PromotedRook),
        _ => None,
    }
}

/// Returns whether `piece` is one of the six promoted kinds.
pub fn is_promoted_piece(piece: Piece) -> (r: bool)
    ensures
        r == is_promoted(piece),
{
    matches!(piece,
        Piece::PromotedPawn | Piece::PromotedLance | Piece::PromotedKnight |
        Piece::PromotedSilver | Piece::PromotedBishop | Piece::PromotedRook
    )
}

/// Returns whether `piece` is one of the six kinds that can promote.
pub fn can_promote_piece(piece: Piece) -> (r: bool)
    ensures
        r == is_promotable(piece),
{
    matches!(piece,
        Piece::Pawn | Piece::Lance | Piece::Knight | Piece::Silver | Piece::Bishop | Piece::Rook
    )
}

/// Returns the column of `piece` in the captured-piece table, or -1.
pub fn piece_to_index(piece: Piece) -> (r: i32)
    ensures
        r == stock_index(piece),
{
    match piece {
        Piece::Pawn => 0,
        Piece::Lance => 1,
        Piece::Knight => 2,
        Piece::Silver => 3,
        Piece::Gold => 4,
        Piece::Bishop => 5,
        Piece::Rook => 6,
        Piece::King => 7,
        _ => -1,
    }
}

/// Returns the base form of `piece`: what a captured piece becomes in hand.
pub fn get_original_piece(piece: Piece) -> (r: Piece)
    ensures
        r == base_form(piece),
{
    match piece {
        Piece::PromotedPawn => Piece::Pawn,
        Piece::PromotedLance => Piece::Lance,
        Piece::PromotedKnight => Piece::Knight,
        Piece::PromotedSilver => Piece::Silver,
        Piece::PromotedBishop => Piece::Bishop,
        Piece::PromotedRook => Piece::Rook,
        _ => piece,
    }
}

/// Returns whether `piece` is a silver, bishop or rook.
pub fn can_move_backward(piece: Piece) -> (r: bool)
    ensures
        r == is_backward_capable(piece),
{
    matches!(piece, Piece::Silver | Piece::Bishop | Piece::Rook)
}

} // verus!
