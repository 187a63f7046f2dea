//! The chess rules engine, as far as replaying a game needs it.
//!
//! The rules of chess are not written here: a board of the `rschess` crate
//! keeps the position, reads the notation and plays the moves. This file holds
//! what the rest of the library takes on trust about that board. Every
//! contract below is believed, not proved.

use crate::planes::{file_of_letter, named_index, rank_of_digit, Occupant, PieceKind, Side};
use vstd::prelude::*;

verus! {

/// `Board` of rschess: a game of chess with its position and its history.
/// Nothing of what it holds is visible here.
#[verifier::external_type_specification]
#[verifier::external_body]
pub struct ExBoard(rschess::Board);

/// `Move` of rschess: a move from one square to another. Nothing of what it
/// holds is visible here.
#[verifier::external_type_specification]
#[verifier::external_body]
pub struct ExMove(rschess::Move);

/// Whether White is to move on `board`.
pub uninterp spec fn white_to_move(board: rschess::Board) -> bool;

/// What stands on square `index` of `board`, where a1 is 0, the first rank
/// runs up to h1 at 7, and h8 is 63.
pub uninterp spec fn piece_at(board: rschess::Board, index: int) -> Option<Occupant>;

/// The move that `san` denotes on `board`, if it denotes a legal one.
pub uninterp spec fn resolved_move(board: rschess::Board, san: Seq<char>) -> Option<rschess::Move>;

/// The board that `board` becomes when the move that `san` denotes is played.
pub uninterp spec fn board_after(board: rschess::Board, san: Seq<char>) -> rschess::Board;

/// The name of the square that `mv` leaves: file letter, then rank digit.
pub uninterp spec fn move_origin(mv: rschess::Move) -> (char, char);

/// The name of the square that `mv` reaches: file letter, then rank digit.
pub uninterp spec fn move_target(mv: rschess::Move) -> (char, char);

/// The back rank of the starting position, from the a-file to the h-file.
pub open spec fn back_rank(file: int) -> PieceKind {
    if file == 0 || file == 7 {
        PieceKind::Rook
    } else if file == 1 || file == 6 {
        PieceKind::Knight
    } else if file == 2 || file == 5 {
        PieceKind::Bishop
    } else if file == 3 {
        PieceKind::Queen
    } else {
        PieceKind::King
    }
}

/// What stands on square `index` when a game of chess starts.
pub open spec fn start_occupant(index: int) -> Option<Occupant> {
    let rank = index / 8;
    let file = index % 8;
    if rank == 0 {
        Some(Occupant { kind: back_rank(file), side: Side::White })
    } else if rank == 1 {
        Some(Occupant { kind: PieceKind::Pawn, side: Side::White })
    } else if rank == 6 {
        Some(Occupant { kind: PieceKind::Pawn, side: Side::Black })
    } else if rank == 7 {
        Some(Occupant { kind: back_rank(file), side: Side::Black })
    } else {
        None
    }
}

/// The board when a game of chess starts.
pub open spec fn start_placement() -> Seq<Option<Occupant>> {
    Seq::new(64, |index: int| start_occupant(index))
}

/// What stands on the 64 squares of `board`, a1 first, then along the first
/// rank, and so on up to h8.
pub open spec fn placement(board: rschess::Board) -> Seq<Option<Occupant>> {
    Seq::new(64, |index: int| piece_at(board, index))
}

/// Whether `board` is one on which a game starts: the pieces on their first
/// squares and White to move.
pub open spec fn is_start(board: rschess::Board) -> bool {
    white_to_move(board) && placement(board) == start_placement()
}

/// `Board::default` of rschess: a board with the starting position of a game
/// of chess. Taken on trust: the pieces stand on their first squares and
/// White is to move.
#[verifier::external_body]
pub(crate) fn new_board() -> (board: rschess::Board)
    ensures
        is_start(board),
{
    rschess::Board::default()
}

/// `Board::side_to_move` of rschess. Taken on trust: the answer is the side
/// that the board holds as the one to move.
#[verifier::external_body]
pub(crate) fn is_white_to_move(board: &rschess::Board) -> (white: bool)
    ensures
        white == white_to_move(*board),
{
    match board.side_to_move() {
        rschess::Color::White => true,
        rschess::Color::Black => false,
    }
}

/// `Board::occupant_of_square` of rschess, with the piece it returns taken
/// apart by `Piece::piece_type` and `Piece::color`. Taken on trust: for a
/// square name on the board the answer depends on the board and the square
/// alone, and squares are counted as rank times eight plus file, both from
/// zero.
#[verifier::external_body]
pub(crate) fn occupant_on(board: &rschess::Board, file: char, rank: char) -> (found: Option<Occupant>)
    requires
        file_of_letter(file) is Some,
        rank_of_digit(rank) is Some,
    ensures
        found == piece_at(*board, named_index(file, rank)),
{
    let piece = match board.occupant_of_square(file, rank) {
        Ok(Some(piece)) => piece,
        _ => return None,
    };
    let kind = match piece.piece_type() {
        rschess::PieceType::P => PieceKind::Pawn,
        rschess::PieceType::B => PieceKind::Bishop,
        rschess::PieceType::N => PieceKind::Knight,
        rschess::PieceType::R => PieceKind::Rook,
        rschess::PieceType::Q => PieceKind::Queen,
        rschess::PieceType::K => PieceKind::King,
    };
    let side = if piece.color().is_white() { Side::White } else { Side::Black };
    Some(Occupant { kind, side })
}

/// `Board::san_to_move` of rschess. Taken on trust: the answer depends on the
/// board and the token alone.
#[verifier::external_body]
pub(crate) fn resolve(board: &rschess::Board, san: &str) -> (found: Option<rschess::Move>)
    ensures
        found == resolved_move(*board, san@),
{
    board.san_to_move(san).ok()
}

/// `Move::from_square` of rschess. Taken on trust: the answer depends on the
/// move alone and names a square of the board, file a to h and rank 1 to 8.
#[verifier::external_body]
pub(crate) fn origin_of(mv: &rschess::Move) -> (name: (char, char))
    ensures
        name == move_origin(*mv),
        file_of_letter(name.0) is Some,
        rank_of_digit(name.1) is Some,
{
    mv.from_square()
}

/// `Move::to_square` of rschess. Taken on trust: the answer depends on the
/// move alone and names a square of the board, file a to h and rank 1 to 8.
#[verifier::external_body]
pub(crate) fn target_of(mv: &rschess::Move) -> (name: (char, char))
    ensures
        name == move_target(*mv),
        file_of_letter(name.0) is Some,
        rank_of_digit(name.1) is Some,
{
    mv.to_square()
}

/// `Board::make_move_san` of rschess. Taken on trust: the move is played
/// exactly when `Board::san_to_move` finds one for the token; the board that
/// results depends on the board before and the token alone, and has the other
/// side to move.
#[verifier::external_body]
pub(crate) fn play(board: &mut rschess::Board, san: &str) -> (played: bool)
    ensures
        played == resolved_move(*old(board), san@) is Some,
        played ==> *final(board) == board_after(*old(board), san@),
        played ==> white_to_move(*final(board)) == !white_to_move(*old(board)),
{
    board.make_move_san(san).is_ok()
}

} // verus!
