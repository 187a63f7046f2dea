//! Replaying a game on the rules engine and writing down White's moves.
//!
//! Before each move the side to move is read from the board. Where it is
//! White, the position is encoded with the move's two squares, and the record
//! goes to the selector data set and to the data set of the piece that moves.
//! Then the move is played. A token that the engine does not accept ends the
//! replay; what was recorded up to there stays.

use crate::engine::{
    board_after, is_white_to_move, move_origin, move_target, occupant_on, origin_of, piece_at,
    placement, play, resolve, resolved_move, target_of, white_to_move,
};
use crate::planes::{
    file_of_letter, grid_cell, named_index, plane_set, rank_of_digit, record_text, BitBoards,
    Occupant, PieceKind, PlaneSet, Side, Snapshot, Square,
};
use crate::text::texts;
use vstd::prelude::*;

verus! {

/// Why a replay stopped.
#[derive(Clone, Copy, Debug, PartialEq, Eq, Structural)]
pub enum ReplayFault {
    /// The engine finds no legal move for the token in the position.
    Unresolved,
    /// The engine named a move that starts on an empty square.
    VacantOrigin,
}

/// A replay that stopped: at which move of the game, counted from 0, and why.
#[derive(Clone, Copy, Debug, PartialEq, Eq, Structural)]
pub struct ReplayError {
    pub index: usize,
    pub fault: ReplayFault,
}

/// One recorded move: the planes of the position before it, and the kind of
/// the piece that moves.
pub struct Example {
    pub planes: PlaneSet,
    pub moved: PieceKind,
}

/// The records of the seven data sets, as texts.
pub struct Rows {
    pub piece_selector: Seq<Seq<char>>,
    pub pawn: Seq<Seq<char>>,
    pub bishop: Seq<Seq<char>>,
    pub knight: Seq<Seq<char>>,
    pub rook: Seq<Seq<char>>,
    pub queen: Seq<Seq<char>>,
    pub king: Seq<Seq<char>>,
}

impl Rows {
    /// Seven data sets without a record.
    pub open spec fn empty() -> Rows {
        Rows {
            piece_selector: Seq::empty(),
            pawn: Seq::empty(),
            bishop: Seq::empty(),
            knight: Seq::empty(),
            rook: Seq::empty(),
            queen: Seq::empty(),
            king: Seq::empty(),
        }
    }

    /// These rows with the two records of `example` added: the record with
    /// the move's start goes to the selector data set, the record with its
    /// end to the data set of the piece that moves.
    pub open spec fn with(self, example: Example) -> Rows {
        let selected = record_text(example.planes, false);
        let reached = record_text(example.planes, true);
        Rows {
            piece_selector: self.piece_selector.push(selected),
            pawn: if example.moved == PieceKind::Pawn {
                self.pawn.push(reached)
            } else {
                self.pawn
            },
            bishop: if example.moved == PieceKind::Bishop {
                self.bishop.push(reached)
            } else {
                self.bishop
            },
            knight: if example.moved == PieceKind::Knight {
                self.knight.push(reached)
            } else {
                self.knight
            },
            rook: if example.moved == PieceKind::Rook {
                self.rook.push(reached)
            } else {
                self.rook
            },
            queen: if example.moved == PieceKind::Queen {
                self.queen.push(reached)
            } else {
                self.queen
            },
            king: if example.moved == PieceKind::King {
                self.king.push(reached)
            } else {
                self.king
            },
        }
    }

    /// These rows with the records of `examples` added, in order.
    pub open spec fn with_all(self, examples: Seq<Example>) -> Rows
        decreases examples.len(),
    {
        if examples.len() == 0 {
            self
        } else {
            self.with_all(examples.drop_last()).with(examples.last())
        }
    }

    /// The number of records in the six data sets of the pieces together.
    pub open spec fn piece_rows(self) -> nat {
        self.pawn.len() + self.bishop.len() + self.knight.len() + self.rook.len()
            + self.queen.len() + self.king.len()
    }
}

/// The records of the seven data sets: one for choosing the piece to move,
/// and one per kind of piece for choosing where it goes.
pub struct Datasets {
    pub piece_selector: Vec<String>,
    pub pawn: Vec<String>,
    pub bishop: Vec<String>,
    pub knight: Vec<String>,
    pub rook: Vec<String>,
    pub queen: Vec<String>,
    pub king: Vec<String>,
}

impl View for Datasets {
    type V = Rows;

    open spec fn view(&self) -> Rows {
        Rows {
            piece_selector: texts(self.piece_selector@),
            pawn: texts(self.pawn@),
            bishop: texts(self.bishop@),
            knight: texts(self.knight@),
            rook: texts(self.rook@),
            queen: texts(self.queen@),
            king: texts(self.king@),
        }
    }
}

fn push_record(rows: &mut Vec<String>, record: String)
    ensures
        texts(final(rows)@) == texts(old(rows)@).push(record@),
{
    rows.push(record);
    assert(texts(rows@) =~= texts(old(rows)@).push(record@));
}

impl Datasets {
    /// Seven empty data sets.
    pub fn new() -> (data: Datasets)
        ensures
            data@ == Rows::empty(),
    {
        assert(texts(Seq::<String>::empty()) =~= Seq::<Seq<char>>::empty());
        Datasets {
            piece_selector: Vec::new(),
            pawn: Vec::new(),
            bishop: Vec::new(),
            knight: Vec::new(),
            rook: Vec::new(),
            queen: Vec::new(),
            king: Vec::new(),
        }
    }

    /// Writes down one move: the record with the move's start goes to the
    /// selector data set, the record with its end to the data set of the
    /// piece that moves.
    pub fn record(&mut self, boards: &BitBoards, moved: PieceKind)
        ensures
            final(self)@ == old(self)@.with(Example { planes: boards@, moved }),
    {
        push_record(&mut self.piece_selector, boards.export_boards(false));
        let reached = boards.export_boards(true);
        match moved {
            PieceKind::Pawn => push_record(&mut self.pawn, reached),
            PieceKind::Bishop => push_record(&mut self.bishop, reached),
            PieceKind::Knight => push_record(&mut self.knight, reached),
            PieceKind::Rook => push_record(&mut self.rook, reached),
            PieceKind::Queen => push_record(&mut self.queen, reached),
            PieceKind::King => push_record(&mut self.king, reached),
        }
    }
}

/// The grid cell that shows the square with the given name.
pub open spec fn named_cell(name: (char, char)) -> int {
    grid_cell(file_of_letter(name.0).unwrap(), rank_of_digit(name.1).unwrap())
}

/// The example for a move from the square named `origin` to the square named
/// `target` on a board that holds `squares`, if a piece stands on `origin`.
pub open spec fn example_of(
    squares: Seq<Option<Occupant>>,
    origin: (char, char),
    target: (char, char),
) -> Option<Example> {
    match squares[named_index(origin.0, origin.1)] {
        Some(piece) => Some(
            Example {
                planes: plane_set(squares, named_cell(origin), named_cell(target)),
                moved: piece.kind,
            },
        ),
        None => None,
    }
}

/// What one token of a game brings.
pub enum Turn {
    /// The replay stops here.
    Fault(ReplayFault),
    /// Black moves: nothing is recorded.
    Silent,
    /// White moves: the example is recorded.
    Recorded(Example),
}

/// What the token `san` brings on `board`.
pub open spec fn turn_of(board: rschess::Board, san: Seq<char>) -> Turn {
    match resolved_move(board, san) {
        None => Turn::Fault(ReplayFault::Unresolved),
        Some(mv) => if !white_to_move(board) {
            Turn::Silent
        } else {
            match example_of(placement(board), move_origin(mv), move_target(mv)) {
                None => Turn::Fault(ReplayFault::VacantOrigin),
                Some(example) => Turn::Recorded(example),
            }
        },
    }
}

/// The examples that the tokens of `moves` from number `at` on bring, played
/// on `board` one after the other, up to the end or to the first fault.
pub open spec fn replay_examples(board: rschess::Board, moves: Seq<Seq<char>>, at: int) -> Seq<
    Example,
>
    decreases moves.len() - at,
{
    if at < 0 || at >= moves.len() {
        Seq::empty()
    } else {
        match turn_of(board, moves[at]) {
            Turn::Fault(_) => Seq::empty(),
            Turn::Silent => replay_examples(board_after(board, moves[at]), moves, at + 1),
            Turn::Recorded(example) => seq![example] + replay_examples(
                board_after(board, moves[at]),
                moves,
                at + 1,
            ),
        }
    }
}

/// The first fault among the tokens of `moves` from number `at` on, played on
/// `board` one after the other, if there is one.
pub open spec fn replay_fault(board: rschess::Board, moves: Seq<Seq<char>>, at: int) -> Option<
    ReplayError,
>
    decreases moves.len() - at,
{
    if at < 0 || at >= moves.len() {
        None
    } else {
        match turn_of(board, moves[at]) {
            Turn::Fault(fault) => Some(ReplayError { index: at as usize, fault }),
            _ => replay_fault(board_after(board, moves[at]), moves, at + 1),
        }
    }
}

/// Whether the planes of every example are sound: in the occupancy grids
/// every cell holds -1, 0 or 1 and is set in one grid at most, and the grids
/// of the move's start and end each hold one 1 and 63 zeros.
pub open spec fn sound_planes(examples: Seq<Example>) -> bool {
    forall|i: int|
        0 <= i < examples.len() ==> {
            &&& (#[trigger] examples[i]).planes.wf()
            &&& examples[i].planes.one_piece_per_cell()
            &&& examples[i].planes.one_hot_marks()
        }
}

/// How a replay of `moves` on `board` ends: well, or with its first fault.
pub open spec fn replay_outcome(board: rschess::Board, moves: Seq<Seq<char>>) -> Result<
    (),
    ReplayError,
> {
    match replay_fault(board, moves, 0) {
        None => Ok(()),
        Some(error) => Err(error),
    }
}

/// How many of the tokens of `moves` from number `at` on White plays, where
/// they are played on `board` one after the other.
pub open spec fn white_moves(board: rschess::Board, moves: Seq<Seq<char>>, at: int) -> nat
    decreases moves.len() - at,
{
    if at < 0 || at >= moves.len() {
        0
    } else {
        let rest = white_moves(board_after(board, moves[at]), moves, at + 1);
        if white_to_move(board) {
            rest + 1
        } else {
            rest
        }
    }
}

/// In a replay without a fault, every move of White brings one example and
/// no other move brings any.
pub proof fn lemma_one_example_per_white_move(
    board: rschess::Board,
    moves: Seq<Seq<char>>,
    at: int,
)
    requires
        replay_fault(board, moves, at) is None,
    ensures
        replay_examples(board, moves, at).len() == white_moves(board, moves, at),
    decreases moves.len() - at,
{
    if 0 <= at < moves.len() {
        lemma_one_example_per_white_move(board_after(board, moves[at]), moves, at + 1);
    }
}

/// Each example adds one record to the selector data set and one record to
/// the data sets of the pieces.
pub proof fn lemma_rows_added(rows: Rows, examples: Seq<Example>)
    ensures
        rows.with_all(examples).piece_selector.len() == rows.piece_selector.len()
            + examples.len(),
        rows.with_all(examples).piece_rows() == rows.piece_rows() + examples.len(),
    decreases examples.len(),
{
    if examples.len() > 0 {
        lemma_rows_added(rows, examples.drop_last());
    }
}

fn file_letter(file: usize) -> (c: char)
    requires
        file < 8,
    ensures
        file_of_letter(c) == Some(file as int),
{
    if file == 0 {
        'a'
    } else if file == 1 {
        'b'
    } else if file == 2 {
        'c'
    } else if file == 3 {
        'd'
    } else if file == 4 {
        'e'
    } else if file == 5 {
        'f'
    } else if file == 6 {
        'g'
    } else {
        'h'
    }
}

fn rank_digit(rank: usize) -> (c: char)
    requires
        rank < 8,
    ensures
        rank_of_digit(c) == Some(rank as int),
{
    if rank == 0 {
        '1'
    } else if rank == 1 {
        '2'
    } else if rank == 2 {
        '3'
    } else if rank == 3 {
        '4'
    } else if rank == 4 {
        '5'
    } else if rank == 5 {
        '6'
    } else if rank == 6 {
        '7'
    } else {
        '8'
    }
}

/// The position on `board`, read square by square.
pub fn take_snapshot(board: &rschess::Board) -> (snapshot: Snapshot)
    ensures
        snapshot.wf(),
        snapshot.squares() == placement(*board),
        snapshot.turn() == if white_to_move(*board) {
            Side::White
        } else {
            Side::Black
        },
{
    let mut squares: Vec<Option<Occupant>> = Vec::new();
    let mut index: usize = 0;
    while index < 64
        invariant
            index <= 64,
            squares@.len() == index,
            forall|i: int| 0 <= i < index ==> squares@[i] == piece_at(*board, i),
        decreases 64 - index,
    {
        let found = occupant_on(board, file_letter(index % 8), rank_digit(index / 8));
        squares.push(found);
        index += 1;
    }
    assert(squares@ =~= placement(*board));
    let turn = if is_white_to_move(board) {
        Side::White
    } else {
        Side::Black
    };
    Snapshot::new(squares, turn).unwrap()
}

/// Replays `moves` on `board` and writes White's moves into `out`.
///
/// The records of the examples up to the end of the game, or up to the first
/// fault, are added to `out`; the result is that fault, if there is one.
pub fn replay(moves: &Vec<String>, board: rschess::Board, out: &mut Datasets) -> (result: Result<
    (),
    ReplayError,
>)
    ensures
        final(out)@ == old(out)@.with_all(replay_examples(board, texts(moves@), 0)),
        result == replay_outcome(board, texts(moves@)),
        sound_planes(replay_examples(board, texts(moves@), 0)),
        final(out)@.piece_selector.len() == old(out)@.piece_selector.len() + replay_examples(
            board,
            texts(moves@),
            0,
        ).len(),
        final(out)@.piece_rows() == old(out)@.piece_rows() + replay_examples(
            board,
            texts(moves@),
            0,
        ).len(),
        result is Ok ==> replay_examples(board, texts(moves@), 0).len() == white_moves(
            board,
            texts(moves@),
            0,
        ),
        result is Ok && white_to_move(board) ==> replay_examples(board, texts(moves@), 0).len()
            == (moves@.len() + 1) / 2,
{
    let ghost tokens = texts(moves@);
    let ghost mut done: Seq<Example> = Seq::empty();
    let mut current = board;
    let mut index: usize = 0;
    while index < moves.len()
        invariant
            index <= moves@.len(),
            tokens == texts(moves@),
            replay_examples(board, tokens, 0) == done + replay_examples(
                current,
                tokens,
                index as int,
            ),
            replay_fault(board, tokens, 0) == replay_fault(current, tokens, index as int),
            out@ == old(out)@.with_all(done),
            sound_planes(done),
            white_to_move(board) ==> white_to_move(current) == (index % 2 == 0),
            white_to_move(board) ==> done.len() == (index + 1) / 2,
        decreases moves@.len() - index,
    {
        let san = moves[index].as_str();
        assert(san@ == tokens[index as int]);
        let white = is_white_to_move(&current);
        let mv = match resolve(&current, san) {
            Some(mv) => mv,
            None => {
                proof {
                    assert(replay_examples(board, tokens, 0) =~= done);
                    lemma_rows_added(old(out)@, done);
                }
                return Err(ReplayError { index, fault: ReplayFault::Unresolved });
            },
        };
        if white {
            let origin_name = origin_of(&mv);
            let target_name = target_of(&mv);
            let origin = Square::from_name(origin_name.0, origin_name.1).unwrap();
            let target = Square::from_name(target_name.0, target_name.1).unwrap();
            let snapshot = take_snapshot(&current);
            match snapshot.occupant(origin) {
                Some(piece) => {
                    let boards = BitBoards::encode(&snapshot, origin, target);
                    out.record(&boards, piece.kind);
                    proof {
                        let example = Example { planes: boards@, moved: piece.kind };
                        assert(turn_of(current, tokens[index as int]) == Turn::Recorded(example));
                        assert(done.push(example).drop_last() =~= done);
                        assert(done + (seq![example] + replay_examples(
                            board_after(current, tokens[index as int]),
                            tokens,
                            index + 1,
                        )) =~= done.push(example) + replay_examples(
                            board_after(current, tokens[index as int]),
                            tokens,
                            index + 1,
                        ));
                        done = done.push(example);
                    }
                },
                None => {
                    proof {
                        assert(replay_examples(board, tokens, 0) =~= done);
                        lemma_rows_added(old(out)@, done);
                    }
                    return Err(ReplayError { index, fault: ReplayFault::VacantOrigin });
                },
            }
        }
        let played = play(&mut current, san);
        // The engine plays every token that it resolves.
        if !played {
            return Err(ReplayError { index, fault: ReplayFault::Unresolved });
        }
        index += 1;
    }
    proof {
        assert(replay_examples(board, tokens, 0) =~= done);
        lemma_rows_added(old(out)@, done);
        lemma_one_example_per_white_move(board, tokens, 0);
    }
    Ok(())
}

} // verus!
