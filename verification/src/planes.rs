//! Positions and the numeric planes that stand for them.
//!
//! A position is read square by square and written into six occupancy grids,
//! one per kind of piece, beside two one-hot grids that mark where the move
//! starts and where it ends. A grid is 64 cells in row-major order: the top
//! row is rank 8, the left column is file a.

use crate::text::{grid_line, grid_picture, push_grid_line, push_grid_picture};
use vstd::prelude::*;
use vstd::string::StringExecFns;

verus! {

/// One of the two players.
#[derive(Clone, Copy, Debug, PartialEq, Eq, Structural)]
pub enum Side {
    White,
    Black,
}

/// The kind of a chess piece.
#[derive(Clone, Copy, Debug, PartialEq, Eq, Structural)]
pub enum PieceKind {
    Pawn,
    Bishop,
    Knight,
    Rook,
    Queen,
    King,
}

/// A piece on a square: its kind and its owner.
#[derive(Clone, Copy, Debug, PartialEq, Eq, Structural)]
pub struct Occupant {
    pub kind: PieceKind,
    pub side: Side,
}

/// Number of squares on the board, and of cells in a grid.
pub const SQUARES: usize = 64;

/// The file named by a letter: a is 0, h is 7.
pub open spec fn file_of_letter(c: char) -> Option<int> {
    if c == 'a' {
        Some(0)
    } else if c == 'b' {
        Some(1)
    } else if c == 'c' {
        Some(2)
    } else if c == 'd' {
        Some(3)
    } else if c == 'e' {
        Some(4)
    } else if c == 'f' {
        Some(5)
    } else if c == 'g' {
        Some(6)
    } else if c == 'h' {
        Some(7)
    } else {
        None
    }
}

/// The rank named by a digit: 1 is 0, 8 is 7.
pub open spec fn rank_of_digit(c: char) -> Option<int> {
    if c == '1' {
        Some(0)
    } else if c == '2' {
        Some(1)
    } else if c == '3' {
        Some(2)
    } else if c == '4' {
        Some(3)
    } else if c == '5' {
        Some(4)
    } else if c == '6' {
        Some(5)
    } else if c == '7' {
        Some(6)
    } else if c == '8' {
        Some(7)
    } else {
        None
    }
}

/// Where on the board the square of file `file` and rank `rank` is kept:
/// a1 first, then along the first rank, up to h8.
pub open spec fn board_index(file: int, rank: int) -> int {
    rank * 8 + file
}

/// Where on the board the square named by the letter `file` and the digit
/// `rank` is kept.
pub open spec fn named_index(file: char, rank: char) -> int {
    board_index(file_of_letter(file).unwrap(), rank_of_digit(rank).unwrap())
}

/// The grid cell that shows the square of file `file` and rank `rank`:
/// rank 8 fills the top row, file a the left column.
pub open spec fn grid_cell(file: int, rank: int) -> int {
    file + (7 - rank) * 8
}

/// The board index of the square that grid cell `cell` shows.
pub open spec fn square_under_cell(cell: int) -> int {
    board_index(cell % 8, 7 - cell / 8)
}

fn letter_file(c: char) -> (r: Option<u8>)
    ensures
        r is Some <==> file_of_letter(c) is Some,
        r matches Some(f) ==> file_of_letter(c) == Some(f as int) && f < 8,
{
    if c == 'a' {
        Some(0)
    } else if c == 'b' {
        Some(1)
    } else if c == 'c' {
        Some(2)
    } else if c == 'd' {
        Some(3)
    } else if c == 'e' {
        Some(4)
    } else if c == 'f' {
        Some(5)
    } else if c == 'g' {
        Some(6)
    } else if c == 'h' {
        Some(7)
    } else {
        None
    }
}

fn digit_rank(c: char) -> (r: Option<u8>)
    ensures
        r is Some <==> rank_of_digit(c) is Some,
        r matches Some(k) ==> rank_of_digit(c) == Some(k as int) && k < 8,
{
    if c == '1' {
        Some(0)
    } else if c == '2' {
        Some(1)
    } else if c == '3' {
        Some(2)
    } else if c == '4' {
        Some(3)
    } else if c == '5' {
        Some(4)
    } else if c == '6' {
        Some(5)
    } else if c == '7' {
        Some(6)
    } else if c == '8' {
        Some(7)
    } else {
        None
    }
}

/// A square of the board.
#[derive(Clone, Copy, Debug)]
pub struct Square {
    file: u8,
    rank: u8,
}

impl Square {
    #[verifier::type_invariant]
    spec fn on_board(self) -> bool {
        self.wf()
    }

    /// Both coordinates lie on the board.
    pub closed spec fn wf(self) -> bool {
        self.file < 8 && self.rank < 8
    }

    /// The file, 0 for a up to 7 for h.
    pub closed spec fn file(self) -> int {
        self.file as int
    }

    /// The rank, 0 for the first up to 7 for the eighth.
    pub closed spec fn rank(self) -> int {
        self.rank as int
    }

    /// The grid cell that shows this square.
    pub open spec fn cell(self) -> int {
        grid_cell(self.file(), self.rank())
    }

    /// Where the board keeps this square.
    pub open spec fn index(self) -> int {
        board_index(self.file(), self.rank())
    }

    /// A valid square has coordinates below 8.
    pub proof fn lemma_wf_bounds(self)
        requires
            self.wf(),
        ensures
            0 <= self.file() < 8,
            0 <= self.rank() < 8,
            0 <= self.cell() < 64,
            0 <= self.index() < 64,
    {
    }

    /// The square of the given file and rank, counted from 0, if both are below 8.
    pub fn new(file: u8, rank: u8) -> (r: Option<Square>)
        ensures
            r is Some <==> file < 8 && rank < 8,
            r matches Some(sq) ==> sq.wf() && sq.file() == file && sq.rank() == rank,
    {
        if file < 8 && rank < 8 {
            Some(Square { file, rank })
        } else {
            None
        }
    }

    /// The square with the given name, as in `('e', '4')`, if there is one.
    pub fn from_name(file: char, rank: char) -> (r: Option<Square>)
        ensures
            r is Some <==> file_of_letter(file) is Some && rank_of_digit(rank) is Some,
            r matches Some(sq) ==> sq.wf() && Some(sq.file()) == file_of_letter(file) && Some(
                sq.rank(),
            ) == rank_of_digit(rank),
    {
        match (letter_file(file), digit_rank(rank)) {
            (Some(f), Some(k)) => Some(Square { file: f, rank: k }),
            _ => None,
        }
    }

    /// The grid cell that shows this square.
    pub fn grid_index(&self) -> (c: usize)
        ensures
            c == self.cell(),
            c < 64,
    {
        proof {
            use_type_invariant(self);
        }
        let file: usize = self.file as usize;
        let rank: usize = self.rank as usize;
        file + (7 - rank) * 8
    }

    /// Where the board keeps this square.
    pub fn board_index(&self) -> (i: usize)
        ensures
            i == self.index(),
            i < 64,
    {
        proof {
            use_type_invariant(self);
        }
        let file: usize = self.file as usize;
        let rank: usize = self.rank as usize;
        rank * 8 + file
    }
}

/// A position: what stands on each square, and who is to move.
pub struct Snapshot {
    squares: Vec<Option<Occupant>>,
    turn: Side,
}

impl Snapshot {
    #[verifier::type_invariant]
    spec fn complete(self) -> bool {
        self.wf()
    }

    /// All 64 squares are there.
    pub closed spec fn wf(self) -> bool {
        self.squares@.len() == 64
    }

    /// What stands on each square, a1 first, then along the ranks up to h8.
    pub closed spec fn squares(self) -> Seq<Option<Occupant>> {
        self.squares@
    }

    /// The side to move.
    pub closed spec fn turn(self) -> Side {
        self.turn
    }

    /// The position with `squares` on the board and `turn` to move, if
    /// `squares` has 64 entries.
    pub fn new(squares: Vec<Option<Occupant>>, turn: Side) -> (r: Option<Snapshot>)
        ensures
            r is Some <==> squares@.len() == 64,
            r matches Some(s) ==> s.wf() && s.squares() == squares@ && s.turn() == turn,
    {
        if squares.len() == SQUARES {
            Some(Snapshot { squares, turn })
        } else {
            None
        }
    }

    /// The side to move.
    pub fn side_to_move(&self) -> (side: Side)
        ensures
            side == self.turn(),
    {
        self.turn
    }

    /// What stands on `square`.
    pub fn occupant(&self, square: Square) -> (r: Option<Occupant>)
        ensures
            r == self.squares()[square.index()],
    {
        proof {
            use_type_invariant(self);
            use_type_invariant(square);
        }
        self.squares[square.board_index()]
    }
}

/// What a grid for pieces of kind `kind` shows for a square that holds
/// `occupant`: 1 for a white piece of that kind, -1 for a black one, else 0.
pub open spec fn cell_value(occupant: Option<Occupant>, kind: PieceKind) -> i8 {
    match occupant {
        Some(piece) => if piece.kind != kind {
            0i8
        } else if piece.side == Side::White {
            1i8
        } else {
            -1i8
        },
        None => 0i8,
    }
}

/// The occupancy grid for pieces of kind `kind` on a board of 64 squares.
pub open spec fn occupancy(squares: Seq<Option<Occupant>>, kind: PieceKind) -> Seq<i8> {
    Seq::new(64, |cell: int| cell_value(squares[square_under_cell(cell)], kind))
}

/// The grid that holds 1 at `cell` and 0 elsewhere.
pub open spec fn one_hot(cell: int) -> Seq<i8> {
    Seq::new(
        64,
        |c: int|
            if c == cell {
                1i8
            } else {
                0i8
            },
    )
}

/// The grid of 64 zeros.
pub open spec fn blank() -> Seq<i8> {
    Seq::new(64, |c: int| 0i8)
}

/// The eight grids of one example, as sequences.
pub struct PlaneSet {
    pub pawns: Seq<i8>,
    pub bishops: Seq<i8>,
    pub knights: Seq<i8>,
    pub rooks: Seq<i8>,
    pub kings: Seq<i8>,
    pub queens: Seq<i8>,
    pub piece_selected: Seq<i8>,
    pub destination: Seq<i8>,
}

impl PlaneSet {
    /// Every grid has 64 cells.
    pub open spec fn wf(self) -> bool {
        &&& self.pawns.len() == 64
        &&& self.bishops.len() == 64
        &&& self.knights.len() == 64
        &&& self.rooks.len() == 64
        &&& self.kings.len() == 64
        &&& self.queens.len() == 64
        &&& self.piece_selected.len() == 64
        &&& self.destination.len() == 64
    }

    /// Every cell of the six occupancy grids holds -1, 0 or 1, and no cell
    /// is set in two of them.
    pub open spec fn one_piece_per_cell(self) -> bool {
        &&& forall|kind: PieceKind, cell: int|
            0 <= cell < 64 ==> -1 <= #[trigger] self.of_kind(kind)[cell] <= 1
        &&& forall|first: PieceKind, second: PieceKind, cell: int|
            0 <= cell < 64 && first != second ==> #[trigger] self.of_kind(first)[cell] == 0
                || #[trigger] self.of_kind(second)[cell] == 0
    }

    /// The grid of the move's start and the grid of its end each hold one 1
    /// and 63 zeros.
    pub open spec fn one_hot_marks(self) -> bool {
        &&& count_of(self.piece_selected, 1) == 1
        &&& count_of(self.piece_selected, 0) == 63
        &&& count_of(self.destination, 1) == 1
        &&& count_of(self.destination, 0) == 63
    }

    /// The occupancy grid for pieces of kind `kind`.
    pub open spec fn of_kind(self, kind: PieceKind) -> Seq<i8> {
        match kind {
            PieceKind::Pawn => self.pawns,
            PieceKind::Bishop => self.bishops,
            PieceKind::Knight => self.knights,
            PieceKind::Rook => self.rooks,
            PieceKind::Queen => self.queens,
            PieceKind::King => self.kings,
        }
    }
}

/// How often `value` stands in `grid`.
pub open spec fn count_of(grid: Seq<i8>, value: i8) -> nat
    decreases grid.len(),
{
    if grid.len() == 0 {
        0
    } else {
        count_of(grid.drop_last(), value) + if grid.last() == value {
            1nat
        } else {
            0nat
        }
    }
}

/// The planes for a position with `squares` on the board and a move from grid
/// cell `origin` to grid cell `target`.
pub open spec fn plane_set(squares: Seq<Option<Occupant>>, origin: int, target: int) -> PlaneSet {
    PlaneSet {
        pawns: occupancy(squares, PieceKind::Pawn),
        bishops: occupancy(squares, PieceKind::Bishop),
        knights: occupancy(squares, PieceKind::Knight),
        rooks: occupancy(squares, PieceKind::Rook),
        kings: occupancy(squares, PieceKind::King),
        queens: occupancy(squares, PieceKind::Queen),
        piece_selected: one_hot(origin),
        destination: one_hot(target),
    }
}

/// The two-line record that a data file holds for `planes`: the six
/// occupancy grids on the first line, and on the second the grid of the
/// move's end where `destination` holds, else the grid of its start.
pub open spec fn record_text(planes: PlaneSet, destination: bool) -> Seq<char> {
    grid_line(planes.pawns) + grid_line(planes.bishops) + grid_line(planes.knights) + grid_line(
        planes.rooks,
    ) + grid_line(planes.queens) + grid_line(planes.kings) + seq!['\n'] + grid_line(
        if destination {
            planes.destination
        } else {
            planes.piece_selected
        },
    ) + seq!['\n']
}

/// All eight grids of `planes` as pictures, each under its heading.
pub open spec fn boards_picture(planes: PlaneSet) -> Seq<char> {
    "Pawns\n"@ + grid_picture(planes.pawns) + "Bishops\n"@ + grid_picture(planes.bishops)
        + "Knights\n"@ + grid_picture(planes.knights) + "Rooks\n"@ + grid_picture(planes.rooks)
        + "Queens\n"@ + grid_picture(planes.queens) + "Kings\n"@ + grid_picture(planes.kings)
        + "Piece Selected\n"@ + grid_picture(planes.piece_selected) + "Destination\n"@
        + grid_picture(planes.destination)
}

/// In the planes of any position every cell of the occupancy grids holds
/// -1, 0 or 1, and no cell is set in two of them.
pub proof fn lemma_one_piece_per_cell(squares: Seq<Option<Occupant>>, origin: int, target: int)
    ensures
        plane_set(squares, origin, target).one_piece_per_cell(),
{
    let planes = plane_set(squares, origin, target);
    assert forall|kind: PieceKind, cell: int| 0 <= cell < 64 implies planes.of_kind(kind)[cell]
        == cell_value(squares[square_under_cell(cell)], kind) by {}
}

proof fn lemma_one_hot_prefix(cell: int, n: int)
    requires
        0 <= cell < 64,
        0 <= n <= 64,
    ensures
        count_of(one_hot(cell).take(n), 1) == if cell < n {
            1nat
        } else {
            0nat
        },
        count_of(one_hot(cell).take(n), 0) + count_of(one_hot(cell).take(n), 1) == n,
    decreases n,
{
    if n > 0 {
        lemma_one_hot_prefix(cell, n - 1);
        assert(one_hot(cell).take(n).drop_last() =~= one_hot(cell).take(n - 1));
    }
}

/// The grid that marks one cell holds one 1 and 63 zeros.
pub proof fn lemma_one_hot_counts(cell: int)
    requires
        0 <= cell < 64,
    ensures
        one_hot(cell).len() == 64,
        count_of(one_hot(cell), 1) == 1,
        count_of(one_hot(cell), 0) == 63,
{
    lemma_one_hot_prefix(cell, 64);
    assert(one_hot(cell).take(64) =~= one_hot(cell));
}

/// In the planes of a move between two squares of the board, the grid of the
/// move's start and the grid of its end each hold one 1 and 63 zeros.
pub proof fn lemma_one_hot_marks(squares: Seq<Option<Occupant>>, origin: Square, target: Square)
    requires
        origin.wf(),
        target.wf(),
    ensures
        plane_set(squares, origin.cell(), target.cell()).one_hot_marks(),
{
    origin.lemma_wf_bounds();
    target.lemma_wf_bounds();
    lemma_one_hot_counts(origin.cell());
    lemma_one_hot_counts(target.cell());
}

/// The eight grids of one example.
pub struct BitBoards {
    pawns: Vec<i8>,
    bishops: Vec<i8>,
    knights: Vec<i8>,
    rooks: Vec<i8>,
    kings: Vec<i8>,
    queens: Vec<i8>,
    piece_selected: Vec<i8>,
    destination: Vec<i8>,
}

impl View for BitBoards {
    type V = PlaneSet;

    closed spec fn view(&self) -> PlaneSet {
        PlaneSet {
            pawns: self.pawns@,
            bishops: self.bishops@,
            knights: self.knights@,
            rooks: self.rooks@,
            kings: self.kings@,
            queens: self.queens@,
            piece_selected: self.piece_selected@,
            destination: self.destination@,
        }
    }
}

fn occupancy_grid(snapshot: &Snapshot, kind: PieceKind) -> (grid: Vec<i8>)
    ensures
        grid@ == occupancy(snapshot.squares(), kind),
{
    proof {
        use_type_invariant(snapshot);
    }
    let mut grid: Vec<i8> = Vec::new();
    let mut cell: usize = 0;
    while cell < SQUARES
        invariant
            cell <= 64,
            snapshot.squares@.len() == 64,
            grid@.len() == cell,
            forall|c: int|
                0 <= c < cell ==> grid@[c] == cell_value(
                    snapshot.squares()[square_under_cell(c)],
                    kind,
                ),
        decreases 64 - cell,
    {
        let under: usize = (7 - cell / 8) * 8 + cell % 8;
        let value: i8 = match snapshot.squares[under] {
            Some(piece) => if piece.kind != kind {
                0
            } else if piece.side == Side::White {
                1
            } else {
                -1
            },
            None => 0,
        };
        grid.push(value);
        cell += 1;
    }
    assert(grid@ =~= occupancy(snapshot.squares(), kind));
    grid
}

fn one_hot_grid(cell: usize) -> (grid: Vec<i8>)
    requires
        cell < 64,
    ensures
        grid@ == one_hot(cell as int),
{
    let mut grid: Vec<i8> = vec![0i8; 64];
    grid.set(cell, 1);
    assert(grid@ =~= one_hot(cell as int));
    grid
}

impl BitBoards {
    #[verifier::type_invariant]
    spec fn sized(self) -> bool {
        self@.wf()
    }

    /// Eight grids of zeros.
    pub fn new() -> (boards: BitBoards)
        ensures
            boards@.wf(),
            boards@.pawns == blank(),
            boards@.bishops == blank(),
            boards@.knights == blank(),
            boards@.rooks == blank(),
            boards@.kings == blank(),
            boards@.queens == blank(),
            boards@.piece_selected == blank(),
            boards@.destination == blank(),
    {
        let boards = BitBoards {
            pawns: vec![0i8; 64],
            bishops: vec![0i8; 64],
            knights: vec![0i8; 64],
            rooks: vec![0i8; 64],
            kings: vec![0i8; 64],
            queens: vec![0i8; 64],
            piece_selected: vec![0i8; 64],
            destination: vec![0i8; 64],
        };
        assert(boards@.pawns =~= blank());
        assert(boards@.bishops =~= blank());
        assert(boards@.knights =~= blank());
        assert(boards@.rooks =~= blank());
        assert(boards@.kings =~= blank());
        assert(boards@.queens =~= blank());
        assert(boards@.piece_selected =~= blank());
        assert(boards@.destination =~= blank());
        boards
    }

    /// The planes for the position `snapshot` and a move from `origin` to
    /// `target`.
    pub fn encode(snapshot: &Snapshot, origin: Square, target: Square) -> (boards: BitBoards)
        ensures
            boards@ == plane_set(snapshot.squares(), origin.cell(), target.cell()),
            boards@.wf(),
            boards@.one_piece_per_cell(),
            boards@.one_hot_marks(),
    {
        proof {
            use_type_invariant(origin);
            use_type_invariant(target);
            lemma_one_piece_per_cell(snapshot.squares(), origin.cell(), target.cell());
            lemma_one_hot_marks(snapshot.squares(), origin, target);
        }
        BitBoards {
            pawns: occupancy_grid(snapshot, PieceKind::Pawn),
            bishops: occupancy_grid(snapshot, PieceKind::Bishop),
            knights: occupancy_grid(snapshot, PieceKind::Knight),
            rooks: occupancy_grid(snapshot, PieceKind::Rook),
            kings: occupancy_grid(snapshot, PieceKind::King),
            queens: occupancy_grid(snapshot, PieceKind::Queen),
            piece_selected: one_hot_grid(origin.grid_index()),
            destination: one_hot_grid(target.grid_index()),
        }
    }

    /// One grid as a line of a data file: 64 cells, a comma after each.
    pub fn export_board(board: Vec<i8>) -> (line: String)
        requires
            board@.len() >= 64,
        ensures
            line@ == grid_line(board@),
    {
        let mut line = String::new();
        push_grid_line(&mut line, &board);
        assert(line@ =~= grid_line(board@));
        line
    }

    /// The two-line record of these planes for a data file.
    pub fn export_boards(&self, destination: bool) -> (record: String)
        ensures
            record@ == record_text(self@, destination),
    {
        proof {
            use_type_invariant(self);
        }
        let mut record = String::new();
        push_grid_line(&mut record, &self.pawns);
        push_grid_line(&mut record, &self.bishops);
        push_grid_line(&mut record, &self.knights);
        push_grid_line(&mut record, &self.rooks);
        push_grid_line(&mut record, &self.queens);
        push_grid_line(&mut record, &self.kings);
        record.push('\n');
        if destination {
            push_grid_line(&mut record, &self.destination);
        } else {
            push_grid_line(&mut record, &self.piece_selected);
        }
        record.push('\n');
        assert(record@ =~= record_text(self@, destination));
        record
    }

    /// One grid as a picture of eight rows.
    pub fn print_board(board: Vec<i8>) -> (picture: String)
        requires
            board@.len() >= 64,
        ensures
            picture@ == grid_picture(board@),
    {
        let mut picture = String::new();
        push_grid_picture(&mut picture, &board);
        assert(picture@ =~= grid_picture(board@));
        picture
    }

    /// All eight grids as pictures, each under its heading.
    pub fn print_boards(&self) -> (picture: String)
        ensures
            picture@ == boards_picture(self@),
    {
        proof {
            use_type_invariant(self);
        }
        let mut picture = String::new();
        picture.append("Pawns\n");
        push_grid_picture(&mut picture, &self.pawns);
        picture.append("Bishops\n");
        push_grid_picture(&mut picture, &self.bishops);
        picture.append("Knights\n");
        push_grid_picture(&mut picture, &self.knights);
        picture.append("Rooks\n");
        push_grid_picture(&mut picture, &self.rooks);
        picture.append("Queens\n");
        push_grid_picture(&mut picture, &self.queens);
        picture.append("Kings\n");
        push_grid_picture(&mut picture, &self.kings);
        picture.append("Piece Selected\n");
        push_grid_picture(&mut picture, &self.piece_selected);
        picture.append("Destination\n");
        push_grid_picture(&mut picture, &self.destination);
        assert(picture@ =~= boards_picture(self@));
        picture
    }

    /// The pawn grid.
    pub fn pawns(&self) -> (grid: &Vec<i8>)
        ensures
            grid@ == self@.pawns,
    {
        &self.pawns
    }

    /// The bishop grid.
    pub fn bishops(&self) -> (grid: &Vec<i8>)
        ensures
            grid@ == self@.bishops,
    {
        &self.bishops
    }

    /// The knight grid.
    pub fn knights(&self) -> (grid: &Vec<i8>)
        ensures
            grid@ == self@.knights,
    {
        &self.knights
    }

    /// The rook grid.
    pub fn rooks(&self) -> (grid: &Vec<i8>)
        ensures
            grid@ == self@.rooks,
    {
        &self.rooks
    }

    /// The king grid.
    pub fn kings(&self) -> (grid: &Vec<i8>)
        ensures
            grid@ == self@.kings,
    {
        &self.kings
    }

    /// The queen grid.
    pub fn queens(&self) -> (grid: &Vec<i8>)
        ensures
            grid@ == self@.queens,
    {
        &self.queens
    }

    /// The grid that marks where the move starts.
    pub fn piece_selected(&self) -> (grid: &Vec<i8>)
        ensures
            grid@ == self@.piece_selected,
    {
        &self.piece_selected
    }

    /// The grid that marks where the move ends.
    pub fn destination(&self) -> (grid: &Vec<i8>)
        ensures
            grid@ == self@.destination,
    {
        &self.destination
    }
}

} // verus!
