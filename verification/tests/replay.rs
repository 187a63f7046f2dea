use pgn_planes::game::Game;
use pgn_planes::planes::{BitBoards, Occupant, PieceKind, Side, Snapshot, Square};
use pgn_planes::replay::{replay, take_snapshot, Datasets, ReplayError, ReplayFault};

fn square(name: &str) -> Square {
    let mut chars = name.chars();
    Square::from_name(chars.next().unwrap(), chars.next().unwrap()).unwrap()
}

fn kind_of(letter: char) -> PieceKind {
    match letter.to_ascii_lowercase() {
        'p' => PieceKind::Pawn,
        'b' => PieceKind::Bishop,
        'n' => PieceKind::Knight,
        'r' => PieceKind::Rook,
        'q' => PieceKind::Queen,
        _ => PieceKind::King,
    }
}

/// A position from a picture of eight rows, rank 8 first, white in capitals.
fn position(rows: [&str; 8], turn: Side) -> Snapshot {
    let mut squares = vec![None; 64];
    for (row, text) in rows.iter().enumerate() {
        for (file, letter) in text.chars().enumerate() {
            if letter != '.' {
                let side = if letter.is_ascii_uppercase() { Side::White } else { Side::Black };
                squares[(7 - row) * 8 + file] = Some(Occupant { kind: kind_of(letter), side });
            }
        }
    }
    Snapshot::new(squares, turn).unwrap()
}

const START: [&str; 8] = [
    "rnbqkbnr", "pppppppp", "........", "........", "........", "........", "PPPPPPPP", "RNBQKBNR",
];

fn all_squares(snapshot: &Snapshot) -> Vec<Option<Occupant>> {
    let mut squares = Vec::new();
    for rank in 0..8 {
        for file in 0..8 {
            squares.push(snapshot.occupant(Square::new(file, rank).unwrap()));
        }
    }
    squares
}

fn moves(tokens: &[&str]) -> Vec<String> {
    tokens.iter().map(|token| (*token).to_owned()).collect()
}

fn game_of(tokens: &[&str]) -> Game {
    let mut game = Game::new();
    game.moves = moves(tokens);
    game
}

fn piece_rows(out: &Datasets) -> usize {
    out.pawn.len()
        + out.bishop.len()
        + out.knight.len()
        + out.rook.len()
        + out.queen.len()
        + out.king.len()
}

#[test]
fn snapshot_of_a_new_board_is_the_starting_position() {
    let board = rschess::Board::default();
    let snapshot = take_snapshot(&board);
    assert_eq!(snapshot.side_to_move(), Side::White);
    assert_eq!(all_squares(&snapshot), all_squares(&position(START, Side::White)));
    assert_eq!(
        snapshot.occupant(square("d1")),
        Some(Occupant { kind: PieceKind::Queen, side: Side::White })
    );
    assert_eq!(
        snapshot.occupant(square("e8")),
        Some(Occupant { kind: PieceKind::King, side: Side::Black })
    );
    assert_eq!(
        snapshot.occupant(square("b8")),
        Some(Occupant { kind: PieceKind::Knight, side: Side::Black })
    );
    assert_eq!(
        snapshot.occupant(square("c1")),
        Some(Occupant { kind: PieceKind::Bishop, side: Side::White })
    );
    assert_eq!(snapshot.occupant(square("e4")), None);
}

#[test]
fn snapshot_follows_the_board() {
    let mut board = rschess::Board::default();
    board.make_move_san("e4").unwrap();
    let snapshot = take_snapshot(&board);
    assert_eq!(snapshot.side_to_move(), Side::Black);
    let after = [
        "rnbqkbnr", "pppppppp", "........", "........", "....P...", "........", "PPPP.PPP",
        "RNBQKBNR",
    ];
    assert_eq!(all_squares(&snapshot), all_squares(&position(after, Side::Black)));
}

#[test]
fn white_moves_are_recorded_with_the_position_before_them() {
    let mut out = Datasets::new();
    assert_eq!(game_of(&["e4", "e5", "Nf3"]).process_moves(&mut out), Ok(()));
    assert_eq!(out.piece_selector.len(), 2);
    assert_eq!(out.pawn.len(), 1);
    assert_eq!(out.knight.len(), 1);
    assert_eq!(piece_rows(&out), 2);

    let first = BitBoards::encode(&position(START, Side::White), square("e2"), square("e4"));
    assert_eq!(out.piece_selector[0], first.export_boards(false));
    assert_eq!(out.pawn[0], first.export_boards(true));

    let before_third = [
        "rnbqkbnr", "pppp.ppp", "........", "....p...", "....P...", "........", "PPPP.PPP",
        "RNBQKBNR",
    ];
    let second = BitBoards::encode(
        &position(before_third, Side::White),
        square("g1"),
        square("f3"),
    );
    assert_eq!(out.piece_selector[1], second.export_boards(false));
    assert_eq!(out.knight[0], second.export_boards(true));
}

#[test]
fn first_record_of_a_game_has_the_known_text() {
    let mut out = Datasets::new();
    assert_eq!(game_of(&["e4"]).process_moves(&mut out), Ok(()));
    let zero = " 0,";
    let own = " 1,";
    let other = "-1,";
    let row = |cells: [&str; 8]| cells.concat();
    let blank_rows = |n: usize| zero.repeat(8 * n);
    let pawns = blank_rows(1) + &other.repeat(8) + &blank_rows(4) + &own.repeat(8) + &blank_rows(1);
    let back = |marks: [bool; 8]| {
        let top = row(marks.map(|m| if m { other } else { zero }));
        let bottom = row(marks.map(|m| if m { own } else { zero }));
        top + &blank_rows(6) + &bottom
    };
    let bishops = back([false, false, true, false, false, true, false, false]);
    let knights = back([false, true, false, false, false, false, true, false]);
    let rooks = back([true, false, false, false, false, false, false, true]);
    let queens = back([false, false, false, true, false, false, false, false]);
    let kings = back([false, false, false, false, true, false, false, false]);
    let selected = blank_rows(6) + &zero.repeat(4) + own + &zero.repeat(3) + &blank_rows(1);
    let reached = blank_rows(4) + &zero.repeat(4) + own + &zero.repeat(3) + &blank_rows(3);
    let grids = pawns + &bishops + &knights + &rooks + &queens + &kings;
    assert_eq!(out.piece_selector, vec![format!("{}\n{}\n", grids, selected)]);
    assert_eq!(out.pawn, vec![format!("{}\n{}\n", grids, reached)]);
}

#[test]
fn each_kind_of_piece_has_its_own_data_set() {
    let mut out = Datasets::new();
    let game = game_of(&[
        "e4", "e5", "Nf3", "Nc6", "Bc4", "Bc5", "O-O", "Nf6", "Re1", "O-O", "c3", "d6", "Qb3",
    ]);
    assert_eq!(game.process_moves(&mut out), Ok(()));
    assert_eq!(out.piece_selector.len(), 7);
    assert_eq!(out.pawn.len(), 2);
    assert_eq!(out.knight.len(), 1);
    assert_eq!(out.bishop.len(), 1);
    assert_eq!(out.king.len(), 1);
    assert_eq!(out.rook.len(), 1);
    assert_eq!(out.queen.len(), 1);
}

#[test]
fn selector_gets_one_record_for_each_move_of_white() {
    let tokens = ["d4", "d5", "c4", "e6", "Nc3", "Nf6", "Bg5", "Be7"];
    for played in 0..=tokens.len() {
        let mut out = Datasets::new();
        assert_eq!(game_of(&tokens[..played]).process_moves(&mut out), Ok(()));
        assert_eq!(out.piece_selector.len(), (played + 1) / 2);
        assert_eq!(piece_rows(&out), (played + 1) / 2);
    }
}

#[test]
fn game_without_moves_adds_nothing() {
    let mut out = Datasets::new();
    assert_eq!(game_of(&[]).process_moves(&mut out), Ok(()));
    assert_eq!(out.piece_selector.len(), 0);
    assert_eq!(piece_rows(&out), 0);
}

#[test]
fn records_are_added_behind_those_that_are_there() {
    let mut out = Datasets::new();
    out.piece_selector.push("kept".to_owned());
    out.pawn.push("kept too".to_owned());
    assert_eq!(game_of(&["e4"]).process_moves(&mut out), Ok(()));
    assert_eq!(out.piece_selector.len(), 2);
    assert_eq!(out.piece_selector[0], "kept");
    assert_eq!(out.pawn.len(), 2);
    assert_eq!(out.pawn[0], "kept too");
}

#[test]
fn illegal_move_stops_the_replay() {
    let mut out = Datasets::new();
    assert_eq!(
        game_of(&["e4", "e5", "Qh7", "Nc6"]).process_moves(&mut out),
        Err(ReplayError { index: 2, fault: ReplayFault::Unresolved })
    );
    assert_eq!(out.piece_selector.len(), 1);
    assert_eq!(out.pawn.len(), 1);
    assert_eq!(piece_rows(&out), 1);
}

#[test]
fn illegal_move_of_black_stops_the_replay_after_whites_record() {
    let mut out = Datasets::new();
    assert_eq!(
        game_of(&["e4", "e4"]).process_moves(&mut out),
        Err(ReplayError { index: 1, fault: ReplayFault::Unresolved })
    );
    assert_eq!(out.piece_selector.len(), 1);
}

#[test]
fn token_that_is_no_move_stops_the_replay_at_once() {
    let mut out = Datasets::new();
    assert_eq!(
        game_of(&["castle"]).process_moves(&mut out),
        Err(ReplayError { index: 0, fault: ReplayFault::Unresolved })
    );
    assert_eq!(out.piece_selector.len(), 0);
    assert_eq!(piece_rows(&out), 0);
}

#[test]
fn replay_from_a_position_with_black_to_move_records_white_only() {
    let fen = rschess::Fen::try_from("rnbqkbnr/pppppppp/8/8/4P3/8/PPPP1PPP/RNBQKBNR b KQkq - 0 1")
        .unwrap();
    let board = rschess::Board::from_fen(fen);
    let mut out = Datasets::new();
    assert_eq!(replay(&moves(&["e5", "Nf3", "Nc6"]), board, &mut out), Ok(()));
    assert_eq!(out.piece_selector.len(), 1);
    assert_eq!(out.knight.len(), 1);
    assert_eq!(piece_rows(&out), 1);
}

#[test]
fn record_goes_to_the_selector_and_to_the_data_set_of_the_piece() {
    let boards = BitBoards::encode(&position(START, Side::White), square("b1"), square("c3"));
    let kinds = [
        PieceKind::Pawn,
        PieceKind::Bishop,
        PieceKind::Knight,
        PieceKind::Rook,
        PieceKind::Queen,
        PieceKind::King,
    ];
    for (at, kind) in kinds.into_iter().enumerate() {
        let mut out = Datasets::new();
        out.record(&boards, kind);
        assert_eq!(out.piece_selector, vec![boards.export_boards(false)]);
        let sets = [&out.pawn, &out.bishop, &out.knight, &out.rook, &out.queen, &out.king];
        for (i, set) in sets.into_iter().enumerate() {
            if i == at {
                assert_eq!(set, &vec![boards.export_boards(true)]);
            } else {
                assert!(set.is_empty());
            }
        }
    }
}
