use pgn_planes::game::{parse_rating, Game};
use pgn_planes::pipeline::{Pipeline, PipelineError};
use pgn_planes::replay::Datasets;
use pgn_planes::segmenter::{Config, FormatError, Segment, Segmenter};

fn game_with(pgn: &str) -> Game {
    let mut game = Game::new();
    game.pgn = pgn.to_owned();
    game
}

fn moves_in(pgn: &str) -> Vec<String> {
    game_with(pgn).parse_moves().moves
}

fn rows_in(out: &Datasets) -> usize {
    out.pawn.len()
        + out.bishop.len()
        + out.knight.len()
        + out.rook.len()
        + out.queen.len()
        + out.king.len()
}

#[test]
fn new_game_is_blank() {
    let game = Game::new();
    assert_eq!(game.white_elo, None);
    assert_eq!(game.black_elo, None);
    assert_eq!(game.pgn, "");
    assert!(game.moves.is_empty());
    assert!(!game.is_desired());
}

#[test]
fn rating_is_read_as_an_unsigned_number() {
    assert_eq!(parse_rating("2100"), Some(2100));
    assert_eq!(parse_rating("0"), Some(0));
    assert_eq!(parse_rating("+5"), Some(5));
    assert_eq!(parse_rating("0002000"), Some(2000));
    assert_eq!(parse_rating("65535"), Some(65535));
    assert_eq!(parse_rating("65536"), None);
    assert_eq!(parse_rating("99999999999999999999"), None);
    assert_eq!(parse_rating(""), None);
    assert_eq!(parse_rating("+"), None);
    assert_eq!(parse_rating("-1"), None);
    assert_eq!(parse_rating("12a"), None);
    assert_eq!(parse_rating(" 5"), None);
    assert_eq!(parse_rating("?"), None);
    assert_eq!(parse_rating("1_000"), None);
}

#[test]
fn rating_agrees_with_std() {
    for text in ["2100", "+7", "65535", "65536", "", "+", "-0", "١٢", "12 ", "007"] {
        assert_eq!(parse_rating(text), text.parse::<u16>().ok(), "{:?}", text);
    }
}

#[test]
fn tag_is_split_at_the_first_blank() {
    assert_eq!(
        Game::get_tag("[WhiteElo \"2100\"]"),
        ("WhiteElo".to_owned(), "2100".to_owned())
    );
    assert_eq!(
        Game::get_tag("[Event \"Rated Blitz game\"]"),
        ("Event".to_owned(), "Rated Blitz game".to_owned())
    );
    assert_eq!(Game::get_tag("[A ]"), ("A".to_owned(), "".to_owned()));
    assert_eq!(Game::get_tag("[ B]"), ("".to_owned(), "B".to_owned()));
}

#[test]
fn tag_without_a_blank_is_none() {
    assert_eq!(Game::split_tag("[WhiteElo]"), None);
    assert_eq!(Game::split_tag("["), None);
    assert_eq!(
        Game::split_tag("[Site \"x\"]"),
        Some(("Site".to_owned(), "x".to_owned()))
    );
}

#[test]
fn desired_needs_both_ratings_at_the_threshold() {
    let mut game = Game::new();
    game.white_elo = Some(2000);
    assert!(!game.is_desired());
    game.black_elo = Some(1999);
    assert!(!game.is_desired());
    game.black_elo = Some(2000);
    assert!(game.is_desired());
    game.white_elo = Some(1999);
    assert!(!game.is_desired());
    game.white_elo = None;
    assert!(!game.is_desired());
}

#[test]
fn qualifies_takes_the_threshold_given() {
    let mut game = Game::new();
    game.white_elo = Some(1500);
    game.black_elo = Some(1600);
    assert!(game.qualifies(1500));
    assert!(!game.qualifies(1501));
    assert!(game.qualifies(0));
}

#[test]
fn comments_are_removed() {
    assert_eq!(Game::remove_brackets("1. e4 {a comment} e5 *".to_owned()), "1. e4  e5 *");
    assert_eq!(Game::remove_brackets("a {b {c} d} e".to_owned()), "a  e");
    assert_eq!(Game::remove_brackets("".to_owned()), "");
    assert_eq!(Game::remove_brackets("{all}".to_owned()), "");
    assert_eq!(Game::remove_brackets("x {never closed".to_owned()), "x ");
}

#[test]
fn stray_closing_brace_hides_text_up_to_the_next_opening_brace() {
    assert_eq!(Game::remove_brackets("a } b { c".to_owned()), "a }{ c");
}

#[test]
fn brace_comment_scenario() {
    assert_eq!(moves_in("1. e4 {a comment} e5 *"), vec!["e4", "e5"]);
}

#[test]
fn annotations_and_move_numbers_are_dropped() {
    assert_eq!(moves_in("1. e4! e5?? 2. Nf3!? Nc6 1-0"), vec!["e4", "e5", "Nf3", "Nc6"]);
    assert_eq!(moves_in("1.e4 e5 *"), vec!["e5"]);
    assert_eq!(moves_in("1... e5 2. Nf3 1/2-1/2"), vec!["e5", "Nf3"]);
}

#[test]
fn movetext_is_split_at_any_white_space() {
    assert_eq!(moves_in("1.\te4  e5\u{a0}2. Nf3   *"), vec!["e4", "e5", "Nf3"]);
}

#[test]
fn movetext_without_tokens_has_no_moves() {
    assert!(moves_in("").is_empty());
    assert!(moves_in("1. 2. {only a comment}").is_empty());
    assert!(moves_in("*").is_empty());
}

#[test]
fn parse_moves_keeps_the_rest_of_the_game() {
    let mut game = game_with("1. d4 d5 *");
    game.white_elo = Some(2400);
    game.black_elo = Some(2300);
    let game = game.parse_moves();
    assert_eq!(game.white_elo, Some(2400));
    assert_eq!(game.black_elo, Some(2300));
    assert_eq!(game.pgn, "1. d4 d5 *");
    assert_eq!(game.moves, vec!["d4", "d5"]);
}

fn feed_all(segmenter: &mut Segmenter, lines: &[&str]) -> Vec<Segment> {
    lines.iter().map(|line| segmenter.feed(line).unwrap()).collect()
}

#[test]
fn boundary_rule_scenario() {
    let mut segmenter = Segmenter::new(2000);
    let lines = [
        "[WhiteElo \"2100\"]",
        "[BlackElo \"2200\"]",
        "1. e4 e5 2. Nf3 *",
        "[WhiteElo \"1500\"]",
        "[BlackElo \"2500\"]",
        "1. d4 *",
    ];
    let segments = feed_all(&mut segmenter, &lines);
    assert!(matches!(segments[0], Segment::Nothing));
    assert!(matches!(segments[1], Segment::Nothing));
    match &segments[2] {
        Segment::Accepted(game) => {
            assert!(game.is_desired());
            assert_eq!(game.white_elo, Some(2100));
            assert_eq!(game.black_elo, Some(2200));
            assert_eq!(game.moves, vec!["e4", "e5", "Nf3"]);
        }
        _ => panic!("the first game is accepted"),
    }
    assert!(matches!(segments[3], Segment::Nothing));
    assert!(matches!(segments[4], Segment::Nothing));
    assert!(matches!(segments[5], Segment::Rejected));

    let mut pipeline = Pipeline::new(Config::default());
    let mut out = Datasets::new();
    for line in &lines[..3] {
        pipeline.feed_line(line, &mut out).unwrap();
    }
    assert_eq!(out.piece_selector.len(), 2);
    assert_eq!(out.pawn.len(), 1);
    assert_eq!(out.knight.len(), 1);
    let after_first = (out.piece_selector.clone(), out.pawn.clone(), out.knight.clone());
    for line in &lines[3..] {
        pipeline.feed_line(line, &mut out).unwrap();
    }
    assert_eq!(pipeline.games(), 1);
    assert_eq!((out.piece_selector.clone(), out.pawn.clone(), out.knight.clone()), after_first);
    assert_eq!(rows_in(&out), 2);
}

#[test]
fn cap_scenario() {
    let mut pipeline = Pipeline::new(Config { min_rating: 2000, max_games: 1 });
    let mut out = Datasets::new();
    let lines = [
        "[WhiteElo \"2100\"]",
        "[BlackElo \"2200\"]",
        "1. e4 e5 2. Nf3 *",
        "",
        "[WhiteElo \"2300\"]",
        "[BlackElo \"2400\"]",
        "1. d4 d5 2. c4 *",
    ];
    for line in &lines[..3] {
        assert!(!pipeline.finished());
        pipeline.feed_line(line, &mut out).unwrap();
    }
    assert!(pipeline.finished());
    assert_eq!(pipeline.games(), 1);
    let selector = out.piece_selector.clone();
    for line in &lines[3..] {
        pipeline.feed_line(line, &mut out).unwrap();
    }
    assert!(pipeline.finished());
    assert_eq!(pipeline.games(), 1);
    assert_eq!(out.piece_selector, selector);
    assert_eq!(out.piece_selector.len(), 2);
    assert_eq!(rows_in(&out), 2);
}

#[test]
fn cap_of_two_takes_both_games() {
    let mut pipeline = Pipeline::new(Config { min_rating: 2000, max_games: 2 });
    let mut out = Datasets::new();
    let lines = [
        "[WhiteElo \"2100\"]",
        "[BlackElo \"2200\"]",
        "1. e4 e5 2. Nf3 *",
        "",
        "[WhiteElo \"2300\"]",
        "[BlackElo \"2400\"]",
        "1. d4 d5 2. c4 *",
    ];
    for line in lines {
        pipeline.feed_line(line, &mut out).unwrap();
    }
    assert!(pipeline.finished());
    assert_eq!(pipeline.games(), 2);
    assert_eq!(out.piece_selector.len(), 4);
    assert_eq!(out.pawn.len(), 3);
    assert_eq!(out.knight.len(), 1);
}

#[test]
fn cap_of_zero_still_takes_one_game() {
    let mut pipeline = Pipeline::new(Config { min_rating: 0, max_games: 0 });
    let mut out = Datasets::new();
    assert!(!pipeline.finished());
    for line in ["[WhiteElo \"1\"]", "[BlackElo \"1\"]", "1. e4 *"] {
        pipeline.feed_line(line, &mut out).unwrap();
    }
    assert!(pipeline.finished());
    assert_eq!(out.piece_selector.len(), 1);
}

#[test]
fn game_without_both_ratings_adds_no_rows() {
    let archives: [&[&str]; 4] = [
        &["[Event \"x y\"]", "1. e4 e5 *"],
        &["[WhiteElo \"2500\"]", "1. e4 e5 *"],
        &["[WhiteElo \"2500\"]", "[BlackElo \"1999\"]", "1. e4 e5 *"],
        &["[WhiteElo \"?\"]", "[BlackElo \"2500\"]", "1. e4 e5 *"],
    ];
    for lines in archives {
        let mut pipeline = Pipeline::new(Config::default());
        let mut out = Datasets::new();
        for line in lines {
            pipeline.feed_line(line, &mut out).unwrap();
        }
        assert_eq!(out.piece_selector.len(), 0);
        assert_eq!(rows_in(&out), 0);
        assert_eq!(pipeline.games(), 0);
    }
}

#[test]
fn rating_that_fails_to_parse_unsets_an_earlier_one() {
    let mut segmenter = Segmenter::new(2000);
    let segments = feed_all(
        &mut segmenter,
        &["[WhiteElo \"2500\"]", "[WhiteElo \"x\"]", "[BlackElo \"2500\"]", "1. e4 *"],
    );
    assert!(matches!(segments[3], Segment::Rejected));
}

#[test]
fn empty_lines_do_not_count() {
    let mut segmenter = Segmenter::new(2000);
    let segments = feed_all(
        &mut segmenter,
        &["", "[WhiteElo \"2500\"]", "", "[BlackElo \"2500\"]", "", "1. e4 e5 *", ""],
    );
    assert!(matches!(segments[4], Segment::Nothing));
    match &segments[5] {
        Segment::Accepted(game) => assert_eq!(game.moves, vec!["e4", "e5"]),
        _ => panic!("the game is accepted"),
    }
    assert!(matches!(segments[6], Segment::Nothing));
}

#[test]
fn later_body_lines_go_to_the_next_game() {
    let mut segmenter = Segmenter::new(2000);
    let segments = feed_all(
        &mut segmenter,
        &[
            "[WhiteElo \"2500\"]",
            "[BlackElo \"2500\"]",
            "1. e4 e5",
            "2. Nf3 Nc6 *",
            "[WhiteElo \"2600\"]",
            "[BlackElo \"2600\"]",
            "1. d4 d5 *",
        ],
    );
    match &segments[2] {
        Segment::Accepted(game) => {
            assert_eq!(game.pgn, "1. e4 e5");
            assert_eq!(game.moves, vec!["e4"]);
        }
        _ => panic!("the first game is accepted"),
    }
    assert!(matches!(segments[3], Segment::Nothing));
    match &segments[6] {
        Segment::Accepted(game) => {
            assert_eq!(game.pgn, "2. Nf3 Nc6 *1. d4 d5 *");
            assert_eq!(game.moves, vec!["Nf3", "Nc6", "d4", "d5"]);
        }
        _ => panic!("the second game is accepted"),
    }
}

#[test]
fn body_line_at_the_start_ends_no_game() {
    let mut segmenter = Segmenter::new(0);
    let segments = feed_all(&mut segmenter, &["1. e4 *", "1. d4 *"]);
    assert!(matches!(segments[0], Segment::Nothing));
    assert!(matches!(segments[1], Segment::Nothing));
    assert_eq!(segmenter.current.pgn, "1. e4 *1. d4 *");
}

#[test]
fn header_without_a_blank_is_a_format_error() {
    let mut segmenter = Segmenter::new(2000);
    segmenter.feed("[WhiteElo \"2500\"]").unwrap();
    assert!(matches!(segmenter.feed("[Broken]"), Err(FormatError::MissingSeparator)));
    assert_eq!(segmenter.current.white_elo, Some(2500));
    assert!(segmenter.after_header);

    let mut pipeline = Pipeline::new(Config::default());
    let mut out = Datasets::new();
    assert_eq!(
        pipeline.feed_line("[Broken]", &mut out),
        Err(PipelineError::Format(FormatError::MissingSeparator))
    );
    assert_eq!(out.piece_selector.len(), 0);
}

#[test]
fn default_settings() {
    let config = Config::default();
    assert_eq!(config.min_rating, 2000);
    assert_eq!(config.max_games, 20000);
}
