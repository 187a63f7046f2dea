//! One game of an archive: its two ratings, its movetext and its moves.

use crate::engine::{is_start, new_board};
use crate::replay::{
    replay, replay_examples, replay_outcome, sound_planes, Datasets, ReplayError,
};
use crate::text::{
    all_digits, chars_of, decimal_value, is_digit, is_whitespace, lemma_decimal_value_grows,
    space_test, split, string_of_range, texts,
};
use vstd::prelude::*;

verus! {

/// The lowest rating that both players need for their game to be used.
pub const MIN_ELO: u16 = 2000;

/// The rating that `s` writes: digits, with or without a plus sign in front,
/// that give a number up to 65535. Anything else writes no rating.
pub open spec fn parse_u16(s: Seq<char>) -> Option<u16> {
    let digits = if s.len() > 0 && s[0] == '+' {
        s.skip(1)
    } else {
        s
    };
    if digits.len() > 0 && all_digits(digits) && decimal_value(digits) <= u16::MAX {
        Some(decimal_value(digits) as u16)
    } else {
        None
    }
}

/// Reads a rating.
pub fn parse_rating(text: &str) -> (rating: Option<u16>)
    ensures
        rating == parse_u16(text@),
{
    let chars = chars_of(text);
    let start: usize = if chars.len() > 0 && chars[0] == '+' {
        1
    } else {
        0
    };
    let ghost digits = chars@.skip(start as int);
    assert(digits == if text@.len() > 0 && text@[0] == '+' {
        text@.skip(1)
    } else {
        text@
    }) by {
        assert(chars@.skip(0) =~= chars@);
    }
    if start == chars.len() {
        return None;
    }
    let mut value: u32 = 0;
    let mut i: usize = start;
    while i < chars.len()
        invariant
            start <= i <= chars@.len(),
            digits == chars@.skip(start as int),
            digits.len() > 0,
            parse_u16(text@) == if all_digits(digits) && decimal_value(digits) <= u16::MAX {
                Some(decimal_value(digits) as u16)
            } else {
                None
            },
            all_digits(digits.take(i - start)),
            value == decimal_value(digits.take(i - start)),
            value <= u16::MAX,
        decreases chars@.len() - i,
    {
        let code: u32 = chars[i] as u32;
        if code < 0x30 || code > 0x39 {
            assert(!is_digit(digits[i - start]));
            return None;
        }
        let ghost longer = digits.take(i - start + 1);
        assert(longer.drop_last() =~= digits.take(i - start));
        assert(longer.last() == chars@[i as int]);
        value = value * 10 + (code - 0x30);
        assert(all_digits(longer)) by {
            assert forall|j: int| 0 <= j < longer.len() implies is_digit(#[trigger] longer[j]) by {
                if j < longer.len() - 1 {
                    assert(longer[j] == digits.take(i - start)[j]);
                }
            }
        }
        if value > 65535 {
            proof {
                if all_digits(digits) {
                    lemma_decimal_value_grows(digits, i - start + 1);
                }
            }
            return None;
        }
        i += 1;
    }
    assert(digits.take(i - start) =~= digits);
    Some(value as u16)
}

/// Whether `c` is one of the marks that stand around a tag and its value.
pub open spec fn is_tag_mark(c: char) -> bool {
    c == ']' || c == '[' || c == '"'
}

/// A header line without its marks.
pub open spec fn tag_text(line: Seq<char>) -> Seq<char> {
    line.filter(|c: char| !is_tag_mark(c))
}

/// The tag and the value of a header line: what stands before and after the
/// first blank of the line without its marks. A line without a blank has
/// neither.
pub open spec fn tag_of(line: Seq<char>) -> Option<(Seq<char>, Seq<char>)> {
    let text = tag_text(line);
    match text.index_of_first(' ') {
        Some(at) => Some((text.take(at), text.skip(at + 1))),
        None => None,
    }
}

/// How many more braces have opened than closed once all of `s` is read.
pub open spec fn brace_depth(s: Seq<char>) -> int
    decreases s.len(),
{
    if s.len() == 0 {
        0
    } else {
        let before = brace_depth(s.drop_last());
        if s.last() == '{' {
            before + 1
        } else if s.last() == '}' {
            before - 1
        } else {
            before
        }
    }
}

/// `s` without its comments. A character stays where as many braces have
/// closed before it as have opened up to and including it.
pub open spec fn outside_braces(s: Seq<char>) -> Seq<char>
    decreases s.len(),
{
    if s.len() == 0 {
        Seq::empty()
    } else {
        let kept = outside_braces(s.drop_last());
        let depth = brace_depth(s.drop_last()) + if s.last() == '{' {
            1int
        } else {
            0int
        };
        if depth == 0 {
            kept.push(s.last())
        } else {
            kept
        }
    }
}

/// The depth of braces stays within the number of characters read.
pub proof fn lemma_brace_depth_bound(s: Seq<char>)
    ensures
        -s.len() <= brace_depth(s) <= s.len(),
    decreases s.len(),
{
    if s.len() > 0 {
        lemma_brace_depth_bound(s.drop_last());
    }
}

/// Whether `c` is a mark that a commentator puts behind a move.
pub open spec fn is_note(c: char) -> bool {
    c == '?' || c == '!'
}

/// The test for what is no commentator's mark, as a value.
pub open spec fn plain_test() -> spec_fn(char) -> bool {
    |c: char| !is_note(c)
}

/// Whether a piece of movetext is a move or a result: it is not empty and
/// holds no period, as a move number does.
pub open spec fn is_move_token(token: Seq<char>) -> bool {
    token.len() > 0 && !token.contains('.')
}

/// The test for a move or a result, as a value.
pub open spec fn token_test() -> spec_fn(Seq<char>) -> bool {
    |token: Seq<char>| is_move_token(token)
}

/// The moves and the result in a movetext: the comments and the
/// commentator's marks are left out, the rest is split at white space, and
/// the pieces that are empty or hold a period are dropped.
pub open spec fn move_tokens(pgn: Seq<char>) -> Seq<Seq<char>> {
    split(outside_braces(pgn).filter(plain_test()), space_test()).filter(token_test())
}

/// The moves in a movetext: its tokens without the last, which is the
/// result of the game.
pub open spec fn moves_of(pgn: Seq<char>) -> Seq<Seq<char>> {
    let tokens = move_tokens(pgn);
    if tokens.len() == 0 {
        tokens
    } else {
        tokens.drop_last()
    }
}

fn without_notes(chars: &Vec<char>) -> (plain: Vec<char>)
    ensures
        plain@ == chars@.filter(plain_test()),
{
    let mut plain: Vec<char> = Vec::new();
    let mut i: usize = 0;
    while i < chars.len()
        invariant
            i <= chars@.len(),
            plain@ == chars@.take(i as int).filter(plain_test()),
        decreases chars@.len() - i,
    {
        let c = chars[i];
        proof {
            reveal(Seq::filter);
            assert(chars@.take(i + 1).drop_last() =~= chars@.take(i as int));
        }
        if !(c == '?' || c == '!') {
            plain.push(c);
        }
        i += 1;
    }
    assert(chars@.take(i as int) =~= chars@);
    plain
}

fn close_token(tokens: &mut Vec<String>, current: String, dotted: bool, Ghost(closed): Ghost<
    Seq<Seq<char>>,
>)
    requires
        texts(old(tokens)@) == closed.filter(token_test()),
        dotted == current@.contains('.'),
    ensures
        texts(final(tokens)@) == closed.push(current@).filter(token_test()),
{
    proof {
        reveal(Seq::filter);
        assert(closed.push(current@).drop_last() =~= closed);
    }
    if current.as_str().unicode_len() > 0 && !dotted {
        tokens.push(current);
        assert(texts(tokens@) =~= texts(old(tokens)@).push(current@));
    }
}

fn tokens_in(chars: &Vec<char>) -> (tokens: Vec<String>)
    ensures
        texts(tokens@) == split(chars@, space_test()).filter(token_test()),
{
    let mut tokens: Vec<String> = Vec::new();
    let mut current = String::new();
    let mut dotted = false;
    let ghost mut closed: Seq<Seq<char>> = Seq::empty();
    let mut i: usize = 0;
    proof {
        reveal(Seq::filter);
        assert(chars@.take(0) =~= Seq::<char>::empty());
        assert(split(chars@.take(0), space_test()) =~= closed.push(current@));
        assert(texts(tokens@) =~= closed.filter(token_test()));
    }
    while i < chars.len()
        invariant
            i <= chars@.len(),
            split(chars@.take(i as int), space_test()) == closed.push(current@),
            texts(tokens@) == closed.filter(token_test()),
            dotted == current@.contains('.'),
        decreases chars@.len() - i,
    {
        let c = chars[i];
        let ghost before = split(chars@.take(i as int), space_test());
        proof {
            assert(chars@.take(i + 1).drop_last() =~= chars@.take(i as int));
            assert(chars@.take(i + 1).last() == c);
        }
        if is_whitespace(c) {
            close_token(&mut tokens, current, dotted, Ghost(closed));
            proof {
                closed = closed.push(current@);
            }
            current = String::new();
            dotted = false;
        } else {
            let ghost shorter = current@;
            current.push(c);
            proof {
                assert(before.drop_last() =~= closed);
                assert(before.last() == shorter);
                if c == '.' {
                    assert(current@[current@.len() - 1] == '.');
                } else if current@.contains('.') {
                    let at = choose|j: int| 0 <= j < current@.len() && current@[j] == '.';
                    assert(shorter[at] == '.');
                } else if shorter.contains('.') {
                    let at = choose|j: int| 0 <= j < shorter.len() && shorter[j] == '.';
                    assert(current@[at] == '.');
                }
            }
            dotted = dotted || c == '.';
        }
        i += 1;
    }
    assert(chars@.take(i as int) =~= chars@);
    close_token(&mut tokens, current, dotted, Ghost(closed));
    tokens
}

/// One game of an archive.
pub struct Game {
    /// White's rating, where the archive gives one.
    pub white_elo: Option<u16>,
    /// Black's rating, where the archive gives one.
    pub black_elo: Option<u16>,
    /// The movetext as it stands in the archive.
    pub pgn: String,
    /// The moves in the order of play.
    pub moves: Vec<String>,
}

/// A game as contracts speak of it: its texts in place of its strings.
pub struct GameView {
    pub white_elo: Option<u16>,
    pub black_elo: Option<u16>,
    pub pgn: Seq<char>,
    pub moves: Seq<Seq<char>>,
}

impl GameView {
    /// The game of which nothing is known yet.
    pub open spec fn blank() -> GameView {
        GameView { white_elo: None, black_elo: None, pgn: Seq::empty(), moves: Seq::empty() }
    }

    /// Whether both ratings are known and at least `min`.
    pub open spec fn rated(self, min: u16) -> bool {
        &&& self.white_elo matches Some(white) && white >= min
        &&& self.black_elo matches Some(black) && black >= min
    }
}

impl View for Game {
    type V = GameView;

    open spec fn view(&self) -> GameView {
        GameView {
            white_elo: self.white_elo,
            black_elo: self.black_elo,
            pgn: self.pgn@,
            moves: texts(self.moves@),
        }
    }
}

impl Game {
    /// A game of which nothing is known yet.
    pub fn new() -> (game: Game)
        ensures
            game@ == GameView::blank(),
    {
        assert(texts(Seq::<String>::empty()) =~= Seq::<Seq<char>>::empty());
        Game { white_elo: None, black_elo: None, pgn: String::new(), moves: Vec::new() }
    }

    /// Whether both ratings are known and at least `min`.
    pub fn qualifies(&self, min: u16) -> (r: bool)
        ensures
            r == self@.rated(min),
    {
        match (self.white_elo, self.black_elo) {
            (Some(white), Some(black)) => white >= min && black >= min,
            _ => false,
        }
    }

    /// Whether both ratings are known and at least 2000.
    pub fn is_desired(&self) -> (r: bool)
        ensures
            r == self@.rated(MIN_ELO),
    {
        self.qualifies(MIN_ELO)
    }

    /// The tag and the value of a header line, if the line has a blank
    /// between them.
    pub fn split_tag(line: &str) -> (r: Option<(String, String)>)
        ensures
            match r {
                Some((name, value)) => {
                    &&& tag_of(line@) == Some((name@, value@))
                    &&& tag_text(line@) == name@ + seq![' '] + value@
                    &&& !name@.contains(' ')
                },
                None => tag_of(line@) is None && !tag_text(line@).contains(' '),
            },
    {
        let chars = chars_of(line);
        let mut text: Vec<char> = Vec::new();
        let mut i: usize = 0;
        while i < chars.len()
            invariant
                i <= chars@.len(),
                chars@ == line@,
                text@ == tag_text(line@.take(i as int)),
            decreases chars@.len() - i,
        {
            let c = chars[i];
            proof {
                reveal(Seq::filter);
                assert(line@.take(i + 1).drop_last() =~= line@.take(i as int));
            }
            if !(c == ']' || c == '[' || c == '"') {
                text.push(c);
            }
            i += 1;
        }
        assert(line@.take(i as int) =~= line@);
        let mut at: usize = 0;
        while at < text.len() && text[at] != ' '
            invariant
                at <= text@.len(),
                forall|j: int| 0 <= j < at ==> text@[j] != ' ',
            decreases text@.len() - at,
        {
            at += 1;
        }
        proof {
            text@.index_of_first_ensures(' ');
        }
        if at == text.len() {
            None
        } else {
            let name = string_of_range(&text, 0, at);
            let value = string_of_range(&text, at + 1, text.len());
            assert(text@.index_of_first(' ') == Some(at as int));
            assert(text@ =~= name@ + seq![' '] + value@);
            Some((name, value))
        }
    }

    /// The tag and the value of a header line.
    pub fn get_tag(line: &str) -> (r: (String, String))
        requires
            tag_text(line@).contains(' '),
        ensures
            tag_of(line@) == Some((r.0@, r.1@)),
            tag_text(line@) == r.0@ + seq![' '] + r.1@,
            !r.0@.contains(' '),
    {
        Game::split_tag(line).unwrap()
    }

    /// This game with its moves read from its movetext.
    pub fn parse_moves(self) -> (game: Game)
        ensures
            game@ == (GameView { moves: moves_of(self@.pgn), ..self@ }),
    {
        let beginning = Game::remove_brackets(self.pgn.clone());
        let plain = without_notes(&chars_of(beginning.as_str()));
        let mut end = tokens_in(&plain);
        let ghost tokens = end@;
        if end.len() > 0 {
            end.pop();
            assert(texts(end@) =~= texts(tokens).drop_last());
        }
        let mut game = self;
        game.moves = end;
        game
    }

    /// Replays the game from the starting position and writes White's moves
    /// into `out`.
    ///
    /// The records of the examples up to the end of the game, or up to the
    /// first token that the engine does not accept, are added to `out`; the
    /// result says which token that was, if there was one. In a game that is
    /// replayed to its end White makes every other move, the first one too.
    pub fn process_moves(&self, out: &mut Datasets) -> (result: Result<(), ReplayError>)
        ensures
            exists|board: rschess::Board|
                #![trigger is_start(board)]
                {
                    &&& is_start(board)
                    &&& final(out)@ == old(out)@.with_all(
                        replay_examples(board, self@.moves, 0),
                    )
                    &&& result == replay_outcome(board, self@.moves)
                    &&& sound_planes(replay_examples(board, self@.moves, 0))
                },
            result is Ok ==> final(out)@.piece_selector.len() == old(out)@.piece_selector.len()
                + (self@.moves.len() + 1) / 2,
            result is Ok ==> final(out)@.piece_rows() == old(out)@.piece_rows() + (
            self@.moves.len() + 1) / 2,
    {
        let board = new_board();
        replay(&self.moves, board, out)
    }

    /// `input` without its comments: a comment runs from an opening brace to
    /// the closing brace that matches it, and comments may hold comments.
    pub fn remove_brackets(input: String) -> (output: String)
        ensures
            output@ == outside_braces(input@),
    {
        let chars = chars_of(input.as_str());
        let mut output = String::new();
        let mut bracket_depth: i128 = 0;
        let mut i: usize = 0;
        while i < chars.len()
            invariant
                i <= chars@.len(),
                chars@ == input@,
                bracket_depth == brace_depth(input@.take(i as int)),
                output@ == outside_braces(input@.take(i as int)),
            decreases chars@.len() - i,
        {
            let c = chars[i];
            proof {
                lemma_brace_depth_bound(input@.take(i as int));
                assert(input@.take(i + 1).drop_last() =~= input@.take(i as int));
            }
            if c == '{' {
                bracket_depth += 1;
            }
            if bracket_depth == 0 {
                output.push(c);
            }
            if c == '}' {
                bracket_depth -= 1;
            }
            i += 1;
        }
        assert(input@.take(i as int) =~= input@);
        output
    }
}

} // verus!
