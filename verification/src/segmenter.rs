//! Cutting an archive into games, line by line.
//!
//! A line that starts with an opening bracket is a header line and carries a
//! tag with its value. Any other line that is not empty is a body line. Empty
//! lines count for nothing. The first body line after a header line ends a
//! game: the game is handed on if both players are rated high enough and
//! dropped if not, and a new game begins either way. The archive is expected
//! to hold the whole movetext of a game on that one line.

use crate::game::{moves_of, parse_u16, tag_of, Game, GameView};
use vstd::prelude::*;
use vstd::string::StringExecFns;

verus! {

/// The most games that are used unless the settings say otherwise.
pub const MAX_GAMES: usize = 20000;

/// The settings of a run.
#[derive(Clone, Copy, Debug)]
pub struct Config {
    /// The lowest rating that both players need for their game to be used.
    pub min_rating: u16,
    /// The run ends once this many games have been used.
    pub max_games: usize,
}

impl Default for Config {
    fn default() -> (config: Config)
        ensures
            config.min_rating == 2000,
            config.max_games == 20000,
    {
        Config { min_rating: crate::game::MIN_ELO, max_games: MAX_GAMES }
    }
}

/// What is wrong with a line of the archive.
#[derive(Clone, Copy, Debug, PartialEq, Eq, Structural)]
pub enum FormatError {
    /// A header line has no blank between its tag and its value.
    MissingSeparator,
}

/// Whether `line` is a header line.
pub open spec fn is_header(line: Seq<char>) -> bool {
    line.len() > 0 && line[0] == '['
}

/// `game` after a header line with tag `name` and value `value`: the two
/// rating tags set their rating, or unset it where the value is no rating,
/// and every other tag changes nothing.
pub open spec fn with_tag(game: GameView, name: Seq<char>, value: Seq<char>) -> GameView {
    if name == "WhiteElo"@ {
        GameView { white_elo: parse_u16(value), ..game }
    } else if name == "BlackElo"@ {
        GameView { black_elo: parse_u16(value), ..game }
    } else {
        game
    }
}

/// What a line brings, as contracts speak of it.
pub enum Outcome {
    /// No game ends at this line.
    Nothing,
    /// A game ends and is dropped: a rating is missing or too low.
    Rejected,
    /// A game ends and is handed on with its moves.
    Accepted(GameView),
}

/// What a line brings.
pub enum Segment {
    /// No game ends at this line.
    Nothing,
    /// A game ends and is dropped: a rating is missing or too low.
    Rejected,
    /// A game ends and is handed on with its moves.
    Accepted(Game),
}

impl View for Segment {
    type V = Outcome;

    open spec fn view(&self) -> Outcome {
        match self {
            Segment::Nothing => Outcome::Nothing,
            Segment::Rejected => Outcome::Rejected,
            Segment::Accepted(game) => Outcome::Accepted(game@),
        }
    }
}

/// The state of a segmenter, as contracts speak of it.
pub struct SegmenterView {
    /// The game that is being put together.
    pub current: GameView,
    /// Whether the last line that was not empty was a header line.
    pub after_header: bool,
    /// The lowest rating that both players need.
    pub min_rating: u16,
}

impl SegmenterView {
    /// The state after `line`, and what the line brings; or what is wrong
    /// with the line.
    pub open spec fn fed(self, line: Seq<char>) -> Result<(SegmenterView, Outcome), FormatError> {
        if line.len() == 0 {
            Ok((self, Outcome::Nothing))
        } else if is_header(line) {
            match tag_of(line) {
                None => Err(FormatError::MissingSeparator),
                Some((name, value)) => Ok(
                    (
                        SegmenterView {
                            current: with_tag(self.current, name, value),
                            after_header: true,
                            ..self
                        },
                        Outcome::Nothing,
                    ),
                ),
            }
        } else {
            let grown = GameView { pgn: self.current.pgn + line, ..self.current };
            if !self.after_header {
                Ok((SegmenterView { current: grown, after_header: false, ..self }, Outcome::Nothing))
            } else {
                let fresh = SegmenterView {
                    current: GameView::blank(),
                    after_header: false,
                    ..self
                };
                if grown.rated(self.min_rating) {
                    Ok((fresh, Outcome::Accepted(GameView { moves: moves_of(grown.pgn), ..grown })))
                } else {
                    Ok((fresh, Outcome::Rejected))
                }
            }
        }
    }
}

/// Cuts an archive into games, one line at a time.
pub struct Segmenter {
    /// The game that is being put together.
    pub current: Game,
    /// Whether the last line that was not empty was a header line.
    pub after_header: bool,
    /// The lowest rating that both players need.
    pub min_rating: u16,
}

impl View for Segmenter {
    type V = SegmenterView;

    open spec fn view(&self) -> SegmenterView {
        SegmenterView {
            current: self.current@,
            after_header: self.after_header,
            min_rating: self.min_rating,
        }
    }
}

fn is_text(s: &String, text: &str) -> (r: bool)
    ensures
        r == (s@ == text@),
{
    let other = text.to_owned();
    *s == other
}

fn starts_with_bracket(line: &str) -> (r: bool)
    ensures
        r == is_header(line@),
{
    let mut chars = line.chars();
    match chars.next() {
        Some(c) => c == '[',
        None => false,
    }
}

impl Segmenter {
    /// The state at the start of an archive.
    pub open spec fn new_view(min_rating: u16) -> SegmenterView {
        SegmenterView { current: GameView::blank(), after_header: false, min_rating }
    }

    /// A segmenter at the start of an archive.
    pub fn new(min_rating: u16) -> (segmenter: Segmenter)
        ensures
            segmenter@ == Segmenter::new_view(min_rating),
    {
        Segmenter { current: Game::new(), after_header: false, min_rating }
    }

    /// Takes the next line of the archive.
    ///
    /// The result is the game that ends at this line, if one does and both
    /// its players are rated high enough. A header line without a blank is an
    /// error and leaves the segmenter as it was.
    pub fn feed(&mut self, line: &str) -> (result: Result<Segment, FormatError>)
        ensures
            match old(self)@.fed(line@) {
                Ok((state, outcome)) => result matches Ok(segment) && segment@ == outcome
                    && final(self)@ == state,
                Err(error) => result == Err::<Segment, FormatError>(error) && final(self)@ == old(
                    self,
                )@,
            },
    {
        if line.is_empty() {
            return Ok(Segment::Nothing);
        }
        if starts_with_bracket(line) {
            let (name, value) = match Game::split_tag(line) {
                Some(tag) => tag,
                None => {
                    return Err(FormatError::MissingSeparator);
                },
            };
            if is_text(&name, "WhiteElo") {
                self.current.white_elo = crate::game::parse_rating(value.as_str());
            } else if is_text(&name, "BlackElo") {
                self.current.black_elo = crate::game::parse_rating(value.as_str());
            }
            self.after_header = true;
            return Ok(Segment::Nothing);
        }
        self.current.pgn.append(line);
        if !self.after_header {
            return Ok(Segment::Nothing);
        }
        self.after_header = false;
        let mut game = Game::new();
        std::mem::swap(&mut game, &mut self.current);
        if game.qualifies(self.min_rating) {
            Ok(Segment::Accepted(game.parse_moves()))
        } else {
            Ok(Segment::Rejected)
        }
    }
}

} // verus!
