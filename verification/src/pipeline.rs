//! From the lines of an archive to the records of the data sets.
//!
//! Each line goes to the segmenter. A game that it hands on is replayed, and
//! the records of White's moves are added to the data sets. Once as many
//! games have been used as the settings allow, the run is over and further
//! lines bring nothing.

use crate::engine::is_start;
use crate::replay::{replay_examples, replay_outcome, sound_planes, Datasets, ReplayError};
use crate::segmenter::{Config, FormatError, Outcome, Segment, Segmenter, SegmenterView};
use vstd::prelude::*;

verus! {

/// Why a run cannot go on.
#[derive(Clone, Copy, Debug, PartialEq, Eq, Structural)]
pub enum PipelineError {
    /// A line of the archive is not as it should be.
    Format(FormatError),
    /// The engine does not accept a move of a game.
    Replay(ReplayError),
}

/// The state of a run, as contracts speak of it.
pub struct PipelineView {
    /// The state of the segmenter.
    pub segmenter: SegmenterView,
    /// How many games have been used.
    pub games: nat,
    /// The run ends once this many games have been used.
    pub max_games: nat,
    /// Whether the run is over.
    pub finished: bool,
}

/// A run over an archive.
pub struct Pipeline {
    segmenter: Segmenter,
    games: usize,
    max_games: usize,
    finished: bool,
}

impl View for Pipeline {
    type V = PipelineView;

    closed spec fn view(&self) -> PipelineView {
        PipelineView {
            segmenter: self.segmenter@,
            games: self.games as nat,
            max_games: self.max_games as nat,
            finished: self.finished,
        }
    }
}

impl Pipeline {
    /// The count of games is within the limit of the settings, so that one
    /// more game can be counted: a run that `new` made and `feed_line` fed.
    pub closed spec fn wf(self) -> bool {
        self.finished || self.games == 0 || self.games < self.max_games
    }

    /// A run at the start of an archive.
    pub fn new(config: Config) -> (pipeline: Pipeline)
        ensures
            pipeline.wf(),
            pipeline@ == (PipelineView {
                segmenter: Segmenter::new_view(config.min_rating),
                games: 0,
                max_games: config.max_games as nat,
                finished: false,
            }),
    {
        Pipeline {
            segmenter: Segmenter::new(config.min_rating),
            games: 0,
            max_games: config.max_games,
            finished: false,
        }
    }

    /// How many games have been used.
    pub fn games(&self) -> (n: usize)
        ensures
            n == self@.games,
    {
        self.games
    }

    /// Whether the run is over.
    pub fn finished(&self) -> (r: bool)
        ensures
            r == self@.finished,
    {
        self.finished
    }

    /// Takes the next line of the archive and adds to `out` what it brings.
    ///
    /// Only a line that ends a game whose players are both rated high enough
    /// adds anything: the records of that game's replay from the starting
    /// position. Such a game counts, and with the last game that the settings
    /// allow the run is over. A run that is over takes lines and does nothing.
    /// After an error the run should not go on.
    pub fn feed_line(&mut self, line: &str, out: &mut Datasets) -> (result: Result<
        (),
        PipelineError,
    >)
        requires
            old(self).wf(),
        ensures
            final(self).wf(),
            old(self)@.finished ==> result is Ok && final(self)@ == old(self)@ && final(out)@
                == old(out)@,
            !old(self)@.finished ==> match old(self)@.segmenter.fed(line@) {
                Err(error) => {
                    &&& result == Err::<(), PipelineError>(PipelineError::Format(error))
                    &&& final(self)@ == old(self)@
                    &&& final(out)@ == old(out)@
                },
                Ok((state, Outcome::Accepted(game))) => exists|board: rschess::Board|
                    #![trigger is_start(board)]
                    {
                        &&& is_start(board)
                        &&& final(out)@ == old(out)@.with_all(
                            replay_examples(board, game.moves, 0),
                        )
                        &&& sound_planes(replay_examples(board, game.moves, 0))
                        &&& match replay_outcome(board, game.moves) {
                            Ok(_) => {
                                &&& result is Ok
                                &&& final(out)@.piece_selector.len() == old(
                                    out,
                                )@.piece_selector.len() + (game.moves.len() + 1) / 2
                                &&& final(out)@.piece_rows() == old(out)@.piece_rows() + (
                                game.moves.len() + 1) / 2
                                &&& final(self)@ == (PipelineView {
                                    segmenter: state,
                                    games: old(self)@.games + 1,
                                    finished: old(self)@.games + 1 >= old(self)@.max_games,
                                    ..old(self)@
                                })
                            },
                            Err(error) => {
                                &&& result == Err::<(), PipelineError>(
                                    PipelineError::Replay(error),
                                )
                                &&& final(self)@ == (PipelineView {
                                    segmenter: state,
                                    ..old(self)@
                                })
                            },
                        }
                    },
                Ok((state, _)) => {
                    &&& result is Ok
                    &&& final(self)@ == (PipelineView { segmenter: state, ..old(self)@ })
                    &&& final(out)@ == old(out)@
                },
            },
    {
        if self.finished {
            return Ok(());
        }
        let segment = match self.segmenter.feed(line) {
            Ok(segment) => segment,
            Err(error) => {
                return Err(PipelineError::Format(error));
            },
        };
        match segment {
            Segment::Accepted(game) => {
                match game.process_moves(out) {
                    Ok(_) => {
                        self.games = self.games + 1;
                        self.finished = self.games >= self.max_games;
                        Ok(())
                    },
                    Err(error) => Err(PipelineError::Replay(error)),
                }
            },
            _ => Ok(()),
        }
    }
}

} // verus!
