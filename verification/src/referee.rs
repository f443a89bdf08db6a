//! The online referee session: it owns the live board, the running score and
//! the pseudo-random generator, spawns a piece per round, applies the
//! submitted command line, commits the piece, clears lines and scores them.

use vstd::prelude::*;
use crate::shape::{Tetromino, TetrominoKind};
use crate::grid::{
    TetrisBoard, grid_wf, horizontal_ok, fits_at, settle_from, spec_commit, spec_clear,
    cleared_count, spec_empty_grid,
};
use crate::commands::{apply_commands, apply_tokens_spec, parse_token_spec, spec_tokens, token_views};

verus! {

#[verifier::external_type_specification]
#[verifier::external_body]
pub struct ExStdRng(rand::rngs::StdRng);

/// How a session ends: the score target was reached, a command line held an
/// unrecognized token, or a piece could not be placed.
#[derive(Clone, Copy, Debug, PartialEq, Eq, Structural)]
pub enum GameOver {
    Won,
    WrongInput,
    Dead,
}

/// Relies on rand's `RngCore::next_u32` for `StdRng`; nothing is assumed of
/// the value drawn.
#[verifier::external_body]
fn rng_next_u32(rng: &mut rand::rngs::StdRng) -> u32 {
    rand::RngCore::next_u32(rng)
}

/// Relies on rand's `SliceRandom::choose` for slices: it returns `Some` of
/// one of the slice's elements when the slice is nonempty, and `None` when
/// it is empty.
#[verifier::external_body]
fn rng_choose_kind(rng: &mut rand::rngs::StdRng, kinds: &Vec<TetrominoKind>)
    -> (r: Option<TetrominoKind>)
    ensures
        (r is Some) <==> kinds@.len() > 0,
        r matches Some(k) ==> kinds@.contains(k),
{
    rand::seq::SliceRandom::choose(kinds.as_slice(), rng).copied()
}

/// One referee session.
pub struct Tetris {
    pub rng: rand::rngs::StdRng,
    pub board: TetrisBoard,
    pub kinds: Vec<TetrominoKind>,
    pub score: u64,
    pub score_limit: u64,
}

impl Tetris {
    /// A fresh session: empty board, score 0, pieces drawn uniformly from
    /// `kinds` (the O piece alone when `kinds` is empty).
    pub fn new(rng: rand::rngs::StdRng, score_limit: u64, kinds: Vec<TetrominoKind>) -> (s: Tetris)
        ensures
            s.board@ == spec_empty_grid(),
            grid_wf(s.board@),
            s.score == 0,
            s.score_limit == score_limit,
            s.kinds == kinds,
    {
        Tetris {
            rng,
            board: <TetrisBoard as Default>::default(),
            kinds,
            score: 0,
            score_limit,
        }
    }

    /// Whether the score target has been reached.
    pub fn is_finished(&self) -> (b: bool)
        ensures
            b == (self.score >= self.score_limit),
    {
        self.score >= self.score_limit
    }

    /// Spawns the round's piece: a uniformly drawn kind from the enabled set
    /// and a uniformly drawn legal offset for its rotation-0 width.
    pub fn spawn_tetromino(&mut self) -> (t: Tetromino)
        ensures
            t.rotation == 0,
            horizontal_ok(t),
            old(self).kinds@.len() > 0 ==> old(self).kinds@.contains(t.kind),
            old(self).kinds@.len() == 0 ==> t.kind == TetrominoKind::O,
            final(self).board == old(self).board,
            final(self).kinds == old(self).kinds,
            final(self).score == old(self).score,
            final(self).score_limit == old(self).score_limit,
    {
        let kind = match rng_choose_kind(&mut self.rng, &self.kinds) {
            Some(k) => k,
            None => TetrominoKind::O,
        };
        let probe = Tetromino { kind, position: 1, rotation: 0 };
        let w = probe.width();
        proof {
            crate::shape::lemma_blocks_bounds(kind, 0);
        }
        let draw = rng_next_u32(&mut self.rng);
        let position = (draw as usize) % (11 - w) + 1;
        Tetromino { kind, position, rotation: 0 }
    }

    /// Plays one round with an already-spawned piece and the submitted
    /// command tokens: applies the commands, drops and commits the piece,
    /// clears full lines and adds their count to the score. Returns `None`
    /// when the round completed, `Some(WrongInput)` on an unrecognized
    /// token, and `Some(Dead)` when the piece cannot be placed.
    pub fn play_round(&mut self, piece: Tetromino, tokens: &Vec<String>) -> (r: Option<GameOver>)
        requires
            grid_wf(old(self).board@),
            horizontal_ok(piece),
            piece.rotation < 360,
        ensures
            grid_wf(final(self).board@),
            final(self).kinds == old(self).kinds,
            final(self).score_limit == old(self).score_limit,
            (r == Some(GameOver::WrongInput)) <==> !(forall|i: int| 0 <= i < tokens@.len() ==>
                parse_token_spec((#[trigger] tokens@[i])@) is Some),
            r != Some(GameOver::Won),
            ({
                let t2 = apply_tokens_spec(piece, spec_tokens(token_views(tokens@)));
                let landing = settle_from(old(self).board@, t2, 19);
                let committed = spec_commit(old(self).board@, t2, landing);
                &&& ((r == Some(GameOver::Dead)) <==> ((r != Some(GameOver::WrongInput))
                        && !fits_at(old(self).board@, t2, 19)))
                &&& (r is Some ==> final(self).board@ == old(self).board@
                        && final(self).score == old(self).score)
                &&& (r is None ==> {
                    &&& final(self).board@ == spec_clear(committed)
                    &&& final(self).score as int == (
                        if old(self).score + cleared_count(committed) <= u64::MAX {
                            old(self).score + cleared_count(committed)
                        } else {
                            u64::MAX as int
                        })
                })
            }),
    {
        let mut t = piece;
        if !apply_commands(&mut t, tokens) {
            return Some(GameOver::WrongInput);
        }
        match self.board.try_apply_tetromino(t) {
            Err(_) => Some(GameOver::Dead),
            Ok(_) => {
                let cleared = self.board.clean_full_lines();
                if cleared > u64::MAX - self.score {
                    self.score = u64::MAX;
                } else {
                    self.score = self.score + cleared;
                }
                None
            },
        }
    }
}

} // verus!
