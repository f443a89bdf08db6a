//! The offline planner: for an incoming piece kind it tries every offset and
//! rotation, simulates each landing on a copy of the board, ranks the
//! outcomes by `(peak, holes)` and emits the command sequence that steers the
//! piece to the best placement.

use vstd::prelude::*;
use crate::shape::{Tetromino, TetrominoKind, spec_width, spec_height};
use crate::grid::{
    TetrisBoard, Stats, grid_wf, fits_at, settle_from, spec_commit, spec_stats, spec_peak,
    spec_peak_from, spec_holes, lex_le, lex_lt, lemma_holes_cols_bounds,
};
use crate::commands::{Token, apply_token_spec, apply_tokens_spec, lemma_apply_tokens_add};
use crate::grid::horizontal_ok;

verus! {

/// A chosen placement: the offset and rotation to steer to, the landing row
/// gravity gives there, and the statistics of the simulated outcome.
#[derive(Clone, Copy, Debug, PartialEq, Eq, Structural)]
pub struct Placement {
    pub position: usize,
    pub rotation: usize,
    pub landing: usize,
    pub stats: Stats,
}

pub open spec fn spec_piece(kind: TetrominoKind, position: usize, rotation: usize) -> Tetromino {
    Tetromino { kind, position, rotation }
}

/// The pairs the planner enumerates.
pub open spec fn valid_pair(position: usize, rotation: usize) -> bool {
    1 <= position <= 10 && (rotation == 0 || rotation == 90 || rotation == 180 || rotation == 270)
}

/// A pair the planner may pick: horizontally legal, the piece fits, and its
/// landing keeps the piece's bottom row below the near-top threshold of
/// row 19.
pub open spec fn usable(g: Seq<Seq<crate::grid::TetrisCell>>, kind: TetrominoKind,
    position: usize, rotation: usize) -> bool {
    let t = spec_piece(kind, position, rotation);
    &&& position + spec_width(kind, rotation as nat) <= 11
    &&& fits_at(g, t, 19)
    &&& settle_from(g, t, 19) <= 17 + spec_height(kind, rotation as nat)
}

pub open spec fn cand_landing(g: Seq<Seq<crate::grid::TetrisCell>>, kind: TetrominoKind,
    position: usize, rotation: usize) -> int {
    settle_from(g, spec_piece(kind, position, rotation), 19)
}

/// The statistics of the board after committing the pair's landing, before
/// any line is cleared.
pub open spec fn cand_stats(g: Seq<Seq<crate::grid::TetrisCell>>, kind: TetrominoKind,
    position: usize, rotation: usize) -> Stats {
    spec_stats(spec_commit(g, spec_piece(kind, position, rotation),
        cand_landing(g, kind, position, rotation)))
}

/// Enumeration order: offsets ascending, then rotations ascending.
pub open spec fn pair_ord(position: usize, rotation: usize) -> int {
    (position - 1) * 4 + rotation / 90
}

/// The invariant of the planner's search: `best` is the first-found minimum
/// among the pairs enumerated before order index `m`.
pub open spec fn planner_inv(g: Seq<Seq<crate::grid::TetrisCell>>, kind: TetrominoKind,
    best: Option<Placement>, m: int) -> bool {
    match best {
        None => forall|p: usize, ro: usize|
            valid_pair(p, ro) && pair_ord(p, ro) < m ==> !usable(g, kind, p, ro),
        Some(pl) => {
            &&& valid_pair(pl.position, pl.rotation)
            &&& usable(g, kind, pl.position, pl.rotation)
            &&& pair_ord(pl.position, pl.rotation) < m
            &&& pl.landing == cand_landing(g, kind, pl.position, pl.rotation)
            &&& pl.stats == cand_stats(g, kind, pl.position, pl.rotation)
            &&& forall|p: usize, ro: usize|
                valid_pair(p, ro) && pair_ord(p, ro) < m && usable(g, kind, p, ro)
                    ==> lex_le(pl.stats, #[trigger] cand_stats(g, kind, p, ro))
            &&& forall|p: usize, ro: usize|
                valid_pair(p, ro) && pair_ord(p, ro) < pair_ord(pl.position, pl.rotation)
                    && usable(g, kind, p, ro)
                    ==> lex_lt(pl.stats, #[trigger] cand_stats(g, kind, p, ro))
        },
    }
}

pub proof fn lemma_peak_bounds(g: Seq<Seq<crate::grid::TetrisCell>>, r: int)
    ensures
        0 <= spec_peak_from(g, r),
        spec_peak_from(g, r) <= (if r < 0 { 0int } else { r }),
    decreases r + 1,
{
    if r >= 0 {
        lemma_peak_bounds(g, r - 1);
    }
}

/// Tries every (offset, rotation) pair for `kind` on `board` and returns the
/// usable pair with the lexicographically least `(peak, holes)` outcome,
/// ties broken by enumeration order; `None` when no pair is usable.
pub fn choose_placement(board: &TetrisBoard, kind: TetrominoKind) -> (r: Option<Placement>)
    requires
        grid_wf(board@),
    ensures
        r is None ==> forall|p: usize, ro: usize|
            valid_pair(p, ro) ==> !usable(board@, kind, p, ro),
        r matches Some(pl) ==> {
            &&& valid_pair(pl.position, pl.rotation)
            &&& usable(board@, kind, pl.position, pl.rotation)
            &&& pl.landing == cand_landing(board@, kind, pl.position, pl.rotation)
            &&& pl.stats == cand_stats(board@, kind, pl.position, pl.rotation)
            &&& forall|p: usize, ro: usize|
                valid_pair(p, ro) && usable(board@, kind, p, ro)
                    ==> lex_le(pl.stats, #[trigger] cand_stats(board@, kind, p, ro))
            &&& forall|p: usize, ro: usize|
                valid_pair(p, ro) && pair_ord(p, ro) < pair_ord(pl.position, pl.rotation)
                    && usable(board@, kind, p, ro)
                    ==> lex_lt(pl.stats, #[trigger] cand_stats(board@, kind, p, ro))
        },
{
    let mut best: Option<Placement> = None;
    let mut pos: usize = 1;
    while pos <= 10
        invariant
            1 <= pos <= 11,
            grid_wf(board@),
            planner_inv(board@, kind, best, (pos - 1) * 4),
        decreases 11 - pos,
    {
        let mut k: usize = 0;
        while k < 4
            invariant
                1 <= pos <= 10,
                k <= 4,
                grid_wf(board@),
                planner_inv(board@, kind, best, (pos - 1) * 4 + k),
            decreases 4 - k,
        {
            let rot = 90 * k;
            let t = Tetromino { kind, position: pos, rotation: rot };
            let ghost m = (pos - 1) * 4 + k;
            proof {
                assert(valid_pair(pos, rot));
                assert(pair_ord(pos, rot) == m);
            }
            let w = t.width();
            if pos + w <= 11 {
                match board.drop_position(&t) {
                    Some(l) => {
                        let h = t.height();
                        if l <= 17 + h {
                            proof {
                                assert(usable(board@, kind, pos, rot));
                            }
                            let mut sim = board.duplicate();
                            sim.commit_tetromino(&t, l);
                            let st = sim.stats();
                            proof {
                                lemma_peak_bounds(sim@, 19);
                                lemma_holes_cols_bounds(sim@, 9);
                                assert(st == cand_stats(board@, kind, pos, rot));
                            }
                            let candidate = Placement { position: pos, rotation: rot, landing: l, stats: st };
                            match best {
                                None => {
                                    best = Some(candidate);
                                },
                                Some(b) => {
                                    if st.peak < b.stats.peak
                                        || (st.peak == b.stats.peak && st.holes < b.stats.holes) {
                                        best = Some(candidate);
                                    }
                                },
                            }
                        } else {
                            proof {
                                assert(!usable(board@, kind, pos, rot));
                            }
                        }
                    },
                    None => {
                        proof {
                            assert(!usable(board@, kind, pos, rot));
                        }
                    },
                }
            } else {
                proof {
                    assert(!usable(board@, kind, pos, rot));
                }
            }
            proof {
                assert(planner_inv(board@, kind, best, m + 1));
            }
            k += 1;
        }
        pos += 1;
    }
    proof {
        assert forall|p: usize, ro: usize| valid_pair(p, ro) implies pair_ord(p, ro) < 40 by {}
    }
    best
}

/// The command line that steers a spawned piece (rotation 0) to the target
/// offset and rotation: the needed shifts first, then the needed rotations.
pub open spec fn spec_plan(spawn: usize, target_position: usize, target_rotation: usize)
    -> Seq<Token> {
    (if target_position >= spawn {
        Seq::new((target_position - spawn) as nat, |i: int| Token::ShiftRight)
    } else {
        Seq::new((spawn - target_position) as nat, |i: int| Token::ShiftLeft)
    }) + Seq::new((target_rotation / 90) as nat, |i: int| Token::Rotate)
}

/// Emits the command sequence for a chosen placement: one shift per column
/// of difference, then one rotate per 90 degrees.
pub fn plan_commands(spawn_position: usize, target_position: usize, target_rotation: usize)
    -> (cmds: Vec<Token>)
    ensures
        cmds@ == spec_plan(spawn_position, target_position, target_rotation),
{
    let mut cmds: Vec<Token> = Vec::new();
    let shifts = if target_position >= spawn_position {
        target_position - spawn_position
    } else {
        spawn_position - target_position
    };
    let shift_tok = if target_position >= spawn_position {
        Token::ShiftRight
    } else {
        Token::ShiftLeft
    };
    let mut i: usize = 0;
    while i < shifts
        invariant
            i <= shifts,
            cmds@.len() == i,
            forall|j: int| 0 <= j < i ==> cmds@[j] == shift_tok,
        decreases shifts - i,
    {
        cmds.push(shift_tok);
        i += 1;
    }
    let rotations = target_rotation / 90;
    let mut j: usize = 0;
    while j < rotations
        invariant
            j <= rotations,
            cmds@.len() == shifts + j,
            forall|q: int| 0 <= q < shifts ==> cmds@[q] == shift_tok,
            forall|q: int| shifts <= q < shifts + j ==> cmds@[q] == Token::Rotate,
        decreases rotations - j,
    {
        cmds.push(Token::Rotate);
        j += 1;
    }
    proof {
        assert(cmds@ =~= spec_plan(spawn_position, target_position, target_rotation));
    }
    cmds
}

proof fn lemma_right_shifts(t: Tetromino, n: nat)
    requires
        horizontal_ok(t),
        t.position + n + spec_width(t.kind, t.rotation as nat) <= 11,
    ensures
        ({
            let res = apply_tokens_spec(t, Seq::new(n, |i: int| Token::ShiftRight));
            res.position == t.position + n && res.rotation == t.rotation && res.kind == t.kind
        }),
    decreases n,
{
    let toks = Seq::new(n, |i: int| Token::ShiftRight);
    if n == 0 {
    } else {
        assert(toks.drop_last() =~= Seq::new((n - 1) as nat, |i: int| Token::ShiftRight));
        assert(toks.last() == Token::ShiftRight);
        lemma_right_shifts(t, (n - 1) as nat);
    }
}

proof fn lemma_left_shifts(t: Tetromino, n: nat)
    requires
        horizontal_ok(t),
        t.position >= n + 1,
    ensures
        ({
            let res = apply_tokens_spec(t, Seq::new(n, |i: int| Token::ShiftLeft));
            res.position == t.position - n && res.rotation == t.rotation && res.kind == t.kind
        }),
    decreases n,
{
    let toks = Seq::new(n, |i: int| Token::ShiftLeft);
    if n == 0 {
    } else {
        assert(toks.drop_last() =~= Seq::new((n - 1) as nat, |i: int| Token::ShiftLeft));
        assert(toks.last() == Token::ShiftLeft);
        lemma_left_shifts(t, (n - 1) as nat);
    }
}

proof fn lemma_rotates_reach(t: Tetromino, k: nat)
    requires
        horizontal_ok(t),
        t.rotation == 0,
        k <= 3,
        k >= 1 ==> t.position + spec_width(t.kind, 90) <= 11,
        k >= 2 ==> t.position + spec_width(t.kind, 180) <= 11,
        k >= 3 ==> t.position + spec_width(t.kind, 270) <= 11,
    ensures
        ({
            let res = apply_tokens_spec(t, Seq::new(k, |i: int| Token::Rotate));
            res.position == t.position && res.rotation == 90 * k && res.kind == t.kind
        }),
    decreases k,
{
    let toks = Seq::new(k, |i: int| Token::Rotate);
    if k > 0 {
        assert(toks.drop_last() =~= Seq::new((k - 1) as nat, |i: int| Token::Rotate));
        assert(toks.last() == Token::Rotate);
        lemma_rotates_reach(t, (k - 1) as nat);
        let mid = apply_tokens_spec(t, toks.drop_last());
        assert(apply_token_spec(mid, Token::Rotate).rotation == (90 * (k - 1) + 90) % 360);
        assert((90 * k) % 360 == 90 * k);
    }
}

/// The emitted command line reproduces the chosen placement exactly: applied
/// under the referee's command semantics to the spawned piece, the shifts
/// first reach the target offset, then each rotation leaves it in place,
/// because the target offset is legal at every rotation passed through
/// (so the referee's clamps never fire).
pub proof fn lemma_plan_reaches_target(t: Tetromino, target_position: usize,
    target_rotation: usize)
    requires
        horizontal_ok(t),
        t.rotation == 0,
        target_rotation == 0 || target_rotation == 90 || target_rotation == 180
            || target_rotation == 270,
        1 <= target_position,
        target_position + spec_width(t.kind, 0) <= 11,
        target_rotation >= 90 ==> target_position + spec_width(t.kind, 90) <= 11,
        target_rotation >= 180 ==> target_position + spec_width(t.kind, 180) <= 11,
        target_rotation >= 270 ==> target_position + spec_width(t.kind, 270) <= 11,
    ensures
        ({
            let res = apply_tokens_spec(t, spec_plan(t.position, target_position, target_rotation));
            &&& res.position == target_position
            &&& res.rotation == target_rotation
            &&& res.kind == t.kind
        }),
{
    let shifts = if target_position >= t.position {
        Seq::new((target_position - t.position) as nat, |i: int| Token::ShiftRight)
    } else {
        Seq::new((t.position - target_position) as nat, |i: int| Token::ShiftLeft)
    };
    let rotates = Seq::new((target_rotation / 90) as nat, |i: int| Token::Rotate);
    lemma_apply_tokens_add(t, shifts, rotates);
    assert(target_position + spec_width(t.kind, 0) <= 11);
    if target_position >= t.position {
        lemma_right_shifts(t, (target_position - t.position) as nat);
    } else {
        lemma_left_shifts(t, (t.position - target_position) as nat);
    }
    let shifted = apply_tokens_spec(t, shifts);
    lemma_rotates_reach(shifted, (target_rotation / 90) as nat);
}

} // verus!
