//! The board: a fixed 20-row by 10-column cell matrix, row 0 at the bottom,
//! with collision tests, gravity-based placement, line clearing and derived
//! statistics.
//!
//! A piece with blocks `(x, y)` placed at `position` with landing row `L`
//! occupies the cells `(row L - y, column position + x - 1)`; the landing row
//! is the row of the piece's topmost cells.

use vstd::prelude::*;
use crate::shape::{Tetromino, spec_blocks, spec_width};

verus! {

/// One cell of the board.
#[derive(Clone, Copy, Debug, PartialEq, Eq, Structural)]
pub enum TetrisCell {
    Empty,
    Occupied,
}

impl Default for TetrisCell {
    fn default() -> (r: Self)
        ensures
            r == TetrisCell::Empty,
    {
        TetrisCell::Empty
    }
}

impl TetrisCell {
    pub fn is_occupied(&self) -> (b: bool)
        ensures
            b == (*self is Occupied),
    {
        match self {
            TetrisCell::Occupied => true,
            _ => false,
        }
    }
}

/// The sequence of row views of a vector of rows.
pub open spec fn rows_view(rows: Seq<Vec<TetrisCell>>) -> Seq<Seq<TetrisCell>> {
    Seq::new(rows.len(), |i: int| rows[i]@)
}

/// A well-formed board: 20 rows of 10 cells each.
pub open spec fn grid_wf(g: Seq<Seq<TetrisCell>>) -> bool {
    g.len() == 20 && forall|r: int| 0 <= r < 20 ==> (#[trigger] g[r]).len() == 10
}

pub open spec fn cell_occupied(g: Seq<Seq<TetrisCell>>, r: int, c: int) -> bool {
    g[r][c] is Occupied
}

/// A row in which every cell is occupied.
pub open spec fn spec_full_row(row: Seq<TetrisCell>) -> bool {
    forall|c: int| 0 <= c < row.len() ==> (#[trigger] row[c]) is Occupied
}

/// A row with at least one occupied cell.
pub open spec fn spec_row_any(row: Seq<TetrisCell>) -> bool {
    exists|c: int| 0 <= c < row.len() && (#[trigger] row[c]) is Occupied
}

pub open spec fn spec_empty_row() -> Seq<TetrisCell> {
    Seq::new(10, |c: int| TetrisCell::Empty)
}

pub open spec fn spec_empty_grid() -> Seq<Seq<TetrisCell>> {
    Seq::new(20, |r: int| spec_empty_row())
}

/// The board cell covered by block `i` of piece `t` when its top row is
/// `landing`.
pub open spec fn block_cell(t: Tetromino, landing: int, i: int) -> (int, int) {
    let b = spec_blocks(t.kind, t.rotation as nat)[i];
    (landing - b.1, t.position + b.0 - 1)
}

/// Horizontal legality: the whole bounding box lies within columns 1..=10.
pub open spec fn horizontal_ok(t: Tetromino) -> bool {
    1 <= t.position && t.position + spec_width(t.kind, t.rotation as nat) <= 11
}

/// The piece fits with its top row at `landing`: every block maps to an
/// in-bounds, unoccupied cell.
pub open spec fn fits_at(g: Seq<Seq<TetrisCell>>, t: Tetromino, landing: int) -> bool {
    &&& 0 <= landing < 20
    &&& forall|i: int| 0 <= i < 4 ==> {
        let rc = #[trigger] block_cell(t, landing, i);
        0 <= rc.0 && !cell_occupied(g, rc.0, rc.1)
    }
}

/// The landing row reached by gravity from `from`: the piece slides down one
/// row at a time while the row below is free.
pub open spec fn settle_from(g: Seq<Seq<TetrisCell>>, t: Tetromino, from: int) -> int
    decreases from,
{
    if from <= 0 {
        0
    } else if fits_at(g, t, from - 1) {
        settle_from(g, t, from - 1)
    } else {
        from
    }
}

/// The board with the cell at `(r, c)` marked occupied.
pub open spec fn spec_put(g: Seq<Seq<TetrisCell>>, r: int, c: int) -> Seq<Seq<TetrisCell>> {
    g.update(r, g[r].update(c, TetrisCell::Occupied))
}

/// The board after the first `n` blocks of `t` have each marked their cell
/// occupied.
pub open spec fn spec_commit_n(g: Seq<Seq<TetrisCell>>, t: Tetromino, landing: int, n: int)
    -> Seq<Seq<TetrisCell>>
    decreases n,
{
    if n <= 0 {
        g
    } else {
        let rc = block_cell(t, landing, n - 1);
        spec_put(spec_commit_n(g, t, landing, n - 1), rc.0, rc.1)
    }
}

/// The board after committing piece `t` with its top row at `landing`.
pub open spec fn spec_commit(g: Seq<Seq<TetrisCell>>, t: Tetromino, landing: int)
    -> Seq<Seq<TetrisCell>> {
    spec_commit_n(g, t, landing, 4)
}

/// The rows of `g` that are not full, in their original order.
pub open spec fn spec_kept_rows(g: Seq<Seq<TetrisCell>>) -> Seq<Seq<TetrisCell>> {
    g.filter(|row: Seq<TetrisCell>| !spec_full_row(row))
}

/// The board after removing every full row and letting the rows above fall:
/// the rows that are not full, in order, followed by empty rows at the top.
pub open spec fn spec_clear(g: Seq<Seq<TetrisCell>>) -> Seq<Seq<TetrisCell>> {
    spec_kept_rows(g) + Seq::new((g.len() - spec_kept_rows(g).len()) as nat, |i: int| spec_empty_row())
}

/// How many rows of `g` are full.
pub open spec fn cleared_count(g: Seq<Seq<TetrisCell>>) -> int {
    g.len() - spec_kept_rows(g).len()
}

/// Board statistics: the row index of the topmost occupied cell (0 when the
/// board is empty), and the count of holes, empty cells lying strictly below
/// some occupied cell of their column. Ordered lexicographically by
/// `(peak, holes)`, lower being better.
#[derive(Clone, Copy, Debug, PartialEq, Eq, Structural)]
pub struct Stats {
    pub peak: usize,
    pub holes: usize,
}

pub open spec fn spec_peak_from(g: Seq<Seq<TetrisCell>>, r: int) -> int
    decreases r + 1,
{
    if r < 0 {
        0
    } else if spec_row_any(g[r]) {
        r
    } else {
        spec_peak_from(g, r - 1)
    }
}

pub open spec fn spec_peak(g: Seq<Seq<TetrisCell>>) -> int {
    spec_peak_from(g, 19)
}

/// Holes of column `c` among rows `r` down to 0; `seen` says whether an
/// occupied cell has already been passed above row `r`.
pub open spec fn spec_col_holes_from(g: Seq<Seq<TetrisCell>>, c: int, r: int, seen: bool) -> int
    decreases r + 1,
{
    if r < 0 {
        0
    } else if cell_occupied(g, r, c) {
        spec_col_holes_from(g, c, r - 1, true)
    } else {
        (if seen { 1int } else { 0int }) + spec_col_holes_from(g, c, r - 1, seen)
    }
}

pub open spec fn spec_col_holes(g: Seq<Seq<TetrisCell>>, c: int) -> int {
    spec_col_holes_from(g, c, 19, false)
}

pub open spec fn spec_holes_cols(g: Seq<Seq<TetrisCell>>, c: int) -> int
    decreases c + 1,
{
    if c < 0 {
        0
    } else {
        spec_holes_cols(g, c - 1) + spec_col_holes(g, c)
    }
}

pub open spec fn spec_holes(g: Seq<Seq<TetrisCell>>) -> int {
    spec_holes_cols(g, 9)
}

pub proof fn lemma_col_holes_bounds(g: Seq<Seq<TetrisCell>>, c: int, r: int, seen: bool)
    ensures
        0 <= spec_col_holes_from(g, c, r, seen),
        spec_col_holes_from(g, c, r, seen) <= (if r < 0 { 0int } else { r + 1 }),
    decreases r + 1,
{
    if r >= 0 {
        lemma_col_holes_bounds(g, c, r - 1, true);
        lemma_col_holes_bounds(g, c, r - 1, seen);
        if cell_occupied(g, r, c) {
            assert(spec_col_holes_from(g, c, r, seen) == spec_col_holes_from(g, c, r - 1, true));
        } else {
            assert(spec_col_holes_from(g, c, r, seen)
                == (if seen { 1int } else { 0int }) + spec_col_holes_from(g, c, r - 1, seen));
        }
    }
}

pub proof fn lemma_holes_cols_bounds(g: Seq<Seq<TetrisCell>>, c: int)
    ensures
        0 <= spec_holes_cols(g, c),
        spec_holes_cols(g, c) <= (if c < 0 { 0int } else { 20 * (c + 1) }),
    decreases c + 1,
{
    if c >= 0 {
        lemma_holes_cols_bounds(g, c - 1);
        lemma_col_holes_bounds(g, c, 19, false);
    }
}

pub open spec fn spec_stats(g: Seq<Seq<TetrisCell>>) -> Stats {
    Stats { peak: spec_peak(g) as usize, holes: spec_holes(g) as usize }
}

/// Strict lexicographic order on statistics: lower peak, then fewer holes.
pub open spec fn lex_lt(a: Stats, b: Stats) -> bool {
    a.peak < b.peak || (a.peak == b.peak && a.holes < b.holes)
}

pub open spec fn lex_le(a: Stats, b: Stats) -> bool {
    a.peak < b.peak || (a.peak == b.peak && a.holes <= b.holes)
}

/// The board.
pub struct TetrisBoard {
    pub rows: Vec<Vec<TetrisCell>>,
}

impl View for TetrisBoard {
    type V = Seq<Seq<TetrisCell>>;

    open spec fn view(&self) -> Seq<Seq<TetrisCell>> {
        rows_view(self.rows@)
    }
}

fn empty_row() -> (r: Vec<TetrisCell>)
    ensures
        r@ == spec_empty_row(),
{
    let mut r: Vec<TetrisCell> = Vec::new();
    let mut i: usize = 0;
    while i < 10
        invariant
            i <= 10,
            r@.len() == i,
            forall|j: int| 0 <= j < i ==> r@[j] == TetrisCell::Empty,
        decreases 10 - i,
    {
        r.push(TetrisCell::Empty);
        i += 1;
    }
    proof {
        assert(r@ =~= spec_empty_row());
    }
    r
}

fn clone_row(row: &Vec<TetrisCell>) -> (r: Vec<TetrisCell>)
    ensures
        r@ == row@,
{
    let mut r: Vec<TetrisCell> = Vec::new();
    let mut i: usize = 0;
    while i < row.len()
        invariant
            i <= row@.len(),
            r@ == row@.subrange(0, i as int),
        decreases row@.len() - i,
    {
        r.push(row[i]);
        proof {
            assert(r@ =~= row@.subrange(0, i + 1));
        }
        i += 1;
    }
    proof {
        assert(row@.subrange(0, row@.len() as int) =~= row@);
    }
    r
}

fn row_is_full(row: &Vec<TetrisCell>) -> (b: bool)
    ensures
        b == spec_full_row(row@),
{
    let mut i: usize = 0;
    while i < row.len()
        invariant
            i <= row@.len(),
            forall|j: int| 0 <= j < i ==> (#[trigger] row@[j]) is Occupied,
        decreases row@.len() - i,
    {
        if !row[i].is_occupied() {
            return false;
        }
        i += 1;
    }
    true
}

fn row_has_any(row: &Vec<TetrisCell>) -> (b: bool)
    ensures
        b == spec_row_any(row@),
{
    let mut i: usize = 0;
    while i < row.len()
        invariant
            i <= row@.len(),
            forall|j: int| 0 <= j < i ==> !((#[trigger] row@[j]) is Occupied),
        decreases row@.len() - i,
    {
        if row[i].is_occupied() {
            return true;
        }
        i += 1;
    }
    false
}

impl Default for TetrisBoard {
    /// The empty board.
    fn default() -> (b: Self)
        ensures
            b@ == spec_empty_grid(),
            grid_wf(b@),
    {
        let mut rows: Vec<Vec<TetrisCell>> = Vec::new();
        let mut i: usize = 0;
        while i < 20
            invariant
                i <= 20,
                rows@.len() == i,
                forall|j: int| 0 <= j < i ==> (#[trigger] rows@[j])@ == spec_empty_row(),
            decreases 20 - i,
        {
            rows.push(empty_row());
            i += 1;
        }
        let b = TetrisBoard { rows };
        proof {
            assert(b@ =~~= spec_empty_grid());
        }
        b
    }
}

impl TetrisBoard {
    /// The board's column count.
    pub fn width(&self) -> (w: usize)
        requires
            grid_wf(self@),
        ensures
            w == 10,
    {
        proof {
            assert(self@[0] == self.rows@[0]@);
        }
        self.rows[0].len()
    }

    /// Occupancy of one cell; callers stay within the 20 x 10 bounds.
    pub fn is_occupied(&self, row: usize, col: usize) -> (b: bool)
        requires
            grid_wf(self@),
            row < 20,
            col < 10,
        ensures
            b == cell_occupied(self@, row as int, col as int),
    {
        proof {
            assert(self@[row as int] == self.rows@[row as int]@);
        }
        self.rows[row][col].is_occupied()
    }

    /// An independent copy of this board.
    pub fn duplicate(&self) -> (b: TetrisBoard)
        ensures
            b@ == self@,
    {
        let mut rows: Vec<Vec<TetrisCell>> = Vec::new();
        let mut i: usize = 0;
        while i < self.rows.len()
            invariant
                i <= self.rows@.len(),
                rows@.len() == i,
                forall|j: int| 0 <= j < i ==> (#[trigger] rows@[j])@ == self.rows@[j]@,
            decreases self.rows@.len() - i,
        {
            rows.push(clone_row(&self.rows[i]));
            i += 1;
        }
        let b = TetrisBoard { rows };
        proof {
            assert(b@ =~~= self@);
        }
        b
    }

    /// Collision test: does `tetromino` fit with its top row at `landing`?
    pub fn fit_tetromino(&self, tetromino: &Tetromino, landing: usize) -> (r: bool)
        requires
            grid_wf(self@),
            horizontal_ok(*tetromino),
            landing < 20,
        ensures
            r == fits_at(self@, *tetromino, landing as int),
    {
        proof {
            crate::shape::lemma_blocks_bounds(tetromino.kind, tetromino.rotation as nat);
        }
        let b = tetromino.blocks();
        let mut i: usize = 0;
        while i < 4
            invariant
                i <= 4,
                grid_wf(self@),
                horizontal_ok(*tetromino),
                landing < 20,
                b@ == spec_blocks(tetromino.kind, tetromino.rotation as nat),
                forall|k: int| 0 <= k < 4 ==>
                    (#[trigger] b@[k]).0 + 1 <= spec_width(tetromino.kind, tetromino.rotation as nat),
                forall|j: int| 0 <= j < i ==> {
                    let rc = #[trigger] block_cell(*tetromino, landing as int, j);
                    0 <= rc.0 && !cell_occupied(self@, rc.0, rc.1)
                },
            decreases 4 - i,
        {
            let (x, y) = b[i];
            if y > landing {
                proof {
                    assert(block_cell(*tetromino, landing as int, i as int).0 < 0);
                }
                return false;
            }
            let rr = landing - y;
            let cc = tetromino.position + x - 1;
            proof {
                assert(self@.len() == self.rows@.len());
                assert(self@[rr as int] == self.rows@[rr as int]@);
                assert(self@[rr as int].len() == 10);
            }
            if self.rows[rr][cc].is_occupied() {
                proof {
                    assert(cell_occupied(self@, block_cell(*tetromino, landing as int, i as int).0,
                        block_cell(*tetromino, landing as int, i as int).1));
                }
                return false;
            }
            i += 1;
        }
        true
    }

    /// Marks the four cells of `tetromino` occupied, with its top row at
    /// `landing`. The caller must already have checked that it fits there.
    pub fn commit_tetromino(&mut self, tetromino: &Tetromino, landing: usize)
        requires
            grid_wf(old(self)@),
            horizontal_ok(*tetromino),
            fits_at(old(self)@, *tetromino, landing as int),
        ensures
            final(self)@ == spec_commit(old(self)@, *tetromino, landing as int),
            grid_wf(final(self)@),
    {
        proof {
            crate::shape::lemma_blocks_bounds(tetromino.kind, tetromino.rotation as nat);
        }
        let b = tetromino.blocks();
        let mut i: usize = 0;
        while i < 4
            invariant
                i <= 4,
                grid_wf(self@),
                horizontal_ok(*tetromino),
                landing < 20,
                b@ == spec_blocks(tetromino.kind, tetromino.rotation as nat),
                forall|k: int| 0 <= k < 4 ==>
                    (#[trigger] b@[k]).0 + 1 <= spec_width(tetromino.kind, tetromino.rotation as nat),
                fits_at(old(self)@, *tetromino, landing as int),
                self@ == spec_commit_n(old(self)@, *tetromino, landing as int, i as int),
                self.rows@.len() == 20,
            decreases 4 - i,
        {
            let (x, y) = b[i];
            proof {
                assert(block_cell(*tetromino, landing as int, i as int).0 == landing - y);
                assert(fits_at(old(self)@, *tetromino, landing as int));
                assert(0 <= block_cell(*tetromino, landing as int, i as int).0);
            }
            let rr = landing - y;
            let cc = tetromino.position + x - 1;
            let ghost prev = self@;
            proof {
                assert(self@.len() == self.rows@.len());
                assert(self@[rr as int] == self.rows@[rr as int]@);
                assert(self@[rr as int].len() == 10);
            }
            self.rows[rr][cc] = TetrisCell::Occupied;
            proof {
                assert(self@ =~~= spec_put(prev, rr as int, cc as int));
                assert(self@ == spec_commit_n(old(self)@, *tetromino, landing as int, i + 1));
            }
            i += 1;
        }
    }

    /// Gravity: the landing row of `tetromino` dropped from the top, or
    /// `None` when it does not fit even with its top row at row 19.
    pub fn drop_position(&self, tetromino: &Tetromino) -> (r: Option<usize>)
        requires
            grid_wf(self@),
            horizontal_ok(*tetromino),
        ensures
            r is Some <==> fits_at(self@, *tetromino, 19),
            r matches Some(l) ==> l == settle_from(self@, *tetromino, 19)
                && fits_at(self@, *tetromino, l as int),
    {
        if !self.fit_tetromino(tetromino, 19) {
            return None;
        }
        let mut l: usize = 19;
        loop
            invariant
                l <= 19,
                grid_wf(self@),
                horizontal_ok(*tetromino),
                fits_at(self@, *tetromino, l as int),
                settle_from(self@, *tetromino, 19) == settle_from(self@, *tetromino, l as int),
            ensures
                l == settle_from(self@, *tetromino, 19),
                fits_at(self@, *tetromino, l as int),
            decreases l,
        {
            if l == 0 {
                proof {
                    assert(settle_from(self@, *tetromino, 0) == 0);
                }
                break;
            }
            if !self.fit_tetromino(tetromino, l - 1) {
                proof {
                    assert(settle_from(self@, *tetromino, l as int) == l);
                }
                break;
            }
            l = l - 1;
        }
        Some(l)
    }

    /// Drops `tetromino` from the top and commits it where it settles;
    /// `Err` when it cannot be placed at all, leaving the board unchanged.
    pub fn try_apply_tetromino(&mut self, tetromino: Tetromino) -> (r: Result<(), ()>)
        requires
            grid_wf(old(self)@),
            horizontal_ok(tetromino),
        ensures
            r is Ok <==> fits_at(old(self)@, tetromino, 19),
            r is Ok ==> final(self)@ == spec_commit(
                old(self)@,
                tetromino,
                settle_from(old(self)@, tetromino, 19),
            ),
            r is Err ==> final(self)@ == old(self)@,
            grid_wf(final(self)@),
    {
        match self.drop_position(&tetromino) {
            Some(l) => {
                self.commit_tetromino(&tetromino, l);
                Ok(())
            }
            None => Err(()),
        }
    }

    /// Removes every full row, lets the rows above fall, and fills the top
    /// with empty rows; returns how many rows were removed.
    pub fn clean_full_lines(&mut self) -> (cleared: u64)
        requires
            grid_wf(old(self)@),
        ensures
            final(self)@ == spec_clear(old(self)@),
            cleared as int == cleared_count(old(self)@),
            grid_wf(final(self)@),
    {
        proof {
            reveal(Seq::filter);
            assert(self@.subrange(0, 0) =~~= Seq::<Seq<TetrisCell>>::empty());
            assert(spec_kept_rows(self@.subrange(0, 0)) =~~= Seq::<Seq<TetrisCell>>::empty());
        }
        let mut kept: Vec<Vec<TetrisCell>> = Vec::new();
        let mut i: usize = 0;
        while i < 20
            invariant
                i <= 20,
                grid_wf(self@),
                self@ == old(self)@,
                self.rows@.len() == 20,
                rows_view(kept@) == spec_kept_rows(self@.subrange(0, i as int)),
                kept@.len() <= i,
                forall|j: int| 0 <= j < kept@.len() ==> (#[trigger] kept@[j])@.len() == 10,
            decreases 20 - i,
        {
            let ghost prev_kept = rows_view(kept@);
            proof {
                assert(self@[i as int] == self.rows@[i as int]@);
            }
            let full = row_is_full(&self.rows[i]);
            if !full {
                kept.push(clone_row(&self.rows[i]));
                proof {
                    assert(rows_view(kept@) =~~= prev_kept.push(self@[i as int]));
                }
            }
            proof {
                reveal(Seq::filter);
                let pre1 = self@.subrange(0, i + 1);
                assert(pre1.drop_last() =~~= self@.subrange(0, i as int));
                assert(pre1.last() == self@[i as int]);
                assert(prev_kept == spec_kept_rows(pre1.drop_last()));
                assert(spec_kept_rows(pre1) == if !spec_full_row(pre1.last()) {
                    spec_kept_rows(pre1.drop_last()).push(pre1.last())
                } else {
                    spec_kept_rows(pre1.drop_last())
                });
                if !full {
                    assert(rows_view(kept@) == prev_kept.push(self@[i as int]));
                    assert(spec_kept_rows(pre1) == prev_kept.push(self@[i as int]));
                } else {
                    assert(rows_view(kept@) == prev_kept);
                    assert(spec_kept_rows(pre1) == prev_kept);
                }
                assert(rows_view(kept@) == spec_kept_rows(pre1));
            }
            i += 1;
        }
        proof {
            assert(self@.subrange(0, 20) =~~= self@);
        }
        let cleared: u64 = (20 - kept.len()) as u64;
        while kept.len() < 20
            invariant
                grid_wf(old(self)@),
                self@ == old(self)@,
                kept@.len() <= 20,
                spec_kept_rows(old(self)@).len() <= kept@.len(),
                rows_view(kept@) == spec_kept_rows(old(self)@) + Seq::new(
                    (kept@.len() - spec_kept_rows(old(self)@).len()) as nat,
                    |j: int| spec_empty_row(),
                ),
            decreases 20 - kept@.len(),
        {
            let ghost prev_kept = rows_view(kept@);
            kept.push(empty_row());
            proof {
                assert(rows_view(kept@) =~~= prev_kept.push(spec_empty_row()));
                assert(rows_view(kept@) =~~= spec_kept_rows(old(self)@) + Seq::new(
                    (kept@.len() - spec_kept_rows(old(self)@).len()) as nat,
                    |j: int| spec_empty_row(),
                ));
            }
        }
        self.rows = kept;
        proof {
            assert(self@ =~~= spec_clear(old(self)@));
            assert forall|r: int| 0 <= r < 20 implies (#[trigger] self@[r]).len() == 10 by {
                let filtered = spec_kept_rows(old(self)@);
                if r < filtered.len() {
                    lemma_kept_rows_wf(old(self)@, r);
                }
            }
        }
        cleared
    }

    /// Board statistics, computed afresh from the current cells.
    pub fn stats(&self) -> (s: Stats)
        requires
            grid_wf(self@),
        ensures
            s.peak as int == spec_peak(self@),
            s.holes as int == spec_holes(self@),
    {
        let mut peak: usize = 0;
        let mut r: usize = 0;
        while r < 20
            invariant
                r <= 20,
                grid_wf(self@),
                peak as int == spec_peak_from(self@, r as int - 1),
            decreases 20 - r,
        {
            if row_has_any(&self.rows[r]) {
                peak = r;
            }
            r += 1;
        }
        let mut holes: usize = 0;
        let mut c: usize = 0;
        while c < 10
            invariant
                c <= 10,
                grid_wf(self@),
                holes as int == spec_holes_cols(self@, c as int - 1),
                holes <= 20 * c,
            decreases 10 - c,
        {
            let mut acc: usize = 0;
            let mut seen = false;
            let mut rr: usize = 20;
            while rr > 0
                invariant
                    rr <= 20,
                    grid_wf(self@),
                    c < 10,
                    acc + spec_col_holes_from(self@, c as int, rr as int - 1, seen)
                        == spec_col_holes(self@, c as int),
                    acc <= 20,
                decreases rr,
            {
                proof {
                    lemma_col_holes_bounds(self@, c as int, rr as int - 2, true);
                    lemma_col_holes_bounds(self@, c as int, rr as int - 2, seen);
                    lemma_col_holes_bounds(self@, c as int, 19, false);
                }
                let row = rr - 1;
                if self.rows[row][c].is_occupied() {
                    seen = true;
                } else {
                    if seen {
                        acc += 1;
                    }
                }
                rr -= 1;
            }
            proof {
                lemma_col_holes_bounds(self@, c as int, 19, false);
            }
            holes += acc;
            c += 1;
        }
        Stats { peak, holes }
    }
}

/// How many occupied cells a row holds.
pub open spec fn row_count(row: Seq<TetrisCell>) -> int
    decreases row.len(),
{
    if row.len() == 0 {
        0
    } else {
        row_count(row.drop_last()) + (if row.last() is Occupied { 1int } else { 0int })
    }
}

/// How many occupied cells a board holds.
pub open spec fn occupied_count(g: Seq<Seq<TetrisCell>>) -> int
    decreases g.len(),
{
    if g.len() == 0 {
        0
    } else {
        occupied_count(g.drop_last()) + row_count(g.last())
    }
}

proof fn lemma_row_count_update(row: Seq<TetrisCell>, c: int)
    requires
        0 <= c < row.len(),
    ensures
        row_count(row.update(c, TetrisCell::Occupied))
            == row_count(row) + (if row[c] is Occupied { 0int } else { 1int }),
    decreases row.len(),
{
    let row2 = row.update(c, TetrisCell::Occupied);
    if c == row.len() - 1 {
        assert(row2.drop_last() =~= row.drop_last());
        assert(row2.last() == TetrisCell::Occupied);
    } else {
        assert(row2.drop_last() =~= row.drop_last().update(c, TetrisCell::Occupied));
        assert(row2.last() == row.last());
        lemma_row_count_update(row.drop_last(), c);
    }
}

proof fn lemma_occ_count_update(g: Seq<Seq<TetrisCell>>, r: int, row2: Seq<TetrisCell>)
    requires
        0 <= r < g.len(),
    ensures
        occupied_count(g.update(r, row2))
            == occupied_count(g) - row_count(g[r]) + row_count(row2),
    decreases g.len(),
{
    let g2 = g.update(r, row2);
    if r == g.len() - 1 {
        assert(g2.drop_last() =~~= g.drop_last());
        assert(g2.last() == row2);
    } else {
        assert(g2.drop_last() =~~= g.drop_last().update(r, row2));
        assert(g2.last() == g.last());
        lemma_occ_count_update(g.drop_last(), r, row2);
    }
}

/// Marking one empty cell occupied raises the count by one.
proof fn lemma_put_count(g: Seq<Seq<TetrisCell>>, r: int, c: int)
    requires
        0 <= r < g.len(),
        0 <= c < g[r].len(),
    ensures
        occupied_count(spec_put(g, r, c))
            == occupied_count(g) + (if cell_occupied(g, r, c) { 0int } else { 1int }),
{
    lemma_row_count_update(g[r], c);
    lemma_occ_count_update(g, r, g[r].update(c, TetrisCell::Occupied));
}

/// The first `n` blocks of a committed piece add exactly `n` occupied cells,
/// leave the board well formed, and leave the cells of the later blocks
/// still empty.
proof fn lemma_commit_n_count(g: Seq<Seq<TetrisCell>>, t: Tetromino, landing: int, n: int)
    requires
        grid_wf(g),
        horizontal_ok(t),
        fits_at(g, t, landing),
        0 <= n <= 4,
    ensures
        grid_wf(spec_commit_n(g, t, landing, n)),
        occupied_count(spec_commit_n(g, t, landing, n)) == occupied_count(g) + n,
        forall|i: int| n <= i < 4 ==> !cell_occupied(
            spec_commit_n(g, t, landing, n),
            (#[trigger] block_cell(t, landing, i)).0,
            block_cell(t, landing, i).1,
        ),
    decreases n,
{
    crate::shape::lemma_blocks_bounds(t.kind, t.rotation as nat);
    crate::shape::lemma_blocks_distinct(t.kind, t.rotation as nat);
    if n > 0 {
        lemma_commit_n_count(g, t, landing, n - 1);
        let prev = spec_commit_n(g, t, landing, n - 1);
        let rc = block_cell(t, landing, n - 1);
        assert(0 <= rc.0 < 20 && 0 <= rc.1 < 10);
        assert(!cell_occupied(prev, rc.0, rc.1));
        lemma_put_count(prev, rc.0, rc.1);
        assert forall|i: int| n <= i < 4 implies !cell_occupied(
            spec_commit_n(g, t, landing, n),
            (#[trigger] block_cell(t, landing, i)).0,
            block_cell(t, landing, i).1,
        ) by {
            let rci = block_cell(t, landing, i);
            assert(spec_blocks(t.kind, t.rotation as nat)[i]
                != spec_blocks(t.kind, t.rotation as nat)[n - 1]);
            assert(rci != rc);
            assert(spec_commit_n(g, t, landing, n) == spec_put(prev, rc.0, rc.1));
            assert(!cell_occupied(prev, rci.0, rci.1));
        }
    }
}

/// A full row of 10 cells holds 10 occupied cells.
proof fn lemma_full_row_count(row: Seq<TetrisCell>)
    requires
        spec_full_row(row),
    ensures
        row_count(row) == row.len(),
    decreases row.len(),
{
    if row.len() > 0 {
        assert(forall|c: int| 0 <= c < row.drop_last().len()
            ==> (#[trigger] row.drop_last()[c]) is Occupied);
        lemma_full_row_count(row.drop_last());
    }
}

/// A row with no occupied cell counts zero.
proof fn lemma_empty_row_count(row: Seq<TetrisCell>)
    requires
        forall|c: int| 0 <= c < row.len() ==> !((#[trigger] row[c]) is Occupied),
    ensures
        row_count(row) == 0,
    decreases row.len(),
{
    if row.len() > 0 {
        assert(forall|c: int| 0 <= c < row.drop_last().len()
            ==> !((#[trigger] row.drop_last()[c]) is Occupied));
        lemma_empty_row_count(row.drop_last());
    }
}

proof fn lemma_occ_count_push(g: Seq<Seq<TetrisCell>>, row: Seq<TetrisCell>)
    ensures
        occupied_count(g.push(row)) == occupied_count(g) + row_count(row),
{
    assert(g.push(row).drop_last() =~~= g);
    assert(g.push(row).last() == row);
}

/// Removing the full rows removes 10 occupied cells per removed row.
proof fn lemma_kept_count(g: Seq<Seq<TetrisCell>>)
    requires
        forall|r: int| 0 <= r < g.len() ==> (#[trigger] g[r]).len() == 10,
    ensures
        spec_kept_rows(g).len() <= g.len(),
        occupied_count(spec_kept_rows(g))
            == occupied_count(g) - 10 * (g.len() - spec_kept_rows(g).len()),
    decreases g.len(),
{
    reveal(Seq::filter);
    if g.len() > 0 {
        let front = g.drop_last();
        assert(forall|r: int| 0 <= r < front.len() ==> (#[trigger] front[r]).len() == 10);
        lemma_kept_count(front);
        if !spec_full_row(g.last()) {
            assert(spec_kept_rows(g) == spec_kept_rows(front).push(g.last()));
            lemma_occ_count_push(spec_kept_rows(front), g.last());
        } else {
            assert(spec_kept_rows(g) == spec_kept_rows(front));
            lemma_full_row_count(g.last());
            assert(g.last().len() == 10);
        }
    }
}

proof fn lemma_pad_count(n: nat)
    ensures
        occupied_count(Seq::new(n, |i: int| spec_empty_row())) == 0,
    decreases n,
{
    let pads = Seq::new(n, |i: int| spec_empty_row());
    if n > 0 {
        assert(pads.drop_last() =~~= Seq::new((n - 1) as nat, |i: int| spec_empty_row()));
        lemma_pad_count((n - 1) as nat);
        lemma_empty_row_count(spec_empty_row());
    }
}

proof fn lemma_occ_count_add(a: Seq<Seq<TetrisCell>>, b: Seq<Seq<TetrisCell>>)
    ensures
        occupied_count(a + b) == occupied_count(a) + occupied_count(b),
    decreases b.len(),
{
    if b.len() == 0 {
        assert(a + b =~~= a);
    } else {
        assert((a + b).drop_last() =~~= a + b.drop_last());
        assert((a + b).last() == b.last());
        lemma_occ_count_add(a, b.drop_last());
    }
}

/// Clearing a board removes 10 occupied cells for every cleared row.
pub proof fn lemma_clear_count(g: Seq<Seq<TetrisCell>>)
    requires
        grid_wf(g),
    ensures
        occupied_count(spec_clear(g)) == occupied_count(g) - 10 * cleared_count(g),
        0 <= cleared_count(g),
{
    lemma_kept_count(g);
    let kept = spec_kept_rows(g);
    let pads = Seq::new((g.len() - kept.len()) as nat, |i: int| spec_empty_row());
    lemma_pad_count((g.len() - kept.len()) as nat);
    lemma_occ_count_add(kept, pads);
}

/// Conservation: the occupied cells after committing a piece and clearing
/// full lines number those before, plus the piece's 4, minus 10 for every
/// cleared line.
pub proof fn lemma_commit_clear_conservation(g: Seq<Seq<TetrisCell>>, t: Tetromino, landing: int)
    requires
        grid_wf(g),
        horizontal_ok(t),
        fits_at(g, t, landing),
    ensures
        occupied_count(spec_clear(spec_commit(g, t, landing)))
            == occupied_count(g) + 4 - 10 * cleared_count(spec_commit(g, t, landing)),
{
    lemma_commit_n_count(g, t, landing, 4);
    lemma_clear_count(spec_commit(g, t, landing));
}

/// No row of a row sequence is full: the line-clearing filter keeps it
/// whole.
proof fn lemma_kept_rows_identity(s: Seq<Seq<TetrisCell>>)
    requires
        forall|i: int| 0 <= i < s.len() ==> !spec_full_row(#[trigger] s[i]),
    ensures
        spec_kept_rows(s) == s,
    decreases s.len(),
{
    reveal(Seq::filter);
    if s.len() > 0 {
        let front = s.drop_last();
        assert(forall|i: int| 0 <= i < front.len() ==> !spec_full_row(#[trigger] front[i]));
        lemma_kept_rows_identity(front);
        assert(!spec_full_row(s.last()));
        assert(spec_kept_rows(s) == spec_kept_rows(front).push(s.last()));
        assert(front.push(s.last()) =~~= s);
    }
}

/// Clearing is idempotent: a cleared board has no full rows left, so
/// clearing it again removes nothing and leaves it unchanged.
pub proof fn lemma_clear_idempotent(g: Seq<Seq<TetrisCell>>)
    requires
        grid_wf(g),
    ensures
        cleared_count(spec_clear(g)) == 0,
        spec_clear(spec_clear(g)) == spec_clear(g),
{
    broadcast use vstd::seq_lib::group_filter_ensures;

    let kept = spec_kept_rows(g);
    let pads = Seq::new((g.len() - kept.len()) as nat, |i: int| spec_empty_row());
    let cl = spec_clear(g);
    assert(kept.len() <= g.len());
    assert(cl.len() == g.len());
    assert forall|i: int| 0 <= i < cl.len() implies !spec_full_row(#[trigger] cl[i]) by {
        if i < kept.len() {
            assert(!spec_full_row(kept[i]));
        } else {
            assert(cl[i] == spec_empty_row());
            assert(spec_empty_row()[0] == TetrisCell::Empty);
        }
    }
    lemma_kept_rows_identity(cl);
    assert(spec_clear(cl) =~~= cl);
}

/// Every row kept by the line-clearing filter is one of the board's rows, so
/// in a well-formed board it has 10 cells.
pub proof fn lemma_kept_rows_wf(g: Seq<Seq<TetrisCell>>, j: int)
    requires
        forall|r: int| 0 <= r < g.len() ==> (#[trigger] g[r]).len() == 10,
        0 <= j < spec_kept_rows(g).len(),
    ensures
        spec_kept_rows(g)[j].len() == 10,
    decreases g.len(),
{
    reveal(Seq::filter);
    if g.len() > 0 {
        let front = g.drop_last();
        assert(forall|r: int| 0 <= r < front.len() ==> (#[trigger] front[r]).len() == 10);
        if !spec_full_row(g.last()) {
            assert(spec_kept_rows(g) == spec_kept_rows(front).push(g.last()));
            if j < spec_kept_rows(front).len() {
                lemma_kept_rows_wf(front, j);
            } else {
                assert(spec_kept_rows(g)[j] == g.last());
                assert(g.last().len() == 10);
            }
        } else {
            assert(spec_kept_rows(g) == spec_kept_rows(front));
            lemma_kept_rows_wf(front, j);
        }
    }
}

} // verus!
