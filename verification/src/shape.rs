//! The shape table: the four occupied cell offsets of every tetromino kind
//! under every rotation, and the derived bounding-box width and height.
//!
//! A block offset `(x, y)` is a column offset `x` (rightward) and a row
//! offset `y` counted downward from the piece's top row.

use vstd::prelude::*;
use vstd::string::StrSliceExecFns;

verus! {

/// The seven tetromino kinds.
#[derive(Clone, Copy, Debug, PartialEq, Eq, Structural)]
pub enum TetrominoKind {
    I,
    O,
    T,
    S,
    Z,
    J,
    L,
}

/// A piece in flight: its kind, its 1-based leftmost column, and its
/// rotation in degrees. Rotations are taken modulo 360 (modulo 180 for the
/// two-fold symmetric kinds I, S and Z).
#[derive(Clone, Copy, Debug, PartialEq, Eq, Structural)]
pub struct Tetromino {
    pub kind: TetrominoKind,
    pub position: usize,
    pub rotation: usize,
}

/// The four block offsets of `kind` at `rotation`, as (column, row-down) pairs.
pub open spec fn spec_blocks(kind: TetrominoKind, rotation: nat) -> Seq<(usize, usize)> {
    match kind {
        TetrominoKind::I => if rotation % 180 == 0 {
            seq![(0usize, 0usize), (0, 1), (0, 2), (0, 3)]
        } else {
            seq![(0usize, 0usize), (1, 0), (2, 0), (3, 0)]
        },
        TetrominoKind::O => seq![(0usize, 0usize), (1, 0), (0, 1), (1, 1)],
        TetrominoKind::T => if rotation % 360 == 0 {
            seq![(0usize, 0usize), (1, 0), (2, 0), (1, 1)]
        } else if rotation % 360 == 90 {
            seq![(1usize, 0usize), (1, 1), (1, 2), (0, 1)]
        } else if rotation % 360 == 180 {
            seq![(0usize, 1usize), (1, 1), (2, 1), (1, 0)]
        } else {
            seq![(0usize, 0usize), (0, 1), (0, 2), (1, 1)]
        },
        TetrominoKind::S => if rotation % 180 == 0 {
            seq![(0usize, 1usize), (1, 1), (1, 0), (2, 0)]
        } else {
            seq![(0usize, 0usize), (0, 1), (1, 1), (1, 2)]
        },
        TetrominoKind::Z => if rotation % 180 == 0 {
            seq![(0usize, 0usize), (1, 0), (1, 1), (2, 1)]
        } else {
            seq![(1usize, 0usize), (1, 1), (0, 1), (0, 2)]
        },
        TetrominoKind::J => if rotation % 360 == 0 {
            seq![(1usize, 0usize), (1, 1), (1, 2), (0, 2)]
        } else if rotation % 360 == 90 {
            seq![(0usize, 0usize), (0, 1), (1, 1), (2, 1)]
        } else if rotation % 360 == 180 {
            seq![(0usize, 0usize), (0, 1), (0, 2), (1, 0)]
        } else {
            seq![(0usize, 0usize), (1, 0), (2, 0), (2, 1)]
        },
        TetrominoKind::L => if rotation % 360 == 0 {
            seq![(0usize, 0usize), (0, 1), (0, 2), (1, 2)]
        } else if rotation % 360 == 90 {
            seq![(0usize, 0usize), (1, 0), (2, 0), (0, 1)]
        } else if rotation % 360 == 180 {
            seq![(0usize, 0usize), (1, 0), (1, 1), (1, 2)]
        } else {
            seq![(0usize, 1usize), (1, 1), (2, 1), (2, 0)]
        },
    }
}

/// Bounding-box width of `kind` at `rotation`: 1 + the largest column offset.
pub open spec fn spec_width(kind: TetrominoKind, rotation: nat) -> usize {
    match kind {
        TetrominoKind::I => if rotation % 180 == 0 { 1 } else { 4 },
        TetrominoKind::O => 2,
        TetrominoKind::T => if rotation % 360 == 0 || rotation % 360 == 180 { 3 } else { 2 },
        TetrominoKind::S => if rotation % 180 == 0 { 3 } else { 2 },
        TetrominoKind::Z => if rotation % 180 == 0 { 3 } else { 2 },
        TetrominoKind::J => if rotation % 360 == 0 || rotation % 360 == 180 { 2 } else { 3 },
        TetrominoKind::L => if rotation % 360 == 0 || rotation % 360 == 180 { 2 } else { 3 },
    }
}

/// Bounding-box height of `kind` at `rotation`: 1 + the largest row offset.
pub open spec fn spec_height(kind: TetrominoKind, rotation: nat) -> usize {
    match kind {
        TetrominoKind::I => if rotation % 180 == 0 { 4 } else { 1 },
        TetrominoKind::O => 2,
        TetrominoKind::T => if rotation % 360 == 0 || rotation % 360 == 180 { 2 } else { 3 },
        TetrominoKind::S => if rotation % 180 == 0 { 2 } else { 3 },
        TetrominoKind::Z => if rotation % 180 == 0 { 2 } else { 3 },
        TetrominoKind::J => if rotation % 360 == 0 || rotation % 360 == 180 { 3 } else { 2 },
        TetrominoKind::L => if rotation % 360 == 0 || rotation % 360 == 180 { 3 } else { 2 },
    }
}

/// Every shape has exactly four blocks; each block lies inside the shape's
/// bounding box, which is at most 4 by 4; and some block touches the top row
/// of the box.
pub proof fn lemma_blocks_bounds(kind: TetrominoKind, rotation: nat)
    ensures
        spec_blocks(kind, rotation).len() == 4,
        forall|i: int| 0 <= i < 4 ==>
            (#[trigger] spec_blocks(kind, rotation)[i]).0 + 1 <= spec_width(kind, rotation),
        forall|i: int| 0 <= i < 4 ==>
            (#[trigger] spec_blocks(kind, rotation)[i]).1 + 1 <= spec_height(kind, rotation),
        1 <= spec_width(kind, rotation) <= 4,
        1 <= spec_height(kind, rotation) <= 4,
        exists|i: int| 0 <= i < 4 && (#[trigger] spec_blocks(kind, rotation)[i]).1 == 0,
{
    assert((spec_blocks(kind, rotation)[0]).1 == 0 || (spec_blocks(kind, rotation)[1]).1 == 0
        || (spec_blocks(kind, rotation)[2]).1 == 0 || (spec_blocks(kind, rotation)[3]).1 == 0);
}

/// The four blocks of a shape are pairwise distinct.
pub proof fn lemma_blocks_distinct(kind: TetrominoKind, rotation: nat)
    ensures
        forall|i: int, j: int| 0 <= i < j < 4 ==>
            #[trigger] spec_blocks(kind, rotation)[i] != #[trigger] spec_blocks(kind, rotation)[j],
{
}

/// Rotating the O piece is a no-op: its blocks are the same at every angle.
pub proof fn lemma_o_rotation_symmetry(rotation: nat)
    ensures
        spec_blocks(TetrominoKind::O, rotation) == spec_blocks(TetrominoKind::O, rotation + 90),
{
}

impl Tetromino {
    /// The four cell offsets occupied by this piece, relative to its local
    /// origin: `(column offset, row offset downward from the top row)`.
    pub fn blocks(&self) -> (r: [(usize, usize); 4])
        ensures
            r@ == spec_blocks(self.kind, self.rotation as nat),
    {
        let r: [(usize, usize); 4] = match self.kind {
            TetrominoKind::I => match self.rotation % 180 {
                0 => [(0, 0), (0, 1), (0, 2), (0, 3)],
                _ => [(0, 0), (1, 0), (2, 0), (3, 0)],
            },
            TetrominoKind::O => [(0, 0), (1, 0), (0, 1), (1, 1)],
            TetrominoKind::T => match self.rotation % 360 {
                0 => [(0, 0), (1, 0), (2, 0), (1, 1)],
                90 => [(1, 0), (1, 1), (1, 2), (0, 1)],
                180 => [(0, 1), (1, 1), (2, 1), (1, 0)],
                _ => [(0, 0), (0, 1), (0, 2), (1, 1)],
            },
            TetrominoKind::S => match self.rotation % 180 {
                0 => [(0, 1), (1, 1), (1, 0), (2, 0)],
                _ => [(0, 0), (0, 1), (1, 1), (1, 2)],
            },
            TetrominoKind::Z => match self.rotation % 180 {
                0 => [(0, 0), (1, 0), (1, 1), (2, 1)],
                _ => [(1, 0), (1, 1), (0, 1), (0, 2)],
            },
            TetrominoKind::J => match self.rotation % 360 {
                0 => [(1, 0), (1, 1), (1, 2), (0, 2)],
                90 => [(0, 0), (0, 1), (1, 1), (2, 1)],
                180 => [(0, 0), (0, 1), (0, 2), (1, 0)],
                _ => [(0, 0), (1, 0), (2, 0), (2, 1)],
            },
            TetrominoKind::L => match self.rotation % 360 {
                0 => [(0, 0), (0, 1), (0, 2), (1, 2)],
                90 => [(0, 0), (1, 0), (2, 0), (0, 1)],
                180 => [(0, 0), (1, 0), (1, 1), (1, 2)],
                _ => [(0, 1), (1, 1), (2, 1), (2, 0)],
            },
        };
        proof {
            assert(r@ =~= spec_blocks(self.kind, self.rotation as nat));
        }
        r
    }

    /// Bounding-box width of this piece: 1 + the largest column offset of its
    /// blocks.
    pub fn width(&self) -> (w: usize)
        ensures
            w == spec_width(self.kind, self.rotation as nat),
    {
        let b = self.blocks();
        let mut m: usize = b[0].0;
        if b[1].0 > m {
            m = b[1].0;
        }
        if b[2].0 > m {
            m = b[2].0;
        }
        if b[3].0 > m {
            m = b[3].0;
        }
        m + 1
    }

    /// Bounding-box height of this piece: 1 + the largest row offset of its
    /// blocks.
    pub fn height(&self) -> (h: usize)
        ensures
            h == spec_height(self.kind, self.rotation as nat),
    {
        let b = self.blocks();
        let mut m: usize = b[0].1;
        if b[1].1 > m {
            m = b[1].1;
        }
        if b[2].1 > m {
            m = b[2].1;
        }
        if b[3].1 > m {
            m = b[3].1;
        }
        m + 1
    }
}

/// The announcement letter of each kind.
pub open spec fn spec_letter(kind: TetrominoKind) -> char {
    match kind {
        TetrominoKind::I => 'I',
        TetrominoKind::O => 'O',
        TetrominoKind::T => 'T',
        TetrominoKind::S => 'S',
        TetrominoKind::Z => 'Z',
        TetrominoKind::J => 'J',
        TetrominoKind::L => 'L',
    }
}

/// The kind named by a letter, if any.
pub open spec fn spec_kind_of_letter(c: char) -> Option<TetrominoKind> {
    if c == 'I' {
        Some(TetrominoKind::I)
    } else if c == 'O' {
        Some(TetrominoKind::O)
    } else if c == 'T' {
        Some(TetrominoKind::T)
    } else if c == 'S' {
        Some(TetrominoKind::S)
    } else if c == 'Z' {
        Some(TetrominoKind::Z)
    } else if c == 'J' {
        Some(TetrominoKind::J)
    } else if c == 'L' {
        Some(TetrominoKind::L)
    } else {
        None
    }
}

pub open spec fn is_digit(c: char) -> bool {
    48 <= c as u32 <= 57
}

pub open spec fn all_digits(s: Seq<char>) -> bool {
    forall|i: int| 0 <= i < s.len() ==> is_digit(#[trigger] s[i])
}

/// The value of a decimal digit string.
pub open spec fn digits_val(s: Seq<char>) -> int
    decreases s.len(),
{
    if s.len() == 0 {
        0
    } else {
        digits_val(s.drop_last()) * 10 + (s.last() as u32 - 48)
    }
}

pub proof fn lemma_digits_val_nonneg(s: Seq<char>)
    requires
        all_digits(s),
    ensures
        digits_val(s) >= 0,
    decreases s.len(),
{
    if s.len() > 0 {
        assert(all_digits(s.drop_last()));
        lemma_digits_val_nonneg(s.drop_last());
    }
}

/// A digit string is worth at least any of its prefixes.
pub proof fn lemma_digits_val_prefix(s: Seq<char>, i: int)
    requires
        all_digits(s),
        0 <= i <= s.len(),
    ensures
        digits_val(s.subrange(0, i)) <= digits_val(s),
    decreases s.len(),
{
    if i < s.len() {
        assert(all_digits(s.drop_last()));
        assert(s.subrange(0, i) =~= s.drop_last().subrange(0, i));
        lemma_digits_val_prefix(s.drop_last(), i);
        lemma_digits_val_nonneg(s.drop_last());
        assert(digits_val(s) == digits_val(s.drop_last()) * 10 + (s.last() as u32 - 48));
        assert(digits_val(s.drop_last()) * 10 >= digits_val(s.drop_last()));
    } else {
        assert(s.subrange(0, i) =~= s);
    }
}

/// Parses a 1-based column field: a nonempty string of decimal digits whose
/// value fits a `usize`.
pub fn parse_position(s: &str) -> (r: Result<usize, ()>)
    ensures
        r matches Ok(n) ==> s@.len() > 0 && all_digits(s@) && n == digits_val(s@),
        r is Err <==> !(s@.len() > 0 && all_digits(s@) && digits_val(s@) <= usize::MAX),
{
    let n = s.unicode_len();
    if n == 0 {
        return Err(());
    }
    let mut acc: usize = 0;
    let mut i: usize = 0;
    while i < n
        invariant
            i <= n,
            n == s@.len(),
            all_digits(s@.subrange(0, i as int)),
            acc == digits_val(s@.subrange(0, i as int)),
        decreases n - i,
    {
        let c = s.get_char(i);
        let d = c as u32;
        if d < 48 || d > 57 {
            proof {
                assert(!is_digit(s@[i as int]));
            }
            return Err(());
        }
        let dv = (d - 48) as usize;
        proof {
            assert(s@.subrange(0, i + 1).drop_last() =~= s@.subrange(0, i as int));
            assert(s@.subrange(0, i + 1).last() == s@[i as int]);
        }
        if acc > usize::MAX / 10 || (acc == usize::MAX / 10 && dv > usize::MAX % 10) {
            proof {
                assert(acc * 10 + dv > usize::MAX) by (nonlinear_arith)
                    requires
                        acc > usize::MAX / 10 || (acc == usize::MAX / 10 && dv > usize::MAX % 10),
                        acc >= 0,
                        dv >= 0,
                {}
                assert(digits_val(s@.subrange(0, i + 1)) > usize::MAX);
                if all_digits(s@) {
                    lemma_digits_val_prefix(s@, i + 1);
                    assert(digits_val(s@) > usize::MAX);
                }
            }
            return Err(());
        }
        proof {
            assert(acc * 10 + dv <= usize::MAX) by (nonlinear_arith)
                requires
                    acc < usize::MAX / 10 || (acc == usize::MAX / 10 && dv <= usize::MAX % 10),
                    acc >= 0,
                    dv <= 9,
            {}
        }
        acc = acc * 10 + dv;
        i += 1;
    }
    proof {
        assert(s@.subrange(0, n as int) =~= s@);
    }
    Ok(acc)
}

impl Tetromino {
    /// Builds the round's piece from the two fields of an announcement line:
    /// a kind letter and a 1-based column, with rotation 0. Either field
    /// failing to parse is an error.
    pub fn from_parts(kind_field: &str, position_field: &str) -> (r: Result<Tetromino, ()>)
        ensures
            r matches Ok(t) ==> {
                &&& kind_field@.len() == 1
                &&& spec_kind_of_letter(kind_field@[0]) == Some(t.kind)
                &&& t.position == digits_val(position_field@)
                &&& t.rotation == 0
            },
            r is Err <==> !({
                &&& kind_field@.len() == 1
                &&& spec_kind_of_letter(kind_field@[0]) is Some
                &&& position_field@.len() > 0
                &&& all_digits(position_field@)
                &&& digits_val(position_field@) <= usize::MAX
            }),
    {
        let kind = match TetrominoKind::from_str(kind_field) {
            Ok(k) => k,
            Err(_) => {
                return Err(());
            },
        };
        let position = match parse_position(position_field) {
            Ok(p) => p,
            Err(_) => {
                return Err(());
            },
        };
        Ok(Tetromino { kind, position, rotation: 0 })
    }
}

impl TetrominoKind {
    /// Parses a one-letter kind field: exactly "I", "O", "T", "S", "Z", "J"
    /// or "L".
    pub fn from_str(s: &str) -> (r: Result<TetrominoKind, ()>)
        ensures
            r matches Ok(k) ==> s@.len() == 1 && spec_kind_of_letter(s@[0]) == Some(k),
            r is Err <==> !(s@.len() == 1 && spec_kind_of_letter(s@[0]) is Some),
    {
        if s.unicode_len() != 1 {
            return Err(());
        }
        let c = s.get_char(0);
        match c {
            'I' => Ok(TetrominoKind::I),
            'O' => Ok(TetrominoKind::O),
            'T' => Ok(TetrominoKind::T),
            'S' => Ok(TetrominoKind::S),
            'Z' => Ok(TetrominoKind::Z),
            'J' => Ok(TetrominoKind::J),
            'L' => Ok(TetrominoKind::L),
            _ => Err(()),
        }
    }

    /// The letter under which this kind is announced.
    pub fn letter(&self) -> (c: char)
        ensures
            c == spec_letter(*self),
    {
        match self {
            TetrominoKind::I => 'I',
            TetrominoKind::O => 'O',
            TetrominoKind::T => 'T',
            TetrominoKind::S => 'S',
            TetrominoKind::Z => 'Z',
            TetrominoKind::J => 'J',
            TetrominoKind::L => 'L',
        }
    }
}

} // verus!
