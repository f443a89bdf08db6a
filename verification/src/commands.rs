//! The movement commands a referee accepts for a piece in flight: parsing of
//! command tokens and their clamped effect on the piece's offset and
//! rotation.

use vstd::prelude::*;
use vstd::string::StrSliceExecFns;
use crate::shape::{Tetromino, spec_width};
use crate::grid::horizontal_ok;

verus! {

/// One recognized command token. `Blank` is the empty token, a no-op.
#[derive(Clone, Copy, Debug, PartialEq, Eq, Structural)]
pub enum Token {
    ShiftLeft,
    ShiftRight,
    Rotate,
    Blank,
}

/// What a token string parses to, if anything.
pub open spec fn parse_token_spec(s: Seq<char>) -> Option<Token> {
    if s == "shift_left"@ {
        Some(Token::ShiftLeft)
    } else if s == "shift_right"@ {
        Some(Token::ShiftRight)
    } else if s == "rotate"@ {
        Some(Token::Rotate)
    } else if s.len() == 0 {
        Some(Token::Blank)
    } else {
        None
    }
}

/// The token a string stands for, reading an unrecognized one as a no-op.
pub open spec fn spec_token_of(s: Seq<char>) -> Token {
    match parse_token_spec(s) {
        Some(t) => t,
        None => Token::Blank,
    }
}

/// The views of a sequence of token strings.
pub open spec fn token_views(ts: Seq<String>) -> Seq<Seq<char>> {
    Seq::new(ts.len(), |i: int| ts[i]@)
}

/// The token sequence of a sequence of token-string views.
pub open spec fn spec_tokens(ts: Seq<Seq<char>>) -> Seq<Token> {
    Seq::new(ts.len(), |i: int| spec_token_of(ts[i]))
}

/// The effect of one token on a piece in flight:
/// - `shift_left` moves one column left, clamped at column 1;
/// - `shift_right` moves one column right, clamped so the piece stays on the
///   board;
/// - `rotate` adds 90 degrees (modulo 360) and then clamps the offset down to
///   the rightmost position legal for the new width, so rotation never fails;
/// - the empty token does nothing.
pub open spec fn apply_token_spec(t: Tetromino, tok: Token) -> Tetromino {
    match tok {
        Token::ShiftLeft => if t.position > 1 {
            Tetromino { kind: t.kind, position: (t.position - 1) as usize, rotation: t.rotation }
        } else {
            t
        },
        Token::ShiftRight => if t.position + spec_width(t.kind, t.rotation as nat) <= 10 {
            Tetromino { kind: t.kind, position: (t.position + 1) as usize, rotation: t.rotation }
        } else {
            t
        },
        Token::Rotate => {
            let rot = ((t.rotation + 90) % 360) as usize;
            let maxpos = (11 - spec_width(t.kind, rot as nat)) as usize;
            if t.position > maxpos {
                Tetromino { kind: t.kind, position: maxpos, rotation: rot }
            } else {
                Tetromino { kind: t.kind, position: t.position, rotation: rot }
            }
        },
        Token::Blank => t,
    }
}

/// The effect of a token sequence, applied left to right.
pub open spec fn apply_tokens_spec(t: Tetromino, toks: Seq<Token>) -> Tetromino
    decreases toks.len(),
{
    if toks.len() == 0 {
        t
    } else {
        apply_token_spec(apply_tokens_spec(t, toks.drop_last()), toks.last())
    }
}

/// One token keeps the piece's offset legal for its width, its rotation
/// below 360 and its kind unchanged.
pub proof fn lemma_apply_token_legal(t: Tetromino, tok: Token)
    requires
        horizontal_ok(t),
        t.rotation < 360,
    ensures
        horizontal_ok(apply_token_spec(t, tok)),
        apply_token_spec(t, tok).rotation < 360,
        apply_token_spec(t, tok).kind == t.kind,
{
}

/// After any sequence of `rotate` and `shift` commands the offset still
/// satisfies `1 <= offset <= 10 - width + 1`, the rotation stays below 360
/// and the kind is unchanged.
pub proof fn lemma_commands_keep_offset_legal(t: Tetromino, toks: Seq<Token>)
    requires
        horizontal_ok(t),
        t.rotation < 360,
    ensures
        horizontal_ok(apply_tokens_spec(t, toks)),
        apply_tokens_spec(t, toks).rotation < 360,
        apply_tokens_spec(t, toks).kind == t.kind,
    decreases toks.len(),
{
    if toks.len() > 0 {
        lemma_commands_keep_offset_legal(t, toks.drop_last());
        lemma_apply_token_legal(apply_tokens_spec(t, toks.drop_last()), toks.last());
    }
}

/// Tokens apply to a concatenation as to its parts in turn.
pub proof fn lemma_apply_tokens_add(t: Tetromino, a: Seq<Token>, b: Seq<Token>)
    ensures
        apply_tokens_spec(t, a + b) == apply_tokens_spec(apply_tokens_spec(t, a), b),
    decreases b.len(),
{
    if b.len() == 0 {
        assert(a + b =~= a);
    } else {
        assert((a + b).drop_last() =~= a + b.drop_last());
        assert((a + b).last() == b.last());
        lemma_apply_tokens_add(t, a, b.drop_last());
    }
}

/// Character-by-character string equality.
fn str_eq(a: &str, b: &str) -> (r: bool)
    ensures
        r == (a@ == b@),
{
    let na = a.unicode_len();
    let nb = b.unicode_len();
    if na != nb {
        return false;
    }
    let mut i: usize = 0;
    while i < na
        invariant
            i <= na,
            na == a@.len(),
            nb == b@.len(),
            na == nb,
            forall|j: int| 0 <= j < i ==> a@[j] == b@[j],
        decreases na - i,
    {
        if a.get_char(i) != b.get_char(i) {
            return false;
        }
        i += 1;
    }
    proof {
        assert(a@ =~= b@);
    }
    true
}

/// Parses one whitespace-separated command token.
pub fn parse_token(s: &str) -> (r: Option<Token>)
    ensures
        r == parse_token_spec(s@),
{
    if str_eq(s, "shift_left") {
        Some(Token::ShiftLeft)
    } else if str_eq(s, "shift_right") {
        Some(Token::ShiftRight)
    } else if str_eq(s, "rotate") {
        Some(Token::Rotate)
    } else if s.unicode_len() == 0 {
        Some(Token::Blank)
    } else {
        None
    }
}

/// Applies one token to the piece in flight.
pub fn apply_token(t: &mut Tetromino, tok: Token)
    requires
        horizontal_ok(*old(t)),
        old(t).rotation < 360,
    ensures
        *final(t) == apply_token_spec(*old(t), tok),
        horizontal_ok(*final(t)),
        final(t).rotation < 360,
        final(t).kind == old(t).kind,
{
    match tok {
        Token::ShiftLeft => {
            if t.position > 1 {
                t.position = t.position - 1;
            }
        },
        Token::ShiftRight => {
            let w = t.width();
            if t.position + w <= 10 {
                t.position = t.position + 1;
            }
        },
        Token::Rotate => {
            t.rotation = (t.rotation + 90) % 360;
            let w = t.width();
            proof {
                crate::shape::lemma_blocks_bounds(t.kind, t.rotation as nat);
            }
            let maxpos = 11 - w;
            if t.position > maxpos {
                t.position = maxpos;
            }
        },
        Token::Blank => {},
    }
}

/// Applies a whole command line, token by token, left to right. Returns
/// `false` as soon as an unrecognized token is met; the piece may then have
/// been moved by the earlier tokens, but its offset is still legal.
pub fn apply_commands(t: &mut Tetromino, tokens: &Vec<String>) -> (ok: bool)
    requires
        horizontal_ok(*old(t)),
        old(t).rotation < 360,
    ensures
        ok <==> (forall|i: int| 0 <= i < tokens@.len() ==>
            parse_token_spec((#[trigger] tokens@[i])@) is Some),
        ok ==> *final(t) == apply_tokens_spec(*old(t), spec_tokens(token_views(tokens@))),
        horizontal_ok(*final(t)),
        final(t).rotation < 360,
        final(t).kind == old(t).kind,
{
    let n = tokens.len();
    let mut i: usize = 0;
    while i < n
        invariant
            i <= n,
            n == tokens@.len(),
            horizontal_ok(*t),
            t.rotation < 360,
            t.kind == old(t).kind,
            *t == apply_tokens_spec(*old(t), spec_tokens(token_views(tokens@)).subrange(0, i as int)),
            horizontal_ok(*old(t)),
            old(t).rotation < 360,
            forall|j: int| 0 <= j < i ==> parse_token_spec((#[trigger] tokens@[j])@) is Some,
        decreases n - i,
    {
        match parse_token(tokens[i].as_str()) {
            None => {
                return false;
            },
            Some(tok) => {
                let ghost all = spec_tokens(token_views(tokens@));
                let ghost before = *t;
                apply_token(t, tok);
                proof {
                    assert(all.subrange(0, i + 1).drop_last() =~= all.subrange(0, i as int));
                    assert(all.subrange(0, i + 1).last() == all[i as int]);
                    assert(all[i as int] == tok);
                    assert(*t == apply_tokens_spec(*old(t), all.subrange(0, i + 1)));
                }
            },
        }
        i += 1;
    }
    proof {
        let all = spec_tokens(token_views(tokens@));
        assert(all.subrange(0, n as int) =~= all);
    }
    true
}

} // verus!
