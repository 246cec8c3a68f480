//! Delimiter kinds, and the rules that say what a byte inside an escape does
//! to the stack of delimiters that are still open.

use crate::bytes::{
    CLOSE_BRACE, CLOSE_BRACKET, CLOSE_PAREN, OPEN_BRACE, OPEN_BRACKET, OPEN_PAREN,
};
use vstd::prelude::*;

verus! {

/// The three kinds of delimiter that an escape scan keeps track of.
#[derive(Clone, Copy, Debug, PartialEq, Eq, Structural)]
pub enum ParenKind {
    /// `(` and `)`.
    Paren,
    /// `[` and `]`.
    Bracket,
    /// `{` and `}`.
    Brace,
}

/// The kind that `b` opens, if it is an opening delimiter.
pub open spec fn opened_by(b: u8) -> Option<ParenKind> {
    if b == OPEN_PAREN {
        Some(ParenKind::Paren)
    } else if b == OPEN_BRACKET {
        Some(ParenKind::Bracket)
    } else if b == OPEN_BRACE {
        Some(ParenKind::Brace)
    } else {
        None
    }
}

/// The kind that `b` closes, if it is a closing delimiter.
pub open spec fn closed_by(b: u8) -> Option<ParenKind> {
    if b == CLOSE_PAREN {
        Some(ParenKind::Paren)
    } else if b == CLOSE_BRACKET {
        Some(ParenKind::Bracket)
    } else if b == CLOSE_BRACE {
        Some(ParenKind::Brace)
    } else {
        None
    }
}

/// Whether a `}` met with this stack is ordinary text: unbalanced braces are
/// allowed and nothing but the escape's own opener is open.
pub open spec fn brace_is_text(stack: Seq<ParenKind>, allow_unbalanced_brace: bool) -> bool {
    allow_unbalanced_brace && stack.len() == 1
}

/// Whether this stack is a `[` with nothing but braces open above it, and at
/// least one of them. A `]` met with such a stack ends the escape and leaves
/// the braces open, for a later escape to close.
pub open spec fn is_bracket_under_braces(stack: Seq<ParenKind>) -> bool {
    &&& stack.len() >= 2
    &&& stack[0] == ParenKind::Bracket
    &&& forall|i: int| 1 <= i < stack.len() ==> stack[i] == ParenKind::Brace
}

/// The stack after a byte other than a quote, or `None` where the byte is a
/// closing delimiter that does not match.
///
/// An opening delimiter is pushed. A closing delimiter pops its own kind off
/// the top. Two cases are let through where unbalanced braces are allowed:
/// a `}` that is text ([`brace_is_text`]) leaves the stack as it is, and a `]`
/// over open braces ([`is_bracket_under_braces`]) empties it. Any other byte
/// leaves the stack as it is.
pub open spec fn stack_after(
    stack: Seq<ParenKind>,
    b: u8,
    allow_unbalanced_brace: bool,
) -> Option<Seq<ParenKind>> {
    if opened_by(b) is Some {
        Some(stack.push(opened_by(b).unwrap()))
    } else if closed_by(b) is Some {
        if b == CLOSE_BRACE && brace_is_text(stack, allow_unbalanced_brace) {
            Some(stack)
        } else if stack.len() > 0 && stack.last() == closed_by(b).unwrap() {
            Some(stack.drop_last())
        } else if b == CLOSE_BRACKET && allow_unbalanced_brace && is_bracket_under_braces(stack) {
            Some(Seq::empty())
        } else {
            None
        }
    } else {
        Some(stack)
    }
}

/// Decides whether a `}` met with `stack` is ordinary text.
pub fn brace_counts_as_text(stack: &Vec<ParenKind>, allow_unbalanced_brace: bool) -> (r: bool)
    ensures
        r == brace_is_text(stack@, allow_unbalanced_brace),
{
    allow_unbalanced_brace && stack.len() == 1
}

/// Decides whether `stack` is a `[` with only braces above it, at least one.
pub fn bracket_under_braces(stack: &Vec<ParenKind>) -> (r: bool)
    ensures
        r == is_bracket_under_braces(stack@),
{
    if stack.len() < 2 || stack[0] != ParenKind::Bracket {
        return false;
    }
    let mut k: usize = 1;
    while k < stack.len()
        invariant
            1 <= k <= stack.len(),
            forall|i: int| 1 <= i < k ==> stack@[i] == ParenKind::Brace,
        decreases stack.len() - k,
    {
        if stack[k] != ParenKind::Brace {
            return false;
        }
        k += 1;
    }
    true
}

} // verus!
