//! What a template means, stated over byte sequences.
//!
//! The compiler is a scanner with a little state; the functions here say, for
//! each part of it, which state follows from which. The executable code in
//! [`crate::state`] is proved to compute exactly these.

use crate::bytes::{
    is_whitespace, BACKSLASH, DOUBLE_QUOTE, OPEN_BRACE, OPEN_BRACKET, SINGLE_QUOTE, TRIM_MARKER,
};
use crate::instruction::{InstructionView, TemplateError};
use crate::paren::{closed_by, stack_after, ParenKind};
use vstd::prelude::*;

verus! {

/// The scanner's state as a mathematical value.
pub struct StateView {
    /// The template.
    pub source: Seq<u8>,
    /// How many bytes of the template have been read.
    pub cursor: int,
    /// Literal text that has been read and not yet emitted.
    pub pending: Seq<u8>,
    /// Whether whitespace at the start of the next literal run is dropped.
    pub trim_start: bool,
    /// The delimiters that are open, innermost last.
    pub stack: Seq<ParenKind>,
    /// What has been emitted so far.
    pub instructions: Seq<InstructionView>,
}

/// The state in which scanning `source` starts.
pub open spec fn initial_state(source: Seq<u8>) -> StateView {
    StateView {
        source,
        cursor: 0,
        pending: Seq::empty(),
        trim_start: false,
        stack: Seq::empty(),
        instructions: Seq::empty(),
    }
}

/// Where the quoted run that is read from `pos` ends: the position just after
/// the first `ender` that no backslash makes inert, or `None` if the template
/// ends first. A backslash and the byte after it are passed over together.
pub open spec fn quoted_end(s: Seq<u8>, pos: int, ender: u8) -> Option<int>
    decreases s.len() - pos,
{
    if pos < 0 || pos >= s.len() {
        None
    } else if s[pos] == BACKSLASH {
        if pos + 1 < s.len() {
            quoted_end(s, pos + 2, ender)
        } else {
            None
        }
    } else if s[pos] == ender {
        Some(pos + 1)
    } else {
        quoted_end(s, pos + 1, ender)
    }
}

/// A quoted run ends after where it starts and inside the template, just
/// after an `ender`.
pub proof fn lemma_quoted_end_bounds(s: Seq<u8>, pos: int, ender: u8)
    ensures
        quoted_end(s, pos, ender) matches Some(end) ==> pos < end <= s.len() && s[end - 1]
            == ender,
    decreases s.len() - pos,
{
    if 0 <= pos < s.len() {
        if s[pos] == BACKSLASH {
            if pos + 1 < s.len() {
                lemma_quoted_end_bounds(s, pos + 2, ender);
            }
        } else if s[pos] != ender {
            lemma_quoted_end_bounds(s, pos + 1, ender);
        }
    }
}

/// Where the escape that is read from `pos` with `stack` open ends: the
/// position just after the delimiter that empties the stack.
///
/// Quoted runs are passed over whole. Every other byte changes the stack as
/// [`stack_after`] says. The scan fails with `UnterminatedLiteral` where a
/// quoted run has no end, with `UnbalancedParen` at a closing delimiter that
/// does not match, and with `UnterminatedParen` where the template ends while
/// something is open.
pub open spec fn escape_end(
    s: Seq<u8>,
    pos: int,
    stack: Seq<ParenKind>,
    allow_unbalanced_brace: bool,
) -> Result<int, TemplateError>
    decreases s.len() - pos,
{
    if stack.len() == 0 {
        Ok(pos)
    } else if pos < 0 || pos >= s.len() {
        Err(TemplateError::UnterminatedParen)
    } else if s[pos] == SINGLE_QUOTE || s[pos] == DOUBLE_QUOTE {
        match quoted_end(s, pos + 1, s[pos]) {
            None => Err(TemplateError::UnterminatedLiteral),
            Some(after) => {
                proof {
                    lemma_quoted_end_bounds(s, pos + 1, s[pos]);
                }
                escape_end(s, after, stack, allow_unbalanced_brace)
            },
        }
    } else {
        match stack_after(stack, s[pos], allow_unbalanced_brace) {
            None => Err(TemplateError::UnbalancedParen),
            Some(next) => escape_end(s, pos + 1, next, allow_unbalanced_brace),
        }
    }
}

/// `text` without the whitespace at its end.
pub open spec fn trim_end(text: Seq<u8>) -> Seq<u8>
    decreases text.len(),
{
    if text.len() > 0 && is_whitespace(text.last()) {
        trim_end(text.drop_last())
    } else {
        text
    }
}

/// Whether the text of an escape starts with the trim marker, which trims the
/// end of the literal text before the escape.
pub open spec fn trims_before(code: Seq<u8>) -> bool {
    code.len() > 0 && code[0] == TRIM_MARKER
}

/// The text of an escape without the trim marker at its start, if it has one.
pub open spec fn without_leading_marker(code: Seq<u8>) -> Seq<u8> {
    if trims_before(code) {
        code.subrange(1, code.len() as int)
    } else {
        code
    }
}

/// Whether the text of an escape, once the marker at its start is taken off,
/// ends with the trim marker, which trims the start of the literal text after
/// the escape.
pub open spec fn trims_after(code: Seq<u8>) -> bool {
    let rest = without_leading_marker(code);
    rest.len() > 0 && rest.last() == TRIM_MARKER
}

/// The text of an escape without its trim markers.
pub open spec fn without_markers(code: Seq<u8>) -> Seq<u8> {
    let rest = without_leading_marker(code);
    if trims_after(code) {
        rest.drop_last()
    } else {
        rest
    }
}

/// The state after the trim markers of an escape with text `code` have been
/// applied: the pending literal loses the whitespace at its end if `code`
/// starts with a marker, and the next literal run is trimmed at its start
/// exactly if `code` ends with one.
pub open spec fn trimmed_state(st: StateView, code: Seq<u8>) -> StateView {
    StateView {
        pending: if trims_before(code) {
            trim_end(st.pending)
        } else {
            st.pending
        },
        trim_start: trims_after(code),
        ..st
    }
}

/// The state after the pending literal text has been emitted: it becomes an
/// `EmitLiteral` instruction unless it is empty.
pub open spec fn flushed_state(st: StateView) -> StateView {
    StateView {
        pending: Seq::empty(),
        instructions: if st.pending.len() > 0 {
            st.instructions.push(InstructionView::EmitLiteral(st.pending))
        } else {
            st.instructions
        },
        ..st
    }
}

/// The state after the escape scan that starts at the cursor, with its text,
/// which runs from the cursor to the delimiter that ends the escape.
pub open spec fn scanned(st: StateView, end: int) -> (StateView, Seq<u8>) {
    (
        StateView { cursor: end, stack: Seq::empty(), ..st },
        st.source.subrange(st.cursor, end - 1),
    )
}

/// The state after a statement escape whose `[` has just been read.
///
/// Its text is emitted as `EmitRawCode`, after the pending literal, whatever
/// the text is: an empty escape emits empty code, and the literal before it
/// ends there.
pub open spec fn after_statement(st: StateView) -> Result<StateView, TemplateError> {
    match escape_end(st.source, st.cursor, seq![ParenKind::Bracket], true) {
        Err(e) => Err(e),
        Ok(end) => {
            let (at_end, raw) = scanned(st, end);
            let flushed = flushed_state(trimmed_state(at_end, raw));
            Ok(
                StateView {
                    instructions: flushed.instructions.push(
                        InstructionView::EmitRawCode(without_markers(raw)),
                    ),
                    ..flushed
                },
            )
        },
    }
}

/// The state after an expression escape whose `{` has just been read.
///
/// Its text is emitted as `EmitExpression`, after the pending literal.
pub open spec fn after_expression(st: StateView) -> Result<StateView, TemplateError> {
    match escape_end(st.source, st.cursor, seq![ParenKind::Brace], false) {
        Err(e) => Err(e),
        Ok(end) => {
            let (at_end, raw) = scanned(st, end);
            let flushed = flushed_state(trimmed_state(at_end, raw));
            Ok(
                StateView {
                    instructions: flushed.instructions.push(
                        InstructionView::EmitExpression(without_markers(raw)),
                    ),
                    ..flushed
                },
            )
        },
    }
}

/// An escape ends after where it starts and inside the template, just after
/// a closing delimiter.
pub proof fn lemma_escape_end_bounds(
    s: Seq<u8>,
    pos: int,
    stack: Seq<ParenKind>,
    allow_unbalanced_brace: bool,
)
    requires
        stack.len() > 0,
    ensures
        escape_end(s, pos, stack, allow_unbalanced_brace) matches Ok(end) ==> pos < end <= s.len()
            && closed_by(s[end - 1]) is Some,
    decreases s.len() - pos,
{
    if 0 <= pos < s.len() {
        if s[pos] == SINGLE_QUOTE || s[pos] == DOUBLE_QUOTE {
            lemma_quoted_end_bounds(s, pos + 1, s[pos]);
            if let Some(after) = quoted_end(s, pos + 1, s[pos]) {
                lemma_escape_end_bounds(s, after, stack, allow_unbalanced_brace);
            }
        } else if let Some(next) = stack_after(stack, s[pos], allow_unbalanced_brace) {
            if next.len() > 0 {
                lemma_escape_end_bounds(s, pos + 1, next, allow_unbalanced_brace);
            }
        }
    }
}

/// The state after one step outside any escape.
///
/// `[[` and `{{` stand for one `[` and one `{` of literal text, and change
/// nothing else. Any other `[` starts a statement escape and any other `{` an
/// expression escape. Every other byte is literal text, and ends the trimming
/// of the run's start; but whitespace is dropped while that trimming is on.
/// At the end of the template there is no step to take.
pub open spec fn step(st: StateView) -> Result<StateView, TemplateError> {
    let b = st.source[st.cursor];
    if st.cursor < 0 || st.cursor >= st.source.len() {
        Ok(st)
    } else if b == OPEN_BRACKET || b == OPEN_BRACE {
        if st.cursor + 1 < st.source.len() && st.source[st.cursor + 1] == b {
            Ok(StateView { cursor: st.cursor + 2, pending: st.pending.push(b), ..st })
        } else if b == OPEN_BRACKET {
            after_statement(StateView { cursor: st.cursor + 1, ..st })
        } else {
            after_expression(StateView { cursor: st.cursor + 1, ..st })
        }
    } else if st.trim_start && is_whitespace(b) {
        Ok(StateView { cursor: st.cursor + 1, ..st })
    } else {
        Ok(
            StateView {
                cursor: st.cursor + 1,
                pending: st.pending.push(b),
                trim_start: false,
                ..st
            },
        )
    }
}

/// A step moves the cursor forward, inside the same template.
pub proof fn lemma_step_advances(st: StateView)
    requires
        0 <= st.cursor < st.source.len(),
    ensures
        step(st) matches Ok(next) ==> st.cursor < next.cursor <= st.source.len() && next.source
            == st.source,
{
    lemma_escape_end_bounds(st.source, st.cursor + 1, seq![ParenKind::Bracket], true);
    lemma_escape_end_bounds(st.source, st.cursor + 1, seq![ParenKind::Brace], false);
}

/// What scanning on from `st`, outside any escape, emits in the end: step by
/// step to the end of the template, where the pending literal is emitted; or
/// the error of the first step that fails.
pub open spec fn run(st: StateView) -> Result<Seq<InstructionView>, TemplateError>
    decreases st.source.len() - st.cursor,
{
    if st.cursor < 0 || st.cursor >= st.source.len() {
        Ok(flushed_state(st).instructions)
    } else {
        match step(st) {
            Err(e) => Err(e),
            Ok(next) => {
                proof {
                    lemma_step_advances(st);
                }
                run(next)
            },
        }
    }
}

/// The instructions that `template` compiles to, or why it is refused.
pub open spec fn compiled(template: Seq<u8>) -> Result<Seq<InstructionView>, TemplateError> {
    run(initial_state(template))
}

} // verus!
