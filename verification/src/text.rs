//! Templates that are text: what is compiled from UTF-8 is UTF-8.
//!
//! The scanner reads bytes and stops only at ASCII bytes. In UTF-8 an ASCII
//! byte is a character of its own, so every run of literal text and every run
//! of code that the scanner cuts out of a text is a text again.

use crate::bytes::{is_whitespace, OPEN_BRACE, OPEN_BRACKET};
use crate::instruction::InstructionView;
use crate::model::{
    after_expression, after_statement, compiled, escape_end, flushed_state, initial_state,
    lemma_escape_end_bounds, lemma_step_advances, run, scanned, step, trim_end, trimmed_state,
    without_leading_marker, without_markers, StateView,
};
use crate::paren::ParenKind;
use crate::render::{all_text, payload};
use vstd::prelude::*;
use vstd::utf8::{
    is_char_boundary, is_char_boundary_iff_not_is_continuation_byte,
    is_char_boundary_start_end_of_seq, pop_first_scalar, valid_utf8, valid_utf8_concat,
    valid_utf8_split,
};

verus! {

/// Whether `b` is an ASCII byte.
pub open spec fn is_ascii_byte(b: u8) -> bool {
    b < 0x80
}

/// One ASCII byte is a text.
pub proof fn lemma_one_ascii_is_text(b: u8)
    requires
        is_ascii_byte(b),
    ensures
        valid_utf8(seq![b]),
{
    reveal_with_fuel(valid_utf8, 2);
    assert(b & 0x7f <= 0x7f) by (bit_vector);
}

/// A text that starts with an ASCII byte is a text without it.
pub proof fn lemma_text_without_first_ascii(text: Seq<u8>)
    requires
        valid_utf8(text),
        text.len() > 0,
        is_ascii_byte(text[0]),
    ensures
        valid_utf8(text.subrange(1, text.len() as int)),
{
}

/// In a text, an ASCII byte stands between two characters: there is a
/// character boundary before it and one after it.
pub proof fn lemma_ascii_is_between_characters(text: Seq<u8>, i: int)
    requires
        valid_utf8(text),
        0 <= i < text.len(),
        is_ascii_byte(text[i]),
    ensures
        is_char_boundary(text, i),
        is_char_boundary(text, i + 1),
{
    is_char_boundary_iff_not_is_continuation_byte(text, i);
    if i + 1 == text.len() {
        is_char_boundary_start_end_of_seq(text);
    } else {
        valid_utf8_split(text, i);
        lemma_text_without_first_ascii(text.subrange(i, text.len() as int));
        is_char_boundary_iff_not_is_continuation_byte(text, i + 1);
    }
}

/// What stands between two character boundaries of a text is a text.
pub proof fn lemma_text_between_boundaries(text: Seq<u8>, from: int, to: int)
    requires
        valid_utf8(text),
        is_char_boundary(text, from),
        is_char_boundary(text, to),
        from <= to,
    ensures
        0 <= from,
        to <= text.len(),
        valid_utf8(text.subrange(from, to)),
{
    valid_utf8_split(text, to);
    let head = text.subrange(0, to);
    if from < to {
        is_char_boundary_iff_not_is_continuation_byte(text, from);
        is_char_boundary_iff_not_is_continuation_byte(head, from);
        valid_utf8_split(head, from);
        assert(head.subrange(from, head.len() as int) =~= text.subrange(from, to));
    }
}

/// A text that ends with an ASCII byte is a text without it.
pub proof fn lemma_text_without_last_ascii(text: Seq<u8>)
    requires
        valid_utf8(text),
        text.len() > 0,
        is_ascii_byte(text.last()),
    ensures
        valid_utf8(text.drop_last()),
{
    lemma_ascii_is_between_characters(text, text.len() - 1);
    valid_utf8_split(text, text.len() - 1);
}

/// A text with an ASCII byte after it is a text.
pub proof fn lemma_text_with_ascii(text: Seq<u8>, b: u8)
    requires
        valid_utf8(text),
        is_ascii_byte(b),
    ensures
        valid_utf8(text.push(b)),
{
    lemma_one_ascii_is_text(b);
    valid_utf8_concat(text, seq![b]);
    assert(text.push(b) =~= text + seq![b]);
}

/// A text is a text without the whitespace at its end.
pub proof fn lemma_trim_end_of_text_is_text(text: Seq<u8>)
    requires
        valid_utf8(text),
    ensures
        valid_utf8(trim_end(text)),
    decreases text.len(),
{
    if text.len() > 0 && is_whitespace(text.last()) {
        lemma_text_without_last_ascii(text);
        lemma_trim_end_of_text_is_text(text.drop_last());
    }
}

/// The text of an escape is a text without its trim markers.
pub proof fn lemma_text_without_markers_is_text(code: Seq<u8>)
    requires
        valid_utf8(code),
    ensures
        valid_utf8(without_markers(code)),
{
    let rest = without_leading_marker(code);
    if rest != code {
        lemma_text_without_first_ascii(code);
    }
    if without_markers(code) != rest {
        lemma_text_without_last_ascii(rest);
    }
}

/// Instructions that are text stay text with one more that is.
pub proof fn lemma_all_text_push(instructions: Seq<InstructionView>, next: InstructionView)
    requires
        all_text(instructions),
        valid_utf8(payload(next)),
    ensures
        all_text(instructions.push(next)),
{
}

/// Whether a state outside any escape holds text, and nothing but text can
/// come of it: the template is a text, what has been emitted is text, and the
/// pending literal is a text `head` and then the bytes of the template from
/// the character boundary `from` to the cursor.
pub open spec fn holds_text(st: StateView, head: Seq<u8>, from: int) -> bool {
    &&& valid_utf8(st.source)
    &&& all_text(st.instructions)
    &&& from <= st.cursor <= st.source.len()
    &&& is_char_boundary(st.source, from)
    &&& valid_utf8(head)
    &&& st.pending == head + st.source.subrange(from, st.cursor)
}

/// Where the cursor stands before an ASCII byte, the pending literal is a
/// text.
proof fn lemma_pending_is_text_at_boundary(st: StateView, head: Seq<u8>, from: int)
    requires
        holds_text(st, head, from),
        is_char_boundary(st.source, st.cursor),
    ensures
        valid_utf8(st.pending),
{
    lemma_text_between_boundaries(st.source, from, st.cursor);
    valid_utf8_concat(head, st.source.subrange(from, st.cursor));
}

/// A state whose pending literal is a text, at a character boundary, holds
/// text.
proof fn lemma_holds_text_at_boundary(st: StateView)
    requires
        valid_utf8(st.source),
        all_text(st.instructions),
        valid_utf8(st.pending),
        is_char_boundary(st.source, st.cursor),
        st.cursor <= st.source.len(),
    ensures
        holds_text(st, st.pending, st.cursor),
{
}

/// An escape that is cut out of a text emits text and leaves text pending.
proof fn lemma_escape_keeps_text(st: StateView)
    requires
        valid_utf8(st.source),
        all_text(st.instructions),
        valid_utf8(st.pending),
        is_char_boundary(st.source, st.cursor),
    ensures
        after_statement(st) matches Ok(next) ==> holds_text(next, next.pending, next.cursor),
        after_expression(st) matches Ok(next) ==> holds_text(next, next.pending, next.cursor),
{
    let s = st.source;
    lemma_trim_end_of_text_is_text(st.pending);
    lemma_escape_end_bounds(s, st.cursor, seq![ParenKind::Bracket], true);
    lemma_escape_end_bounds(s, st.cursor, seq![ParenKind::Brace], false);
    if let Ok(end) = escape_end(s, st.cursor, seq![ParenKind::Bracket], true) {
        lemma_ascii_is_between_characters(s, end - 1);
        lemma_text_between_boundaries(s, st.cursor, end - 1);
        let raw = s.subrange(st.cursor, end - 1);
        lemma_text_without_markers_is_text(raw);
        let next = after_statement(st).unwrap();
        let trimmed = trimmed_state(scanned(st, end).0, raw);
        let flushed = flushed_state(trimmed);
        if trimmed.pending.len() > 0 {
            lemma_all_text_push(st.instructions, InstructionView::EmitLiteral(trimmed.pending));
        }
        lemma_all_text_push(
            flushed.instructions,
            InstructionView::EmitRawCode(without_markers(raw)),
        );
        lemma_holds_text_at_boundary(next);
    }
    if let Ok(end) = escape_end(s, st.cursor, seq![ParenKind::Brace], false) {
        lemma_ascii_is_between_characters(s, end - 1);
        lemma_text_between_boundaries(s, st.cursor, end - 1);
        let raw = s.subrange(st.cursor, end - 1);
        lemma_text_without_markers_is_text(raw);
        let next = after_expression(st).unwrap();
        let trimmed = trimmed_state(scanned(st, end).0, raw);
        let flushed = flushed_state(trimmed);
        if trimmed.pending.len() > 0 {
            lemma_all_text_push(st.instructions, InstructionView::EmitLiteral(trimmed.pending));
        }
        lemma_all_text_push(
            flushed.instructions,
            InstructionView::EmitExpression(without_markers(raw)),
        );
        lemma_holds_text_at_boundary(next);
    }
}

/// A step from a state that holds text leads to a state that holds text.
proof fn lemma_step_keeps_text(st: StateView, head: Seq<u8>, from: int) -> (witness: (
    Seq<u8>,
    int,
))
    requires
        holds_text(st, head, from),
        st.cursor < st.source.len(),
    ensures
        step(st) matches Ok(next) ==> holds_text(next, witness.0, witness.1),
{
    let s = st.source;
    lemma_text_between_boundaries(s, from, from);
    let b = s[st.cursor];
    if b == OPEN_BRACKET || b == OPEN_BRACE {
        lemma_ascii_is_between_characters(s, st.cursor);
        lemma_pending_is_text_at_boundary(st, head, from);
        if st.cursor + 1 < s.len() && s[st.cursor + 1] == b {
            lemma_ascii_is_between_characters(s, st.cursor + 1);
            lemma_text_with_ascii(st.pending, b);
            let next = step(st).unwrap();
            lemma_holds_text_at_boundary(next);
            (next.pending, next.cursor)
        } else {
            lemma_escape_keeps_text(StateView { cursor: st.cursor + 1, ..st });
            match step(st) {
                Ok(next) => (next.pending, next.cursor),
                Err(_) => (head, from),
            }
        }
    } else if st.trim_start && is_whitespace(b) {
        lemma_ascii_is_between_characters(s, st.cursor);
        lemma_pending_is_text_at_boundary(st, head, from);
        let next = step(st).unwrap();
        lemma_holds_text_at_boundary(next);
        (next.pending, next.cursor)
    } else {
        let next = step(st).unwrap();
        assert(next.pending =~= head + s.subrange(from, st.cursor + 1));
        (head, from)
    }
}

proof fn lemma_run_keeps_text(st: StateView, head: Seq<u8>, from: int)
    requires
        holds_text(st, head, from),
    ensures
        run(st) matches Ok(instructions) ==> all_text(instructions),
    decreases st.source.len() - st.cursor,
{
    if st.cursor < st.source.len() {
        lemma_text_between_boundaries(st.source, from, from);
        lemma_step_advances(st);
        let witness = lemma_step_keeps_text(st, head, from);
        if let Ok(next) = step(st) {
            lemma_run_keeps_text(next, witness.0, witness.1);
        }
    } else {
        is_char_boundary_start_end_of_seq(st.source);
        lemma_pending_is_text_at_boundary(st, head, from);
        if st.pending.len() > 0 {
            lemma_all_text_push(st.instructions, InstructionView::EmitLiteral(st.pending));
        }
    }
}

/// A template that is a text compiles to instructions that are text: every
/// run of literal text and every run of code in them is UTF-8.
pub proof fn lemma_text_compiles_to_text(template: Seq<u8>)
    requires
        valid_utf8(template),
    ensures
        compiled(template) matches Ok(instructions) ==> all_text(instructions),
{
    let st = initial_state(template);
    is_char_boundary_start_end_of_seq(template);
    lemma_holds_text_at_boundary(st);
    lemma_run_keeps_text(st, st.pending, 0);
}

} // verus!
