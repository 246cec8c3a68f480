//! What holds of every template: laws of the compiler, proved from the
//! definitions in [`crate::model`].

use crate::bytes::{
    is_whitespace, BACKSLASH, CLOSE_BRACE, DOUBLE_QUOTE, OPEN_BRACE, OPEN_BRACKET, SINGLE_QUOTE,
};
use crate::instruction::{InstructionView, TemplateError};
use crate::model::{
    after_expression, after_statement, compiled, escape_end, flushed_state, initial_state,
    lemma_escape_end_bounds, lemma_step_advances, quoted_end, run, step, trim_end, StateView,
};
use crate::paren::{closed_by, opened_by, stack_after, ParenKind};
use vstd::prelude::*;

verus! {

/// What a template of literal text alone compiles to: one `EmitLiteral` with
/// the text, or nothing where there is no text.
pub open spec fn literal_only(text: Seq<u8>) -> Seq<InstructionView> {
    if text.len() > 0 {
        seq![InstructionView::EmitLiteral(text)]
    } else {
        Seq::empty()
    }
}

/// Whether `b` starts an escape outside any escape: `[` or `{`.
pub open spec fn starts_escape(b: u8) -> bool {
    b == OPEN_BRACKET || b == OPEN_BRACE
}

/// Whether every `[` and `{` of `template` from `pos` on is one of a doubled
/// pair, read from left to right.
pub open spec fn only_doubled_openers(template: Seq<u8>, pos: int) -> bool
    decreases template.len() - pos,
{
    if pos < 0 || pos >= template.len() {
        true
    } else if starts_escape(template[pos]) {
        pos + 1 < template.len() && template[pos + 1] == template[pos] && only_doubled_openers(
            template,
            pos + 2,
        )
    } else {
        only_doubled_openers(template, pos + 1)
    }
}

/// The text of `template` from `pos` on with each doubled pair replaced by
/// one `[` or `{`.
pub open spec fn unescaped(template: Seq<u8>, pos: int) -> Seq<u8>
    decreases template.len() - pos,
{
    if pos < 0 || pos >= template.len() {
        Seq::empty()
    } else if starts_escape(template[pos]) && pos + 1 < template.len() {
        seq![template[pos]] + unescaped(template, pos + 2)
    } else {
        seq![template[pos]] + unescaped(template, pos + 1)
    }
}

proof fn lemma_run_plain(st: StateView)
    requires
        0 <= st.cursor <= st.source.len(),
        !st.trim_start,
        forall|i: int| st.cursor <= i < st.source.len() ==> !starts_escape(st.source[i]),
    ensures
        run(st) == Ok::<Seq<InstructionView>, TemplateError>(
            flushed_state(
                StateView {
                    pending: st.pending + st.source.subrange(st.cursor, st.source.len() as int),
                    ..st
                },
            ).instructions,
        ),
    decreases st.source.len() - st.cursor,
{
    let rest = st.source.subrange(st.cursor, st.source.len() as int);
    if st.cursor < st.source.len() {
        let b = st.source[st.cursor];
        let next = StateView { cursor: st.cursor + 1, pending: st.pending.push(b), ..st };
        lemma_run_plain(next);
        assert(next.pending + st.source.subrange(next.cursor, st.source.len() as int)
            =~= st.pending + rest);
    }
}

/// A template without `[` and `{` compiles to its own text as one literal:
/// the text comes out unchanged.
pub proof fn lemma_plain_template_is_one_literal(template: Seq<u8>)
    requires
        forall|i: int| 0 <= i < template.len() ==> !starts_escape(template[i]),
    ensures
        compiled(template) == Ok::<Seq<InstructionView>, TemplateError>(literal_only(template)),
{
    let st = initial_state(template);
    lemma_run_plain(st);
    assert(st.pending + template.subrange(0, template.len() as int) =~= template);
}

/// Outside any escape, a doubled `[` or `{` adds one such byte to the pending
/// literal text and changes nothing else: not what has been emitted, not the
/// trimming of the run's start.
pub proof fn lemma_doubled_opener_is_literal(st: StateView)
    requires
        0 <= st.cursor,
        st.cursor + 1 < st.source.len(),
        starts_escape(st.source[st.cursor]),
        st.source[st.cursor + 1] == st.source[st.cursor],
    ensures
        step(st) == Ok::<StateView, TemplateError>(
            StateView {
                cursor: st.cursor + 2,
                pending: st.pending.push(st.source[st.cursor]),
                ..st
            },
        ),
        run(st) == run(
            StateView {
                cursor: st.cursor + 2,
                pending: st.pending.push(st.source[st.cursor]),
                ..st
            },
        ),
{
}

proof fn lemma_run_escaped(st: StateView)
    requires
        0 <= st.cursor <= st.source.len(),
        !st.trim_start,
        only_doubled_openers(st.source, st.cursor),
    ensures
        run(st) == Ok::<Seq<InstructionView>, TemplateError>(
            flushed_state(
                StateView { pending: st.pending + unescaped(st.source, st.cursor), ..st },
            ).instructions,
        ),
    decreases st.source.len() - st.cursor,
{
    if st.cursor < st.source.len() {
        let b = st.source[st.cursor];
        let width: int = if starts_escape(b) {
            2
        } else {
            1
        };
        let next = StateView { cursor: st.cursor + width, pending: st.pending.push(b), ..st };
        lemma_run_escaped(next);
        assert(next.pending + unescaped(st.source, next.cursor) =~= st.pending + unescaped(
            st.source,
            st.cursor,
        ));
    }
}

/// A template in which every `[` and `{` is doubled compiles to one literal:
/// its text with `[` for each `[[` and `{` for each `{{`.
pub proof fn lemma_escaped_template_is_one_literal(template: Seq<u8>)
    requires
        only_doubled_openers(template, 0),
    ensures
        compiled(template) == Ok::<Seq<InstructionView>, TemplateError>(
            literal_only(unescaped(template, 0)),
        ),
{
    lemma_run_escaped(initial_state(template));
}

/// No delimiter is open when a scan starts, and none is open after an escape
/// that was read to its end.
pub proof fn lemma_stack_is_empty_between_escapes(template: Seq<u8>, st: StateView)
    ensures
        initial_state(template).stack.len() == 0,
        after_statement(st) matches Ok(next) ==> next.stack.len() == 0,
        after_expression(st) matches Ok(next) ==> next.stack.len() == 0,
{
}

/// The state in which the scan that goes on from `st` stands when its cursor
/// is at `at`, outside any escape; `None` if it never stands there.
pub open spec fn state_at(st: StateView, at: int) -> Option<StateView>
    decreases st.source.len() - st.cursor,
{
    if st.cursor == at {
        Some(st)
    } else if st.cursor < 0 || st.cursor >= st.source.len() || st.cursor > at {
        None
    } else {
        match step(st) {
            Err(_) => None,
            Ok(next) => {
                proof {
                    lemma_step_advances(st);
                }
                state_at(next, at)
            },
        }
    }
}

/// A scan that starts with nothing open has nothing open wherever it stands
/// outside an escape.
pub proof fn lemma_stack_is_empty_outside_escapes(st: StateView, at: int)
    requires
        st.stack.len() == 0,
    ensures
        state_at(st, at) matches Some(mid) ==> mid.stack.len() == 0,
    decreases st.source.len() - st.cursor,
{
    if st.cursor != at && 0 <= st.cursor < st.source.len() && st.cursor < at {
        if let Ok(next) = step(st) {
            lemma_step_advances(st);
            lemma_stack_is_empty_outside_escapes(next, at);
        }
    }
}

/// What a scan emits in the end is what it emits from any state that it
/// passes through.
pub proof fn lemma_run_goes_through(st: StateView, at: int)
    ensures
        state_at(st, at) matches Some(mid) ==> run(st) == run(mid) && mid.cursor == at
            && mid.source == st.source,
    decreases st.source.len() - st.cursor,
{
    if st.cursor != at && 0 <= st.cursor < st.source.len() && st.cursor < at {
        if let Ok(next) = step(st) {
            lemma_step_advances(st);
            lemma_run_goes_through(next, at);
        }
    }
}

/// The scan of a template stands outside any escape at every position before
/// which there is no `[` and no `{`.
pub proof fn lemma_plain_prefix_is_outside_escapes(st: StateView, at: int)
    requires
        0 <= st.cursor <= at <= st.source.len(),
        forall|i: int| st.cursor <= i < at ==> !starts_escape(st.source[i]),
    ensures
        state_at(st, at) is Some,
    decreases at - st.cursor,
{
    if st.cursor < at {
        lemma_step_advances(st);
        lemma_plain_prefix_is_outside_escapes(step(st).unwrap(), at);
    }
}

/// How many opening delimiters there are in `s` from `from` up to `to`.
pub open spec fn count_openers(s: Seq<u8>, from: int, to: int) -> int
    decreases to - from,
{
    if to <= from {
        0
    } else {
        count_openers(s, from, to - 1) + if opened_by(s[to - 1]) is Some {
            1int
        } else {
            0int
        }
    }
}

/// How many closing delimiters there are in `s` from `from` up to `to`.
pub open spec fn count_closers(s: Seq<u8>, from: int, to: int) -> int
    decreases to - from,
{
    if to <= from {
        0
    } else {
        count_closers(s, from, to - 1) + if closed_by(s[to - 1]) is Some {
            1int
        } else {
            0int
        }
    }
}

/// Whether the delimiter that was open before `from` stays open to the end:
/// at no point after `from` have more delimiters been closed than opened.
pub open spec fn never_closed(s: Seq<u8>, from: int) -> bool {
    forall|to: int| from <= to <= s.len() ==> count_closers(s, from, to) <= count_openers(s, from, to)
}

/// Whether `s` holds no quote from `from` on.
pub open spec fn no_quote_from(s: Seq<u8>, from: int) -> bool {
    forall|i: int| from <= i < s.len() ==> s[i] != SINGLE_QUOTE && s[i] != DOUBLE_QUOTE
}

/// Whether `s` holds no `{` from `from` on.
pub open spec fn no_open_brace_from(s: Seq<u8>, from: int) -> bool {
    forall|i: int| from <= i < s.len() ==> s[i] != OPEN_BRACE
}

proof fn lemma_scan_stays_open(
    s: Seq<u8>,
    from: int,
    pos: int,
    stack: Seq<ParenKind>,
    allow_unbalanced_brace: bool,
)
    requires
        0 <= from <= pos <= s.len(),
        no_quote_from(s, from),
        never_closed(s, from),
        stack.len() >= 1 + count_openers(s, from, pos) - count_closers(s, from, pos),
        allow_unbalanced_brace ==> no_open_brace_from(s, from),
        allow_unbalanced_brace ==> forall|i: int| 1 <= i < stack.len() ==> stack[i] != ParenKind::Brace,
    ensures
        escape_end(s, pos, stack, allow_unbalanced_brace) == Err::<int, TemplateError>(
            TemplateError::UnterminatedParen,
        ) || escape_end(s, pos, stack, allow_unbalanced_brace) == Err::<int, TemplateError>(
            TemplateError::UnbalancedParen,
        ),
    decreases s.len() - pos,
{
    if pos < s.len() {
        if let Some(next) = stack_after(stack, s[pos], allow_unbalanced_brace) {
            lemma_scan_stays_open(s, from, pos + 1, next, allow_unbalanced_brace);
        }
    }
}

/// An escape whose opening delimiter is never closed is refused as
/// unterminated or unbalanced.
///
/// This is said of an escape that holds no quote, so that no quoted run can
/// fail first, and, where unbalanced braces are allowed, no `{`, so that no
/// `]` can end the escape over open braces.
pub proof fn lemma_unclosed_escape_fails(
    s: Seq<u8>,
    pos: int,
    start: ParenKind,
    allow_unbalanced_brace: bool,
)
    requires
        0 <= pos <= s.len(),
        no_quote_from(s, pos),
        never_closed(s, pos),
        allow_unbalanced_brace ==> no_open_brace_from(s, pos),
    ensures
        escape_end(s, pos, seq![start], allow_unbalanced_brace) == Err::<int, TemplateError>(
            TemplateError::UnterminatedParen,
        ) || escape_end(s, pos, seq![start], allow_unbalanced_brace) == Err::<int, TemplateError>(
            TemplateError::UnbalancedParen,
        ),
{
    lemma_scan_stays_open(s, pos, pos, seq![start], allow_unbalanced_brace);
}

/// A template with an escape whose opening `[` or `{` is never closed is
/// refused as unterminated or unbalanced.
///
/// `at` is the place of the opening delimiter: the scan stands there outside
/// any escape, and the delimiter is not the first of a doubled pair. The
/// conditions on what follows it are those of
/// [`lemma_unclosed_escape_fails`].
pub proof fn lemma_template_with_unclosed_escape_is_refused(template: Seq<u8>, at: int)
    requires
        0 <= at < template.len(),
        state_at(initial_state(template), at) is Some,
        starts_escape(template[at]),
        at + 1 < template.len() ==> template[at + 1] != template[at],
        no_quote_from(template, at + 1),
        never_closed(template, at + 1),
        template[at] == OPEN_BRACKET ==> no_open_brace_from(template, at + 1),
    ensures
        compiled(template) == Err::<Seq<InstructionView>, TemplateError>(
            TemplateError::UnterminatedParen,
        ) || compiled(template) == Err::<Seq<InstructionView>, TemplateError>(
            TemplateError::UnbalancedParen,
        ),
{
    lemma_run_goes_through(initial_state(template), at);
    if template[at] == OPEN_BRACKET {
        lemma_unclosed_escape_fails(template, at + 1, ParenKind::Bracket, true);
    } else {
        lemma_unclosed_escape_fails(template, at + 1, ParenKind::Brace, false);
    }
}

proof fn lemma_count_from_the_left(s: Seq<u8>, from: int, to: int)
    requires
        from < to,
    ensures
        count_openers(s, from, to) == count_openers(s, from + 1, to) + if opened_by(s[from])
            is Some {
            1int
        } else {
            0int
        },
        count_closers(s, from, to) == count_closers(s, from + 1, to) + if closed_by(s[from])
            is Some {
            1int
        } else {
            0int
        },
    decreases to - from,
{
    reveal_with_fuel(count_openers, 2);
    reveal_with_fuel(count_closers, 2);
    if from + 1 < to {
        lemma_count_from_the_left(s, from, to - 1);
    }
}

proof fn lemma_scan_balances(
    s: Seq<u8>,
    pos: int,
    stack: Seq<ParenKind>,
    allow_unbalanced_brace: bool,
    end: int,
)
    requires
        0 <= pos <= s.len(),
        escape_end(s, pos, stack, allow_unbalanced_brace) == Ok::<int, TemplateError>(end),
        forall|i: int| pos <= i < end ==> s[i] != SINGLE_QUOTE && s[i] != DOUBLE_QUOTE,
        allow_unbalanced_brace ==> forall|i: int|
            pos <= i < end ==> s[i] != OPEN_BRACE && s[i] != CLOSE_BRACE,
        allow_unbalanced_brace ==> forall|i: int|
            0 <= i < stack.len() ==> stack[i] != ParenKind::Brace,
    ensures
        pos <= end <= s.len(),
        count_closers(s, pos, end) == count_openers(s, pos, end) + stack.len(),
    decreases s.len() - pos,
{
    if stack.len() > 0 {
        lemma_escape_end_bounds(s, pos, stack, allow_unbalanced_brace);
        let next = stack_after(stack, s[pos], allow_unbalanced_brace).unwrap();
        lemma_scan_balances(s, pos + 1, next, allow_unbalanced_brace, end);
        lemma_count_from_the_left(s, pos, end);
    }
}

/// In an escape that is read to its end, as many delimiters are closed as are
/// opened, and one more: the one that closes the escape.
///
/// This is said of an escape that holds no quote, since delimiters in a
/// quoted run do not count, and, where unbalanced braces are allowed, no
/// brace.
pub proof fn lemma_closed_escape_is_balanced(
    s: Seq<u8>,
    pos: int,
    start: ParenKind,
    allow_unbalanced_brace: bool,
    end: int,
)
    requires
        0 <= pos <= s.len(),
        escape_end(s, pos, seq![start], allow_unbalanced_brace) == Ok::<int, TemplateError>(end),
        forall|i: int| pos <= i < end ==> s[i] != SINGLE_QUOTE && s[i] != DOUBLE_QUOTE,
        allow_unbalanced_brace ==> start != ParenKind::Brace && forall|i: int|
            pos <= i < end ==> s[i] != OPEN_BRACE && s[i] != CLOSE_BRACE,
    ensures
        pos < end <= s.len(),
        count_closers(s, pos, end) == count_openers(s, pos, end) + 1,
{
    lemma_scan_balances(s, pos, seq![start], allow_unbalanced_brace, end);
}

/// Trimming the end of a text takes off whitespace and nothing else, and all
/// of it: what is left is the start of the text, does not end in whitespace,
/// and everything after it was whitespace.
pub proof fn lemma_trim_end_takes_whitespace_off(text: Seq<u8>)
    ensures
        trim_end(text).len() <= text.len(),
        trim_end(text) == text.subrange(0, trim_end(text).len() as int),
        trim_end(text).len() > 0 ==> !is_whitespace(trim_end(text).last()),
        forall|i: int| trim_end(text).len() <= i < text.len() ==> is_whitespace(text[i]),
    decreases text.len(),
{
    if text.len() > 0 && is_whitespace(text.last()) {
        let shorter = text.drop_last();
        lemma_trim_end_takes_whitespace_off(shorter);
        assert forall|i: int| trim_end(text).len() <= i < text.len() implies is_whitespace(
            text[i],
        ) by {
            if i < shorter.len() {
                assert(shorter[i] == text[i]);
            }
        }
    }
}

/// Where the run of whitespace that starts at `pos` ends.
pub open spec fn whitespace_end(s: Seq<u8>, pos: int) -> int
    decreases s.len() - pos,
{
    if 0 <= pos < s.len() && is_whitespace(s[pos]) {
        whitespace_end(s, pos + 1)
    } else {
        pos
    }
}

/// While the start of a literal run is being trimmed, the whitespace at the
/// cursor is passed over and leaves no trace.
pub proof fn lemma_trimmed_run_drops_whitespace(st: StateView)
    requires
        st.trim_start,
        0 <= st.cursor <= st.source.len(),
    ensures
        run(st) == run(StateView { cursor: whitespace_end(st.source, st.cursor), ..st }),
    decreases st.source.len() - st.cursor,
{
    if st.cursor < st.source.len() && is_whitespace(st.source[st.cursor]) {
        let next = StateView { cursor: st.cursor + 1, ..st };
        lemma_trimmed_run_drops_whitespace(next);
    }
}

/// A quoted run without a backslash ends just after the first `ender`.
pub proof fn lemma_quoted_run_without_backslash(s: Seq<u8>, pos: int, ender: u8, first: int)
    requires
        0 <= pos <= first < s.len(),
        s[first] == ender,
        ender != BACKSLASH,
        forall|j: int| pos <= j < first ==> s[j] != ender && s[j] != BACKSLASH,
    ensures
        quoted_end(s, pos, ender) == Some(first + 1),
    decreases first - pos,
{
    if pos < first {
        lemma_quoted_run_without_backslash(s, pos + 1, ender, first);
    }
}

/// Whether `b` is a byte that an escape scan takes for more than text: a
/// delimiter or a quote.
pub open spec fn is_delimiter_or_quote(b: u8) -> bool {
    opened_by(b) is Some || closed_by(b) is Some || b == SINGLE_QUOTE || b == DOUBLE_QUOTE
}

/// An escape with no delimiter and no quote inside ends just after the first
/// closing delimiter of its own kind.
pub proof fn lemma_flat_escape_ends_at_its_closer(
    s: Seq<u8>,
    pos: int,
    start: ParenKind,
    allow_unbalanced_brace: bool,
    close: int,
)
    requires
        0 <= pos <= close < s.len(),
        closed_by(s[close]) == Some(start),
        forall|j: int| pos <= j < close ==> !is_delimiter_or_quote(s[j]),
        !(allow_unbalanced_brace && start == ParenKind::Brace),
    ensures
        escape_end(s, pos, seq![start], allow_unbalanced_brace) == Ok::<int, TemplateError>(
            close + 1,
        ),
    decreases close - pos,
{
    if pos < close {
        lemma_flat_escape_ends_at_its_closer(s, pos + 1, start, allow_unbalanced_brace, close);
    } else {
        assert(seq![start].drop_last() =~= Seq::<ParenKind>::empty());
        assert(escape_end(s, close + 1, Seq::<ParenKind>::empty(), allow_unbalanced_brace)
            == Ok::<int, TemplateError>(close + 1));
    }
}

/// Whether no `EmitLiteral` among `instructions` is empty.
pub open spec fn no_empty_literal(instructions: Seq<InstructionView>) -> bool {
    forall|i: int|
        0 <= i < instructions.len() ==> match #[trigger] instructions[i] {
            InstructionView::EmitLiteral(text) => text.len() > 0,
            _ => true,
        }
}

proof fn lemma_run_emits_no_empty_literal(st: StateView)
    requires
        no_empty_literal(st.instructions),
    ensures
        run(st) matches Ok(instructions) ==> no_empty_literal(instructions),
    decreases st.source.len() - st.cursor,
{
    if 0 <= st.cursor < st.source.len() {
        lemma_step_advances(st);
        if let Ok(next) = step(st) {
            lemma_run_emits_no_empty_literal(next);
        }
    }
}

/// No template compiles to an empty literal: literal text that is empty is
/// not emitted. Code is emitted for every escape, also where it is empty.
pub proof fn lemma_compiled_has_no_empty_literal(template: Seq<u8>)
    ensures
        compiled(template) matches Ok(instructions) ==> no_empty_literal(instructions),
{
    lemma_run_emits_no_empty_literal(initial_state(template));
}

} // verus!
