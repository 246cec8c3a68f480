//! The scanner that turns a template into instructions.

use crate::bytes::{
    is_ascii_whitespace, BACKSLASH, CLOSE_BRACE, CLOSE_BRACKET, CLOSE_PAREN, DOUBLE_QUOTE,
    OPEN_BRACE, OPEN_BRACKET, OPEN_PAREN, SINGLE_QUOTE, TRIM_MARKER,
};
use crate::instruction::{Instruction, InstructionView, TemplateError};
use crate::model::{
    after_expression, after_statement, compiled, escape_end, flushed_state, initial_state,
    lemma_escape_end_bounds, lemma_quoted_end_bounds, lemma_step_advances, quoted_end, run,
    scanned, step, trim_end, trimmed_state, without_markers, StateView,
};
use crate::paren::{bracket_under_braces, brace_counts_as_text, ParenKind};
use vstd::prelude::*;
use vstd::slice::slice_to_vec;

verus! {

/// A scan of one template in progress.
pub struct State<'a> {
    strb: &'a [u8],
    instructions: Vec<Instruction>,
    current_literal: Vec<u8>,
    trim_literal_start: bool,
    i: usize,
    paren_stack: Vec<ParenKind>,
}

impl<'a> View for State<'a> {
    type V = StateView;

    closed spec fn view(&self) -> StateView {
        StateView {
            source: self.strb@,
            cursor: self.i as int,
            pending: self.current_literal@,
            trim_start: self.trim_literal_start,
            stack: self.paren_stack@,
            instructions: self.instructions.deep_view(),
        }
    }
}

impl<'a> State<'a> {
    /// Starts a scan of `strb`: nothing read, nothing pending, nothing open,
    /// nothing emitted.
    pub fn new(strb: &'a [u8]) -> (state: State<'a>)
        ensures
            state@ == initial_state(strb@),
    {
        let state = State {
            strb,
            instructions: Vec::new(),
            current_literal: Vec::new(),
            trim_literal_start: false,
            i: 0,
            paren_stack: Vec::new(),
        };
        assert(state.instructions.deep_view() =~= Seq::empty());
        state
    }

    /// Emits the pending literal text as one `EmitLiteral`, unless there is
    /// none.
    pub fn flush_literal(&mut self)
        ensures
            final(self)@ == flushed_state(old(self)@),
    {
        if self.current_literal.len() > 0 {
            let ghost before = self.instructions.deep_view();
            let mut text: Vec<u8> = Vec::new();
            std::mem::swap(&mut text, &mut self.current_literal);
            self.instructions.push(Instruction::EmitLiteral(text));
            assert(self.instructions.deep_view() =~= before.push(
                InstructionView::EmitLiteral(text@),
            ));
        }
        assert(self.current_literal@ =~= Seq::empty());
    }

    /// Takes the whitespace off the end of the pending literal text.
    pub fn trim_literal_end(&mut self)
        ensures
            final(self)@ == (StateView { pending: trim_end(old(self)@.pending), ..old(self)@ }),
    {
        loop
            invariant
                trim_end(self.current_literal@) == trim_end(old(self).current_literal@),
                self.strb == old(self).strb,
                self.i == old(self).i,
                self.trim_literal_start == old(self).trim_literal_start,
                self.paren_stack == old(self).paren_stack,
                self.instructions == old(self).instructions,
            ensures
                self.current_literal@ == trim_end(old(self).current_literal@),
            decreases self.current_literal.len(),
        {
            let n: usize = self.current_literal.len();
            if n > 0 && is_ascii_whitespace(self.current_literal[n - 1]) {
                self.current_literal.pop();
            } else {
                break ;
            }
        }
    }

    /// Applies the trim markers of an escape with text `rs_code`, and returns
    /// the text without them.
    ///
    /// A marker at the start trims the end of the pending literal text. A
    /// marker at the end of what is left makes the next literal run lose the
    /// whitespace at its start; without one it keeps it.
    pub fn apply_trimming<'s>(&mut self, rs_code: &'s [u8]) -> (stripped: &'s [u8])
        ensures
            final(self)@ == trimmed_state(old(self)@, rs_code@),
            stripped@ == without_markers(rs_code@),
    {
        let mut rs_code: &'s [u8] = rs_code;
        self.trim_literal_start = false;
        if rs_code.len() > 0 {
            if rs_code[0] == TRIM_MARKER {
                self.trim_literal_end();
                rs_code = &rs_code[1..rs_code.len()];
            }
            if rs_code.len() > 0 && rs_code[rs_code.len() - 1] == TRIM_MARKER {
                rs_code = &rs_code[0..rs_code.len() - 1];
                self.trim_literal_start = true;
            }
        }
        rs_code
    }

    /// Reads on to the end of a quoted run whose opening quote has just been
    /// read: past the first `ender` that no backslash makes inert.
    ///
    /// Fails with `UnterminatedLiteral` exactly if the template ends first.
    /// Nothing but the cursor changes either way, and the cursor only moves
    /// forward, and not beyond the end of the template.
    pub fn scan_literal(&mut self, ender: u8) -> (r: Result<(), TemplateError>)
        ensures
            final(self)@ == (StateView { cursor: final(self)@.cursor, ..old(self)@ }),
            old(self)@.cursor <= final(self)@.cursor,
            old(self)@.cursor <= old(self)@.source.len() ==> final(self)@.cursor <= old(
                self,
            )@.source.len(),
            match r {
                Ok(()) => quoted_end(old(self)@.source, old(self)@.cursor, ender) == Some(
                    final(self)@.cursor,
                ),
                Err(e) => e == TemplateError::UnterminatedLiteral && quoted_end(
                    old(self)@.source,
                    old(self)@.cursor,
                    ender,
                ) is None,
            },
    {
        loop
            invariant
                quoted_end(self.strb@, self.i as int, ender) == quoted_end(
                    old(self).strb@,
                    old(self).i as int,
                    ender,
                ),
                old(self).i <= self.i,
                self.i == old(self).i || self.i <= self.strb@.len(),
                self.strb == old(self).strb,
                self.current_literal == old(self).current_literal,
                self.trim_literal_start == old(self).trim_literal_start,
                self.paren_stack == old(self).paren_stack,
                self.instructions == old(self).instructions,
            decreases self.strb@.len() - self.i,
        {
            if self.i >= self.strb.len() {
                return Err(TemplateError::UnterminatedLiteral);
            }
            let b: u8 = self.strb[self.i];
            self.i += 1;
            if b == BACKSLASH {
                if self.i >= self.strb.len() {
                    return Err(TemplateError::UnterminatedLiteral);
                }
                self.i += 1;
            } else if b == ender {
                return Ok(());
            }
        }
    }

    /// Takes `kind` off the top of the stack if it is there.
    fn close(&mut self, kind: ParenKind) -> (closed: bool)
        ensures
            closed == (old(self).paren_stack@.len() > 0 && old(self).paren_stack@.last() == kind),
            closed ==> final(self).paren_stack@ == old(self).paren_stack@.drop_last(),
            !closed ==> final(self).paren_stack@ == old(self).paren_stack@,
            final(self)@ == (StateView { stack: final(self).paren_stack@, ..old(self)@ }),
    {
        let n: usize = self.paren_stack.len();
        if n > 0 && self.paren_stack[n - 1] == kind {
            self.paren_stack.pop();
            true
        } else {
            false
        }
    }

    /// Reads an escape whose opening delimiter, of kind `start`, has just been
    /// read, up to and past the delimiter that closes it, and returns the text
    /// between the two.
    ///
    /// Quoted runs are passed over whole; delimiters inside the escape must
    /// balance, except that with `allow_unbalanced_brace` a `}` may close a
    /// brace that an earlier escape left open, and a `]` may end the escape
    /// over braces that it leaves open. On success the stack is empty. On
    /// failure nothing has been emitted and the pending literal is as it was.
    /// Either way the cursor has only moved forward, and not beyond the end
    /// of the template.
    pub fn scan_parens(&mut self, start: ParenKind, allow_unbalanced_brace: bool) -> (r: Result<
        &'a [u8],
        TemplateError,
    >)
        ensures
            r is Ok ==> final(self)@.stack.len() == 0,
            old(self)@.cursor <= final(self)@.cursor,
            old(self)@.cursor <= old(self)@.source.len() ==> final(self)@.cursor <= old(
                self,
            )@.source.len(),
            match r {
                Ok(code) => escape_end(
                    old(self)@.source,
                    old(self)@.cursor,
                    seq![start],
                    allow_unbalanced_brace,
                ) matches Ok(end) && (final(self)@, code@) == scanned(old(self)@, end),
                Err(e) => escape_end(
                    old(self)@.source,
                    old(self)@.cursor,
                    seq![start],
                    allow_unbalanced_brace,
                ) == Err::<int, TemplateError>(e) && final(self)@ == (StateView {
                    cursor: final(self)@.cursor,
                    stack: final(self)@.stack,
                    ..old(self)@
                }),
            },
    {
        let source: &'a [u8] = self.strb;
        let scan_start: usize = self.i;
        self.paren_stack.clear();
        self.paren_stack.push(start);
        loop
            invariant
                escape_end(source@, self.i as int, self.paren_stack@, allow_unbalanced_brace)
                    == escape_end(source@, scan_start as int, seq![start], allow_unbalanced_brace),
                source == old(self).strb,
                scan_start == old(self).i,
                scan_start <= self.i,
                self.i == scan_start || self.i <= source@.len(),
                self.strb == old(self).strb,
                self.current_literal@ == old(self).current_literal@,
                self.trim_literal_start == old(self).trim_literal_start,
                self.instructions.deep_view() == old(self).instructions.deep_view(),
            decreases source@.len() - self.i,
        {
            if self.paren_stack.len() == 0 {
                proof {
                    lemma_escape_end_bounds(
                        source@,
                        scan_start as int,
                        seq![start],
                        allow_unbalanced_brace,
                    );
                }
                assert(self.paren_stack@ =~= Seq::empty());
                return Ok(&source[scan_start..self.i - 1]);
            }
            if self.i >= source.len() {
                return Err(TemplateError::UnterminatedParen);
            }
            let b: u8 = source[self.i];
            self.i += 1;
            if b == SINGLE_QUOTE || b == DOUBLE_QUOTE {
                proof {
                    lemma_quoted_end_bounds(source@, self.i as int, b);
                }
                match self.scan_literal(b) {
                    Ok(()) => {},
                    Err(e) => {
                        return Err(e);
                    },
                }
            } else if b == OPEN_BRACKET {
                self.paren_stack.push(ParenKind::Bracket);
            } else if b == OPEN_BRACE {
                self.paren_stack.push(ParenKind::Brace);
            } else if b == OPEN_PAREN {
                self.paren_stack.push(ParenKind::Paren);
            } else if b == CLOSE_BRACE {
                if brace_counts_as_text(&self.paren_stack, allow_unbalanced_brace) {
                } else if self.close(ParenKind::Brace) {
                } else {
                    return Err(TemplateError::UnbalancedParen);
                }
            } else if b == CLOSE_PAREN {
                if self.close(ParenKind::Paren) {
                } else {
                    return Err(TemplateError::UnbalancedParen);
                }
            } else if b == CLOSE_BRACKET {
                if self.close(ParenKind::Bracket) {
                } else if allow_unbalanced_brace && bracket_under_braces(&self.paren_stack) {
                    // A statement escape may end over braces that it leaves
                    // open: a later escape closes them.
                    self.paren_stack.clear();
                } else {
                    return Err(TemplateError::UnbalancedParen);
                }
            }
        }
    }

    /// Reads a statement escape whose `[` has just been read.
    ///
    /// Its text, without the trim markers, is emitted as `EmitRawCode` after
    /// the pending literal, also where nothing is left of the text.
    pub fn parse_stmts(&mut self) -> (r: Result<(), TemplateError>)
        ensures
            r is Ok ==> final(self)@.stack.len() == 0,
            old(self)@.cursor <= final(self)@.cursor,
            old(self)@.cursor <= old(self)@.source.len() ==> final(self)@.cursor <= old(
                self,
            )@.source.len(),
            match r {
                Ok(()) => after_statement(old(self)@) == Ok::<StateView, TemplateError>(
                    final(self)@,
                ),
                Err(e) => after_statement(old(self)@) == Err::<StateView, TemplateError>(e)
                    && final(self)@ == (StateView {
                    cursor: final(self)@.cursor,
                    stack: final(self)@.stack,
                    ..old(self)@
                }),
            },
    {
        let rs_code: &'a [u8] = match self.scan_parens(ParenKind::Bracket, true) {
            Ok(code) => code,
            Err(e) => {
                return Err(e);
            },
        };
        let rs_code: &'a [u8] = self.apply_trimming(rs_code);
        self.flush_literal();
        let ghost before = self.instructions.deep_view();
        self.instructions.push(Instruction::EmitRawCode(slice_to_vec(rs_code)));
        assert(self.instructions.deep_view() =~= before.push(
            InstructionView::EmitRawCode(rs_code@),
        ));
        Ok(())
    }

    /// Reads an expression escape whose `{` has just been read.
    ///
    /// Its text, without the trim markers, is emitted as `EmitExpression`
    /// after the pending literal.
    pub fn parse_expr(&mut self) -> (r: Result<(), TemplateError>)
        ensures
            r is Ok ==> final(self)@.stack.len() == 0,
            old(self)@.cursor <= final(self)@.cursor,
            old(self)@.cursor <= old(self)@.source.len() ==> final(self)@.cursor <= old(
                self,
            )@.source.len(),
            match r {
                Ok(()) => after_expression(old(self)@) == Ok::<StateView, TemplateError>(
                    final(self)@,
                ),
                Err(e) => after_expression(old(self)@) == Err::<StateView, TemplateError>(e)
                    && final(self)@ == (StateView {
                    cursor: final(self)@.cursor,
                    stack: final(self)@.stack,
                    ..old(self)@
                }),
            },
    {
        let rs_code: &'a [u8] = match self.scan_parens(ParenKind::Brace, false) {
            Ok(code) => code,
            Err(e) => {
                return Err(e);
            },
        };
        let rs_code: &'a [u8] = self.apply_trimming(rs_code);
        self.flush_literal();
        let ghost before = self.instructions.deep_view();
        self.instructions.push(Instruction::EmitExpression(slice_to_vec(rs_code)));
        assert(self.instructions.deep_view() =~= before.push(
            InstructionView::EmitExpression(rs_code@),
        ));
        Ok(())
    }

    /// Takes one step outside any escape: reads a doubled `[` or `{`, a whole
    /// escape, or one byte of literal text. At the end of the template it
    /// does nothing.
    ///
    /// An escape that fails leaves what was emitted and what is pending as
    /// they were. The cursor only moves forward, and not beyond the end of
    /// the template.
    pub fn step(&mut self) -> (r: Result<(), TemplateError>)
        ensures
            old(self)@.cursor <= final(self)@.cursor,
            old(self)@.cursor <= old(self)@.source.len() ==> final(self)@.cursor <= old(
                self,
            )@.source.len(),
            match r {
                Ok(()) => step(old(self)@) == Ok::<StateView, TemplateError>(final(self)@),
                Err(e) => step(old(self)@) == Err::<StateView, TemplateError>(e) && final(self)@
                    == (StateView {
                    cursor: final(self)@.cursor,
                    stack: final(self)@.stack,
                    ..old(self)@
                }),
            },
    {
        if self.i >= self.strb.len() {
            return Ok(());
        }
        let b: u8 = self.strb[self.i];
        self.i += 1;
        if b == OPEN_BRACKET || b == OPEN_BRACE {
            if self.i < self.strb.len() && self.strb[self.i] == b {
                // A doubled opener stands for itself.
                self.i += 1;
                self.current_literal.push(b);
                Ok(())
            } else if b == OPEN_BRACKET {
                self.parse_stmts()
            } else {
                self.parse_expr()
            }
        } else if self.trim_literal_start && is_ascii_whitespace(b) {
            // Whitespace at the start of a trimmed run is dropped.
            Ok(())
        } else {
            self.trim_literal_start = false;
            self.current_literal.push(b);
            Ok(())
        }
    }

    /// Scans the rest of the template and returns everything emitted, or the
    /// first error. On an error nothing is returned of what was emitted.
    pub fn parse_root(self) -> (r: Result<Vec<Instruction>, TemplateError>)
        ensures
            match r {
                Ok(instructions) => run(self@) == Ok::<Seq<InstructionView>, TemplateError>(
                    instructions.deep_view(),
                ),
                Err(e) => run(self@) == Err::<Seq<InstructionView>, TemplateError>(e),
            },
    {
        let mut state = self;
        while state.i < state.strb.len()
            invariant
                run(state@) == run(self@),
            decreases state.strb@.len() - state.i,
        {
            proof {
                lemma_step_advances(state@);
            }
            match state.step() {
                Ok(()) => {},
                Err(e) => {
                    return Err(e);
                },
            }
        }
        state.flush_literal();
        Ok(state.instructions)
    }

    /// How many bytes of the template have been read.
    pub fn position(&self) -> (i: usize)
        ensures
            i == self@.cursor,
    {
        self.i
    }

    /// The literal text that has been read and not yet emitted.
    pub fn pending_literal(&self) -> (text: &[u8])
        ensures
            text@ == self@.pending,
    {
        self.current_literal.as_slice()
    }

    /// Whether the next literal run loses the whitespace at its start.
    pub fn trims_next_literal(&self) -> (trim: bool)
        ensures
            trim == self@.trim_start,
    {
        self.trim_literal_start
    }

    /// The delimiters that are open, innermost last.
    pub fn open_delimiters(&self) -> (stack: &[ParenKind])
        ensures
            stack@ == self@.stack,
    {
        self.paren_stack.as_slice()
    }

    /// What has been emitted so far.
    pub fn emitted(&self) -> (instructions: &[Instruction])
        ensures
            instructions.deep_view() == self@.instructions,
    {
        self.instructions.as_slice()
    }
}

/// Compiles `template` into the instructions that build its output, or says
/// why it is refused.
pub fn compile(template: &[u8]) -> (r: Result<Vec<Instruction>, TemplateError>)
    ensures
        match r {
            Ok(instructions) => compiled(template@) == Ok::<Seq<InstructionView>, TemplateError>(
                instructions.deep_view(),
            ),
            Err(e) => compiled(template@) == Err::<Seq<InstructionView>, TemplateError>(e),
        },
{
    State::new(template).parse_root()
}

} // verus!
