//! What a compiled template is made of, and how compiling one can fail.

use vstd::prelude::*;
use vstd::slice::slice_to_vec;

verus! {

/// One step of building the output text.
#[derive(Debug, PartialEq, Eq)]
pub enum Instruction {
    /// Append this text as it is.
    EmitLiteral(Vec<u8>),
    /// Run this code as it is: a loop header, a condition, a closing brace.
    EmitRawCode(Vec<u8>),
    /// Evaluate this expression and append its value as text.
    EmitExpression(Vec<u8>),
}

/// An [`Instruction`] as a mathematical value.
pub enum InstructionView {
    EmitLiteral(Seq<u8>),
    EmitRawCode(Seq<u8>),
    EmitExpression(Seq<u8>),
}

impl View for Instruction {
    type V = InstructionView;

    open spec fn view(&self) -> InstructionView {
        match self {
            Instruction::EmitLiteral(text) => InstructionView::EmitLiteral(text@),
            Instruction::EmitRawCode(code) => InstructionView::EmitRawCode(code@),
            Instruction::EmitExpression(code) => InstructionView::EmitExpression(code@),
        }
    }
}

impl DeepView for Instruction {
    type V = InstructionView;

    open spec fn deep_view(&self) -> InstructionView {
        self@
    }
}

impl Clone for Instruction {
    /// A copy of the same kind with the same bytes.
    fn clone(&self) -> (copy: Instruction)
        ensures
            copy@ == self@,
    {
        match self {
            Instruction::EmitLiteral(text) => Instruction::EmitLiteral(
                slice_to_vec(text.as_slice()),
            ),
            Instruction::EmitRawCode(code) => Instruction::EmitRawCode(
                slice_to_vec(code.as_slice()),
            ),
            Instruction::EmitExpression(code) => Instruction::EmitExpression(
                slice_to_vec(code.as_slice()),
            ),
        }
    }
}

/// Why a template, or the call that holds it, was refused.
#[derive(Clone, Copy, Debug, PartialEq, Eq, Structural)]
pub enum TemplateError {
    /// A quoted run inside an escape has no closing quote.
    UnterminatedLiteral,
    /// The template ends inside an escape.
    UnterminatedParen,
    /// A closing delimiter inside an escape does not match what is open.
    UnbalancedParen,
    /// The call is none of `"…"`, `name += "…"` and `*name += "…"`.
    BadInvocationShape,
    /// A run of literal text or of code is not UTF-8, so it cannot be written
    /// out as text. This never happens to a template that was a string.
    InvalidText,
}

impl TemplateError {
    /// The error in words.
    pub open spec fn message_text(self) -> Seq<char> {
        match self {
            TemplateError::UnterminatedLiteral => "unterminated literal"@,
            TemplateError::UnterminatedParen => "unterminated paren"@,
            TemplateError::UnbalancedParen => "unbalanced paren"@,
            TemplateError::BadInvocationShape => "bad template format"@,
            TemplateError::InvalidText => "template text is not UTF-8"@,
        }
    }

    /// The error in words, for a diagnostic.
    pub fn message(&self) -> (text: &'static str)
        ensures
            text@ == self.message_text(),
    {
        match self {
            TemplateError::UnterminatedLiteral => "unterminated literal",
            TemplateError::UnterminatedParen => "unterminated paren",
            TemplateError::UnbalancedParen => "unbalanced paren",
            TemplateError::BadInvocationShape => "bad template format",
            TemplateError::InvalidText => "template text is not UTF-8",
        }
    }
}

} // verus!
