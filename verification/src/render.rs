//! Writing instructions out as the code that runs them.
//!
//! This goes in two steps. [`pieces_of`] turns each instruction into text: it
//! decodes the bytes and has each literal written as a string literal of the
//! host language. [`assemble`] joins the pieces into one block of code.

use crate::instruction::{Instruction, InstructionView, TemplateError};
use vstd::prelude::*;
use vstd::string::{StringExecFns, StringSliceAdditionalSpecFns};
use vstd::utf8::{decode_utf8, encode_utf8_decode_utf8, valid_utf8};

verus! {

/// An instruction as the text that goes into the code.
#[derive(Debug, PartialEq, Eq)]
pub enum Piece {
    /// A literal, written as a string literal of the host language.
    Literal(String),
    /// Code that is run as it is.
    RawCode(String),
    /// An expression whose value is appended.
    Expression(String),
}

/// A [`Piece`] as a mathematical value.
pub enum PieceView {
    Literal(Seq<char>),
    RawCode(Seq<char>),
    Expression(Seq<char>),
}

impl View for Piece {
    type V = PieceView;

    open spec fn view(&self) -> PieceView {
        match self {
            Piece::Literal(quoted) => PieceView::Literal(quoted@),
            Piece::RawCode(code) => PieceView::RawCode(code@),
            Piece::Expression(code) => PieceView::Expression(code@),
        }
    }
}

impl DeepView for Piece {
    type V = PieceView;

    open spec fn deep_view(&self) -> PieceView {
        self@
    }
}

/// The bytes that an instruction carries.
pub open spec fn payload(instruction: InstructionView) -> Seq<u8> {
    match instruction {
        InstructionView::EmitLiteral(text) => text,
        InstructionView::EmitRawCode(code) => code,
        InstructionView::EmitExpression(code) => code,
    }
}

/// Whether every instruction carries UTF-8.
pub open spec fn all_text(instructions: Seq<InstructionView>) -> bool {
    forall|i: int| 0 <= i < instructions.len() ==> valid_utf8(payload(#[trigger] instructions[i]))
}

/// Whether `piece` is `instruction` as text: of the same kind, and with the
/// same code. Of a literal's text nothing is said here: the host language can
/// write one string in several ways.
pub open spec fn piece_matches(instruction: InstructionView, piece: PieceView) -> bool {
    match instruction {
        InstructionView::EmitLiteral(_) => piece is Literal,
        InstructionView::EmitRawCode(code) => piece == PieceView::RawCode(decode_utf8(code)),
        InstructionView::EmitExpression(code) => piece == PieceView::Expression(decode_utf8(code)),
    }
}

/// Whether `pieces` are `instructions` as text, one for one.
pub open spec fn pieces_match(instructions: Seq<InstructionView>, pieces: Seq<PieceView>) -> bool {
    &&& pieces.len() == instructions.len()
    &&& forall|i: int|
        0 <= i < instructions.len() ==> piece_matches(#[trigger] instructions[i], pieces[i])
}

/// The statement that runs one piece, appending to `dst`.
pub open spec fn statement(piece: PieceView, dst: Seq<char>) -> Seq<char> {
    match piece {
        PieceView::Literal(quoted) => dst + ".push_str("@ + quoted + ");\n"@,
        PieceView::RawCode(code) => code,
        PieceView::Expression(code) => "::utemplate::TDisplay::tdisplay_to("@ + code + ", "@ + dst
            + ");\n"@,
    }
}

/// The statements that run `pieces` in order.
pub open spec fn statements(pieces: Seq<PieceView>, dst: Seq<char>) -> Seq<char>
    decreases pieces.len(),
{
    if pieces.len() == 0 {
        Seq::empty()
    } else {
        statements(pieces.drop_last(), dst) + statement(pieces.last(), dst)
    }
}

/// The block of code that runs `pieces`: `prefix`, the statements, `suffix`,
/// in braces.
pub open spec fn assembled(
    pieces: Seq<PieceView>,
    dst: Seq<char>,
    prefix: Seq<char>,
    suffix: Seq<char>,
) -> Seq<char> {
    "{\n"@ + prefix + statements(pieces, dst) + suffix + "}\n"@
}

/// Whether `code` is a block of code that runs `instructions`: that of
/// [`assembled`] over pieces that match the instructions one for one.
pub open spec fn is_rendering(
    code: Seq<char>,
    instructions: Seq<InstructionView>,
    dst: Seq<char>,
    prefix: Seq<char>,
    suffix: Seq<char>,
) -> bool {
    exists|pieces: Seq<PieceView>|
        pieces_match(instructions, pieces) && code == #[trigger] assembled(
            pieces,
            dst,
            prefix,
            suffix,
        )
}

/// `std::str::from_utf8`: the bytes as a string, where they are UTF-8, and
/// `None` where they are not.
#[verifier::external_body]
fn utf8_text(bytes: &[u8]) -> (text: Option<&str>)
    ensures
        text is Some <==> valid_utf8(bytes@),
        text matches Some(s) ==> s.spec_bytes() == bytes@,
{
    std::str::from_utf8(bytes).ok()
}

/// The `ToTokens` impl of the quote crate for `str`, printed: a string literal
/// of the host language that stands for `text`. Which of the ways to write
/// it comes back is up to the compiler where this runs inside a macro
/// expansion, so nothing is promised of it here.
#[verifier::external_body]
fn string_literal(text: &str) -> (quoted: String) {
    quote::ToTokens::to_token_stream(text).to_string()
}

/// Turns one instruction into text. `None` where its bytes are not UTF-8.
pub fn piece_of(instruction: &Instruction) -> (r: Option<Piece>)
    ensures
        r is Some <==> valid_utf8(payload(instruction@)),
        r matches Some(piece) ==> piece_matches(instruction@, piece@),
{
    match instruction {
        Instruction::EmitLiteral(text) => match utf8_text(text.as_slice()) {
            Some(s) => Some(Piece::Literal(string_literal(s))),
            None => None,
        },
        Instruction::EmitRawCode(code) => match utf8_text(code.as_slice()) {
            Some(s) => {
                proof {
                    encode_utf8_decode_utf8(s@);
                }
                Some(Piece::RawCode(String::from_str(s)))
            },
            None => None,
        },
        Instruction::EmitExpression(code) => match utf8_text(code.as_slice()) {
            Some(s) => {
                proof {
                    encode_utf8_decode_utf8(s@);
                }
                Some(Piece::Expression(String::from_str(s)))
            },
            None => None,
        },
    }
}

/// Turns instructions into text, one piece for each. Fails with
/// `InvalidText` exactly if the bytes of one of them are not UTF-8.
pub fn pieces_of(instructions: &[Instruction]) -> (r: Result<Vec<Piece>, TemplateError>)
    ensures
        match r {
            Ok(pieces) => all_text(instructions.deep_view()) && pieces_match(
                instructions.deep_view(),
                pieces.deep_view(),
            ),
            Err(e) => e == TemplateError::InvalidText && !all_text(instructions.deep_view()),
        },
{
    let mut pieces: Vec<Piece> = Vec::new();
    let mut k: usize = 0;
    while k < instructions.len()
        invariant
            k <= instructions.len(),
            pieces.len() == k,
            forall|i: int|
                0 <= i < k ==> valid_utf8(payload(#[trigger] instructions.deep_view()[i])),
            forall|i: int|
                0 <= i < k ==> piece_matches(
                    #[trigger] instructions.deep_view()[i],
                    pieces.deep_view()[i],
                ),
        decreases instructions.len() - k,
    {
        match piece_of(&instructions[k]) {
            Some(piece) => {
                pieces.push(piece);
            },
            None => {
                assert(!valid_utf8(payload(instructions.deep_view()[k as int])));
                return Err(TemplateError::InvalidText);
            },
        }
        k += 1;
    }
    Ok(pieces)
}

/// Appends to `code` the statement that runs `piece`.
fn push_statement(code: &mut String, piece: &Piece, dst: &str)
    ensures
        final(code)@ == old(code)@ + statement(piece@, dst@),
{
    match piece {
        Piece::Literal(quoted) => {
            code.append(dst);
            code.append(".push_str(");
            code.append(quoted.as_str());
            code.append(");\n");
        },
        Piece::RawCode(raw) => {
            code.append(raw.as_str());
        },
        Piece::Expression(expression) => {
            code.append("::utemplate::TDisplay::tdisplay_to(");
            code.append(expression.as_str());
            code.append(", ");
            code.append(dst);
            code.append(");\n");
        },
    }
}

/// Joins `pieces` into one block of code that appends to `dst`: an opening
/// brace, `prefix`, one statement for each piece, `suffix`, a closing brace.
pub fn assemble(pieces: &[Piece], dst: &str, prefix: &str, suffix: &str) -> (code: String)
    ensures
        code@ == assembled(pieces.deep_view(), dst@, prefix@, suffix@),
{
    let mut code = String::new();
    code.append("{\n");
    code.append(prefix);
    let ghost head = code@;
    let mut k: usize = 0;
    while k < pieces.len()
        invariant
            k <= pieces.len(),
            code@ == head + statements(pieces.deep_view().subrange(0, k as int), dst@),
        decreases pieces.len() - k,
    {
        push_statement(&mut code, &pieces[k], dst);
        assert(pieces.deep_view().subrange(0, k as int + 1).drop_last()
            =~= pieces.deep_view().subrange(0, k as int));
        k += 1;
    }
    assert(pieces.deep_view().subrange(0, k as int) =~= pieces.deep_view());
    code.append(suffix);
    code.append("}\n");
    code
}

/// Writes `instructions` out as one block of code that appends to `dst`.
///
/// Fails with `InvalidText` exactly if the bytes of an instruction are not
/// UTF-8. Otherwise the code is that of [`assemble`] over pieces that match
/// the instructions one for one.
pub fn render(instructions: &[Instruction], dst: &str, prefix: &str, suffix: &str) -> (r: Result<
    String,
    TemplateError,
>)
    ensures
        match r {
            Ok(code) => all_text(instructions.deep_view()) && is_rendering(
                code@,
                instructions.deep_view(),
                dst@,
                prefix@,
                suffix@,
            ),
            Err(e) => e == TemplateError::InvalidText && !all_text(instructions.deep_view()),
        },
{
    match pieces_of(instructions) {
        Ok(pieces) => Ok(assemble(pieces.as_slice(), dst, prefix, suffix)),
        Err(e) => Err(e),
    }
}

} // verus!
