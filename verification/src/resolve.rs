//! The call that holds a template: which buffer its output goes to, and the
//! whole way from the call to the code that stands for it.

use crate::instruction::TemplateError;
use crate::model::compiled;
use crate::render::{is_rendering, render};
use crate::state::compile;
use crate::text::lemma_text_compiles_to_text;
use vstd::prelude::*;
use vstd::string::StringExecFns;
use vstd::utf8::{encode_utf8, encode_utf8_valid_utf8};

verus! {

/// One token of the call, as far as its shape matters.
#[derive(Debug, PartialEq, Eq)]
pub enum Token {
    /// A string literal, with the string that it stands for.
    Str(String),
    /// An identifier.
    Ident(String),
    /// `*`.
    Star,
    /// `+`.
    Plus,
    /// `=`.
    Eq,
    /// Any other token.
    Other,
}

/// A [`Token`] as a mathematical value.
pub enum TokenView {
    Str(Seq<char>),
    Ident(Seq<char>),
    Star,
    Plus,
    Eq,
    Other,
}

impl View for Token {
    type V = TokenView;

    open spec fn view(&self) -> TokenView {
        match self {
            Token::Str(s) => TokenView::Str(s@),
            Token::Ident(name) => TokenView::Ident(name@),
            Token::Star => TokenView::Star,
            Token::Plus => TokenView::Plus,
            Token::Eq => TokenView::Eq,
            Token::Other => TokenView::Other,
        }
    }
}

impl DeepView for Token {
    type V = TokenView;

    open spec fn deep_view(&self) -> TokenView {
        self@
    }
}

/// What a call says: the template, and how the code reaches the buffer.
#[derive(Debug, PartialEq, Eq)]
pub struct Invocation {
    /// Code that goes before the statements: it declares the buffer where the
    /// call names none.
    pub prefix: String,
    /// The expression by which the statements reach the buffer.
    pub dst: String,
    /// The template.
    pub template: String,
    /// Code that goes after the statements: it hands the buffer back where
    /// the call names none.
    pub suffix: String,
}

/// An [`Invocation`] as a mathematical value.
pub struct InvocationView {
    pub prefix: Seq<char>,
    pub dst: Seq<char>,
    pub template: Seq<char>,
    pub suffix: Seq<char>,
}

impl View for Invocation {
    type V = InvocationView;

    open spec fn view(&self) -> InvocationView {
        InvocationView {
            prefix: self.prefix@,
            dst: self.dst@,
            template: self.template@,
            suffix: self.suffix@,
        }
    }
}

/// What a call of the shape `"…"` says: the code declares a buffer of its
/// own, appends to it and hands it back.
pub open spec fn into_new_buffer(template: Seq<char>) -> InvocationView {
    InvocationView {
        prefix: "let mut __utemplate_macro_dst = ::std::string::String::new();\n"@,
        dst: "(&mut __utemplate_macro_dst)"@,
        template,
        suffix: "__utemplate_macro_dst"@,
    }
}

/// What a call of the shape `*name += "…"` says: `name` is a reference to the
/// buffer.
pub open spec fn through_reference(name: Seq<char>, template: Seq<char>) -> InvocationView {
    InvocationView { prefix: Seq::empty(), dst: name, template, suffix: Seq::empty() }
}

/// What a call of the shape `name += "…"` says: `name` is the buffer.
pub open spec fn into_buffer(name: Seq<char>, template: Seq<char>) -> InvocationView {
    InvocationView {
        prefix: Seq::empty(),
        dst: "(&mut "@ + name + ")"@,
        template,
        suffix: Seq::empty(),
    }
}

/// What the call made of `tokens` says, or `None` where it has none of the
/// three shapes.
pub open spec fn resolved(tokens: Seq<TokenView>) -> Option<InvocationView> {
    if tokens.len() == 1 {
        match tokens[0] {
            TokenView::Str(template) => Some(into_new_buffer(template)),
            _ => None,
        }
    } else if tokens.len() == 5 {
        match (tokens[0], tokens[1], tokens[2], tokens[3], tokens[4]) {
            (
                TokenView::Star,
                TokenView::Ident(name),
                TokenView::Plus,
                TokenView::Eq,
                TokenView::Str(template),
            ) => Some(through_reference(name, template)),
            _ => None,
        }
    } else if tokens.len() == 4 {
        match (tokens[0], tokens[1], tokens[2], tokens[3]) {
            (
                TokenView::Ident(name),
                TokenView::Plus,
                TokenView::Eq,
                TokenView::Str(template),
            ) => Some(into_buffer(name, template)),
            _ => None,
        }
    } else {
        None
    }
}

/// Reads the shape of a call. Fails with `BadInvocationShape` exactly if it
/// is none of `"…"`, `*name += "…"` and `name += "…"`.
pub fn resolve(tokens: &[Token]) -> (r: Result<Invocation, TemplateError>)
    ensures
        match r {
            Ok(invocation) => resolved(tokens.deep_view()) == Some(invocation@),
            Err(e) => e == TemplateError::BadInvocationShape && resolved(tokens.deep_view())
                is None,
        },
{
    if tokens.len() == 1 {
        if let Token::Str(template) = &tokens[0] {
            return Ok(
                Invocation {
                    prefix: String::from_str(
                        "let mut __utemplate_macro_dst = ::std::string::String::new();\n",
                    ),
                    dst: String::from_str("(&mut __utemplate_macro_dst)"),
                    template: template.clone(),
                    suffix: String::from_str("__utemplate_macro_dst"),
                },
            );
        }
    } else if tokens.len() == 5 {
        if let (Token::Star, Token::Ident(name), Token::Plus, Token::Eq, Token::Str(template)) = (
            &tokens[0],
            &tokens[1],
            &tokens[2],
            &tokens[3],
            &tokens[4],
        ) {
            return Ok(
                Invocation {
                    prefix: String::new(),
                    dst: name.clone(),
                    template: template.clone(),
                    suffix: String::new(),
                },
            );
        }
    } else if tokens.len() == 4 {
        if let (Token::Ident(name), Token::Plus, Token::Eq, Token::Str(template)) = (
            &tokens[0],
            &tokens[1],
            &tokens[2],
            &tokens[3],
        ) {
            let mut dst = String::from_str("(&mut ");
            dst.append(name.as_str());
            dst.append(")");
            return Ok(
                Invocation {
                    prefix: String::new(),
                    dst,
                    template: template.clone(),
                    suffix: String::new(),
                },
            );
        }
    }
    Err(TemplateError::BadInvocationShape)
}

/// Turns a call into the code that stands for it: reads its shape, compiles
/// the template and writes the instructions out.
///
/// The first failure is returned: `BadInvocationShape` from the shape, or the
/// error of the scan from the template. The writing out cannot fail: the
/// template is a string, so what is compiled from it is text.
pub fn template_impl(tokens: &[Token]) -> (r: Result<String, TemplateError>)
    ensures
        match resolved(tokens.deep_view()) {
            None => r == Err::<String, TemplateError>(TemplateError::BadInvocationShape),
            Some(invocation) => match compiled(encode_utf8(invocation.template)) {
                Err(e) => r == Err::<String, TemplateError>(e),
                Ok(instructions) => r matches Ok(code) && is_rendering(
                    code@,
                    instructions,
                    invocation.dst,
                    invocation.prefix,
                    invocation.suffix,
                ),
            },
        },
{
    let invocation = match resolve(tokens) {
        Ok(invocation) => invocation,
        Err(e) => {
            return Err(e);
        },
    };
    proof {
        encode_utf8_valid_utf8(invocation.template@);
        lemma_text_compiles_to_text(encode_utf8(invocation.template@));
    }
    let instructions = match compile(invocation.template.as_str().as_bytes()) {
        Ok(instructions) => instructions,
        Err(e) => {
            return Err(e);
        },
    };
    render(
        instructions.as_slice(),
        invocation.dst.as_str(),
        invocation.prefix.as_str(),
        invocation.suffix.as_str(),
    )
}

} // verus!
