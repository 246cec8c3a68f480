//! A compiler for text templates with inline statements and expressions.
//!
//! A template is literal text with escapes in it: `{…}` holds an expression
//! whose value is written out, `[…]` holds code that is run as it is.
//! [`state::compile`] turns a template into instructions, [`render::render`]
//! writes instructions out as code, and [`resolve::template_impl`] goes the
//! whole way from a call to its code. [`TDisplay`] is what the code uses to
//! write a value out. The module [`laws`] holds what is proved of every
//! template, and [`text`] that a template which is a string compiles to
//! strings.

pub mod bytes;
pub mod display;
pub mod instruction;
pub mod laws;
pub mod model;
pub mod paren;
pub mod render;
pub mod resolve;
pub mod state;
pub mod text;

pub use display::TDisplay;
