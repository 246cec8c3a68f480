//! The bytes that carry meaning in a template.

use vstd::prelude::*;

verus! {

/// `[`, which opens a statement escape.
pub const OPEN_BRACKET: u8 = 0x5b;

/// `]`.
pub const CLOSE_BRACKET: u8 = 0x5d;

/// `{`, which opens an expression escape.
pub const OPEN_BRACE: u8 = 0x7b;

/// `}`.
pub const CLOSE_BRACE: u8 = 0x7d;

/// `(`.
pub const OPEN_PAREN: u8 = 0x28;

/// `)`.
pub const CLOSE_PAREN: u8 = 0x29;

/// `'`, which opens and closes a quoted run inside an escape.
pub const SINGLE_QUOTE: u8 = 0x27;

/// `"`, which opens and closes a quoted run inside an escape.
pub const DOUBLE_QUOTE: u8 = 0x22;

/// `\`, which makes the byte after it inert inside a quoted run.
pub const BACKSLASH: u8 = 0x5c;

/// `-`, the trim marker at either end of an escape.
pub const TRIM_MARKER: u8 = 0x2d;

/// Whether `b` is ASCII whitespace: space, tab, line feed, form feed or
/// carriage return.
pub open spec fn is_whitespace(b: u8) -> bool {
    b == 0x20 || b == 0x09 || b == 0x0a || b == 0x0c || b == 0x0d
}

/// Tests a byte for ASCII whitespace.
pub fn is_ascii_whitespace(b: u8) -> (r: bool)
    ensures
        r == is_whitespace(b),
{
    b == 0x20 || b == 0x09 || b == 0x0a || b == 0x0c || b == 0x0d
}

} // verus!
