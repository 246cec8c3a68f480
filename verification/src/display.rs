//! Writing values out as text.

use vstd::prelude::*;
use vstd::string::StringExecFns;

verus! {

/// The character that stands for the digit `d`.
pub open spec fn digit(d: int) -> char {
    seq!['0', '1', '2', '3', '4', '5', '6', '7', '8', '9'][d]
}

/// The digits of `n` in base ten, without leading zeros; `0` for zero.
pub open spec fn decimal_digits(n: nat) -> Seq<char>
    decreases n,
{
    if n < 10 {
        seq![digit(n as int)]
    } else {
        decimal_digits(n / 10).push(digit((n % 10) as int))
    }
}

/// `v` in base ten, with `-` before the digits of a negative number.
pub open spec fn decimal(v: int) -> Seq<char> {
    if v < 0 {
        seq!['-'] + decimal_digits((-v) as nat)
    } else {
        decimal_digits(v as nat)
    }
}

/// `itoa::Buffer::format` on an `i128`: the number in base ten, as
/// [`decimal`] writes it. The itoa crate promises a decimal string; its
/// source writes the digits of the absolute value and a `-` before them for a
/// negative number.
#[verifier::external_body]
fn format_signed(value: i128) -> (text: String)
    ensures
        text@ == decimal(value as int),
{
    itoa::Buffer::new().format(value).to_string()
}

/// `itoa::Buffer::format` on a `u128`: the number in base ten, as
/// [`decimal`] writes it.
#[verifier::external_body]
fn format_unsigned(value: u128) -> (text: String)
    ensures
        text@ == decimal(value as int),
{
    itoa::Buffer::new().format(value).to_string()
}

/// Appends a signed integer in base ten.
fn signed_display_to(value: i128, dst: &mut String)
    ensures
        final(dst)@ == old(dst)@ + decimal(value as int),
{
    let text = format_signed(value);
    dst.append(text.as_str());
}

/// Appends an unsigned integer in base ten.
fn unsigned_display_to(value: u128, dst: &mut String)
    ensures
        final(dst)@ == old(dst)@ + decimal(value as int),
{
    let text = format_unsigned(value);
    dst.append(text.as_str());
}

/// A value that can be appended to a text. This is what an expression escape
/// of a template is given to.
///
/// The library implements it for `&str` and for the integer types and
/// references to them; each of those impls says which text it appends. An
/// impl for another type says for itself what it appends.
pub trait TDisplay {
    /// Appends the value's text to `dst`.
    fn tdisplay_to(self, dst: &mut String);
}

impl<'a> TDisplay for &'a str {
    /// Appends the string as it is.
    fn tdisplay_to(self, dst: &mut String)
        ensures
            final(dst)@ == old(dst)@ + self@,
    {
        dst.append(self);
    }
}

impl TDisplay for u8 {
    /// Appends the number in base ten.
    fn tdisplay_to(self, dst: &mut String)
        ensures
            final(dst)@ == old(dst)@ + decimal(self as int),
    {
        unsigned_display_to(self as u128, dst);
    }
}

impl<'a> TDisplay for &'a u8 {
    /// Appends the number in base ten.
    fn tdisplay_to(self, dst: &mut String)
        ensures
            final(dst)@ == old(dst)@ + decimal(*self as int),
    {
        unsigned_display_to(*self as u128, dst);
    }
}

impl TDisplay for u16 {
    /// Appends the number in base ten.
    fn tdisplay_to(self, dst: &mut String)
        ensures
            final(dst)@ == old(dst)@ + decimal(self as int),
    {
        unsigned_display_to(self as u128, dst);
    }
}

impl<'a> TDisplay for &'a u16 {
    /// Appends the number in base ten.
    fn tdisplay_to(self, dst: &mut String)
        ensures
            final(dst)@ == old(dst)@ + decimal(*self as int),
    {
        unsigned_display_to(*self as u128, dst);
    }
}

impl TDisplay for u32 {
    /// Appends the number in base ten.
    fn tdisplay_to(self, dst: &mut String)
        ensures
            final(dst)@ == old(dst)@ + decimal(self as int),
    {
        unsigned_display_to(self as u128, dst);
    }
}

impl<'a> TDisplay for &'a u32 {
    /// Appends the number in base ten.
    fn tdisplay_to(self, dst: &mut String)
        ensures
            final(dst)@ == old(dst)@ + decimal(*self as int),
    {
        unsigned_display_to(*self as u128, dst);
    }
}

impl TDisplay for u64 {
    /// Appends the number in base ten.
    fn tdisplay_to(self, dst: &mut String)
        ensures
            final(dst)@ == old(dst)@ + decimal(self as int),
    {
        unsigned_display_to(self as u128, dst);
    }
}

impl<'a> TDisplay for &'a u64 {
    /// Appends the number in base ten.
    fn tdisplay_to(self, dst: &mut String)
        ensures
            final(dst)@ == old(dst)@ + decimal(*self as int),
    {
        unsigned_display_to(*self as u128, dst);
    }
}

impl TDisplay for u128 {
    /// Appends the number in base ten.
    fn tdisplay_to(self, dst: &mut String)
        ensures
            final(dst)@ == old(dst)@ + decimal(self as int),
    {
        unsigned_display_to(self, dst);
    }
}

impl<'a> TDisplay for &'a u128 {
    /// Appends the number in base ten.
    fn tdisplay_to(self, dst: &mut String)
        ensures
            final(dst)@ == old(dst)@ + decimal(*self as int),
    {
        unsigned_display_to(*self, dst);
    }
}

impl TDisplay for usize {
    /// Appends the number in base ten.
    fn tdisplay_to(self, dst: &mut String)
        ensures
            final(dst)@ == old(dst)@ + decimal(self as int),
    {
        unsigned_display_to(self as u128, dst);
    }
}

impl<'a> TDisplay for &'a usize {
    /// Appends the number in base ten.
    fn tdisplay_to(self, dst: &mut String)
        ensures
            final(dst)@ == old(dst)@ + decimal(*self as int),
    {
        unsigned_display_to(*self as u128, dst);
    }
}

impl TDisplay for i8 {
    /// Appends the number in base ten.
    fn tdisplay_to(self, dst: &mut String)
        ensures
            final(dst)@ == old(dst)@ + decimal(self as int),
    {
        signed_display_to(self as i128, dst);
    }
}

impl<'a> TDisplay for &'a i8 {
    /// Appends the number in base ten.
    fn tdisplay_to(self, dst: &mut String)
        ensures
            final(dst)@ == old(dst)@ + decimal(*self as int),
    {
        signed_display_to(*self as i128, dst);
    }
}

impl TDisplay for i16 {
    /// Appends the number in base ten.
    fn tdisplay_to(self, dst: &mut String)
        ensures
            final(dst)@ == old(dst)@ + decimal(self as int),
    {
        signed_display_to(self as i128, dst);
    }
}

impl<'a> TDisplay for &'a i16 {
    /// Appends the number in base ten.
    fn tdisplay_to(self, dst: &mut String)
        ensures
            final(dst)@ == old(dst)@ + decimal(*self as int),
    {
        signed_display_to(*self as i128, dst);
    }
}

impl TDisplay for i32 {
    /// Appends the number in base ten.
    fn tdisplay_to(self, dst: &mut String)
        ensures
            final(dst)@ == old(dst)@ + decimal(self as int),
    {
        signed_display_to(self as i128, dst);
    }
}

impl<'a> TDisplay for &'a i32 {
    /// Appends the number in base ten.
    fn tdisplay_to(self, dst: &mut String)
        ensures
            final(dst)@ == old(dst)@ + decimal(*self as int),
    {
        signed_display_to(*self as i128, dst);
    }
}

impl TDisplay for i64 {
    /// Appends the number in base ten.
    fn tdisplay_to(self, dst: &mut String)
        ensures
            final(dst)@ == old(dst)@ + decimal(self as int),
    {
        signed_display_to(self as i128, dst);
    }
}

impl<'a> TDisplay for &'a i64 {
    /// Appends the number in base ten.
    fn tdisplay_to(self, dst: &mut String)
        ensures
            final(dst)@ == old(dst)@ + decimal(*self as int),
    {
        signed_display_to(*self as i128, dst);
    }
}

impl TDisplay for i128 {
    /// Appends the number in base ten.
    fn tdisplay_to(self, dst: &mut String)
        ensures
            final(dst)@ == old(dst)@ + decimal(self as int),
    {
        signed_display_to(self, dst);
    }
}

impl<'a> TDisplay for &'a i128 {
    /// Appends the number in base ten.
    fn tdisplay_to(self, dst: &mut String)
        ensures
            final(dst)@ == old(dst)@ + decimal(*self as int),
    {
        signed_display_to(*self, dst);
    }
}

impl TDisplay for isize {
    /// Appends the number in base ten.
    fn tdisplay_to(self, dst: &mut String)
        ensures
            final(dst)@ == old(dst)@ + decimal(self as int),
    {
        signed_display_to(self as i128, dst);
    }
}

impl<'a> TDisplay for &'a isize {
    /// Appends the number in base ten.
    fn tdisplay_to(self, dst: &mut String)
        ensures
            final(dst)@ == old(dst)@ + decimal(*self as int),
    {
        signed_display_to(*self as i128, dst);
    }
}

} // verus!
