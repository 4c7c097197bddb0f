use vstd::prelude::*;

verus! {

/// The character that writes the decimal digit `d`.
pub open spec fn digit_char(d: nat) -> char {
    if d == 0 {
        '0'
    } else if d == 1 {
        '1'
    } else if d == 2 {
        '2'
    } else if d == 3 {
        '3'
    } else if d == 4 {
        '4'
    } else if d == 5 {
        '5'
    } else if d == 6 {
        '6'
    } else if d == 7 {
        '7'
    } else if d == 8 {
        '8'
    } else {
        '9'
    }
}

/// `n` written in decimal, most significant digit first, with no leading zeros.
pub open spec fn decimal(n: nat) -> Seq<char>
    decreases n,
{
    if n < 10 {
        seq![digit_char(n)]
    } else {
        decimal(n / 10).push(digit_char(n % 10))
    }
}

/// Relies on std's `Display` for `usize` (through `to_string`): it writes the
/// decimal digits of the value, without sign, padding or separators.
#[verifier::external_body]
pub(crate) fn decimal_text(n: usize) -> (r: String)
    ensures
        r@ == decimal(n as nat),
{
    n.to_string()
}

/// The most characters a `String` built here is allowed to reach: at four
/// bytes a character, well inside the `isize::MAX` bytes that a `String` can
/// hold.
pub const MAX_TEXT_CHARS: usize = usize::MAX / 16;

/// Relies on `String::push`: appends `c` at the end. It panics only when the
/// new capacity would exceed `isize::MAX` bytes, which the bound rules out.
#[verifier::external_body]
pub(crate) fn push_char(s: &mut String, c: char)
    requires
        old(s)@.len() < MAX_TEXT_CHARS,
    ensures
        final(s)@ == old(s)@.push(c),
{
    s.push(c)
}

} // verus!
