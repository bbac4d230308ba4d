//! Character classes and small verified string operations used throughout the transpiler.
use vstd::prelude::*;

verus! {

/// The Unicode `Alphabetic` property, as `char::is_alphabetic` reports it.
pub uninterp spec fn unicode_alphabetic(c: char) -> bool;

/// The Unicode numeric classes (`Nd`, `Nl`, `No`), as `char::is_numeric` reports them.
pub uninterp spec fn unicode_numeric(c: char) -> bool;

/// The Unicode `White_Space` property, which `char::is_whitespace` reports: the ASCII tab,
/// line feed, vertical tab, form feed, carriage return and space, and nineteen other code points.
pub open spec fn unicode_white_space(c: char) -> bool {
    let u = c as u32;
    ||| 0x9 <= u <= 0xD
    ||| u == 0x20
    ||| u == 0x85
    ||| u == 0xA0
    ||| u == 0x1680
    ||| 0x2000 <= u <= 0x200A
    ||| u == 0x2028
    ||| u == 0x2029
    ||| u == 0x202F
    ||| u == 0x205F
    ||| u == 0x3000
}

/// An ASCII letter.
pub open spec fn ascii_letter(c: char) -> bool {
    let u = c as u32;
    (0x41 <= u <= 0x5A) || (0x61 <= u <= 0x7A)
}

/// An ASCII digit.
pub open spec fn ascii_digit(c: char) -> bool {
    let u = c as u32;
    0x30 <= u <= 0x39
}

/// What `char::is_alphabetic` reports: the Unicode Alphabetic property. Among ASCII characters
/// exactly the letters have it, and no white-space character has it.
pub open spec fn alphabetic(c: char) -> bool {
    if (c as u32) < 0x80 {
        ascii_letter(c)
    } else {
        unicode_alphabetic(c) && !unicode_white_space(c)
    }
}

/// What `char::is_numeric` reports: the numeric general categories. Among ASCII characters
/// exactly the digits are numeric, and no white-space character is.
pub open spec fn numeric(c: char) -> bool {
    if (c as u32) < 0x80 {
        ascii_digit(c)
    } else {
        unicode_numeric(c) && !unicode_white_space(c)
    }
}

/// What `char::is_alphanumeric` reports, which std documents as `is_alphabetic() || is_numeric()`.
pub open spec fn alphanumeric(c: char) -> bool {
    alphabetic(c) || numeric(c)
}


/// Calls `char::is_alphabetic`. The contract claims that the result is `alphabetic(c)`, the
/// Unicode Alphabetic property, which among ASCII characters the letters alone have and no
/// white-space character has. Which other characters have it is not stated.
#[verifier::external_body]
pub(crate) fn char_is_alphabetic(c: char) -> (r: bool)
    ensures
        r == (if (c as u32) < 0x80 { ascii_letter(c) } else { unicode_alphabetic(c) && !unicode_white_space(c) }),
{
    c.is_alphabetic()
}

/// Calls `char::is_numeric`. The contract claims that the result is `numeric(c)`, membership
/// of `c` in the numeric general categories, which among ASCII characters hold the digits `0`-`9`
/// alone and hold no white-space character. Which other characters they hold is not stated.
#[verifier::external_body]
pub(crate) fn char_is_numeric(c: char) -> (r: bool)
    ensures
        r == (if (c as u32) < 0x80 { ascii_digit(c) } else { unicode_numeric(c) && !unicode_white_space(c) }),
{
    c.is_numeric()
}

/// Whether `c` has the Unicode White_Space property, as `char::is_whitespace` reports it.
pub(crate) fn char_is_whitespace(c: char) -> (r: bool)
    ensures
        r == unicode_white_space(c),
{
    let u: u32 = c as u32;
    (0x9 <= u && u <= 0xD) || u == 0x20 || u == 0x85 || u == 0xA0 || u == 0x1680 || (0x2000 <= u && u <= 0x200A)
        || u == 0x2028 || u == 0x2029 || u == 0x202F || u == 0x205F || u == 0x3000
}

/// Calls `char::is_alphanumeric`, which std documents as `is_alphabetic() || is_numeric()`;
/// the contract claims exactly that.
#[verifier::external_body]
pub(crate) fn char_is_alphanumeric(c: char) -> (r: bool)
    ensures
        r == alphanumeric(c),
{
    c.is_alphanumeric()
}

/// Calls `String::push`. The contract claims that the text of `s` gains `c` at its end and
/// is otherwise unchanged.
#[verifier::external_body]
pub(crate) fn push_char(s: &mut String, c: char)
    ensures
        final(s)@ == old(s)@.push(c),
{
    s.push(c)
}

/// The characters of `s`, in order.
pub fn chars_of(s: &str) -> (r: Vec<char>)
    ensures
        r@ == s@,
{
    let mut r: Vec<char> = Vec::new();
    for c in it: s.chars()
        invariant
            r@ == it.seq().take(it.index() as int),
    {
        r.push(c);
    }
    r
}

/// A `String` holding the characters `v[from..to]`.
pub fn string_of_range(v: &Vec<char>, from: usize, to: usize) -> (r: String)
    requires
        from <= to <= v.len(),
    ensures
        r@ == v@.subrange(from as int, to as int),
{
    let mut r = String::new();
    let mut i: usize = from;
    while i < to
        invariant
            from <= i <= to <= v.len(),
            r@ == v@.subrange(from as int, i as int),
        decreases to - i,
    {
        push_char(&mut r, v[i]);
        i = i + 1;
        assert(r@ == v@.subrange(from as int, i as int));
    }
    r
}

/// Appends the text of `lit`.
pub fn append_str(s: &mut String, lit: &str)
    ensures
        final(s)@ == old(s)@ + lit@,
{
    s.append(lit);
}

/// A fresh `String` with the text of `lit`.
pub fn string_from(lit: &str) -> (r: String)
    ensures
        r@ == lit@,
{
    let mut r = String::new();
    r.append(lit);
    r
}

/// Whether `s` reads exactly `lit`.
pub fn str_is(s: &String, lit: &str) -> (r: bool)
    ensures
        r == (s@ == lit@),
{
    let t = string_from(lit);
    *s == t
}

} // verus!

verus! {

/// The decimal digit for `d < 10`.
pub open spec fn digit_char(d: int) -> char {
    if d == 0 { '0' } else if d == 1 { '1' } else if d == 2 { '2' } else if d == 3 { '3' }
    else if d == 4 { '4' } else if d == 5 { '5' } else if d == 6 { '6' } else if d == 7 { '7' }
    else if d == 8 { '8' } else { '9' }
}

/// The decimal text of `n`, as `{}` formats an unsigned integer.
pub open spec fn decimal(n: nat) -> Seq<char>
    decreases n,
{
    if n < 10 { seq![digit_char(n as int)] } else { decimal(n / 10).push(digit_char((n % 10) as int)) }
}

fn exec_digit(d: usize) -> (c: char)
    requires
        d < 10,
    ensures
        c == digit_char(d as int),
{
    if d == 0 { '0' } else if d == 1 { '1' } else if d == 2 { '2' } else if d == 3 { '3' }
    else if d == 4 { '4' } else if d == 5 { '5' } else if d == 6 { '6' } else if d == 7 { '7' }
    else if d == 8 { '8' } else { '9' }
}

/// Appends the decimal text of `n`.
pub fn append_decimal(s: &mut String, n: usize)
    ensures
        final(s)@ == old(s)@ + decimal(n as nat),
    decreases n,
{
    if n < 10 {
        push_char(s, exec_digit(n));
        assert(decimal(n as nat) =~= seq![digit_char(n as int)]);
    } else {
        append_decimal(s, n / 10);
        push_char(s, exec_digit(n % 10));
    }
}

} // verus!
