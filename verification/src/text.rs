//! Conversions between strings and sequences of characters.

use vstd::prelude::*;

verus! {

/// Calls `String::push` of the standard library, which appends the given
/// character to the end of the string and changes nothing else of it.
#[verifier::external_body]
pub(crate) fn push_char(text: &mut String, c: char)
    ensures
        final(text)@ == old(text)@.push(c),
{
    text.push(c);
}

/// The characters of a string, in order.
pub fn chars_of(text: &str) -> (chars: Vec<char>)
    ensures
        chars@ == text@,
{
    let mut chars: Vec<char> = Vec::new();
    for c in it: text.chars()
        invariant
            chars@ == it.seq().take(it.index() as int),
    {
        chars.push(c);
    }
    chars
}

/// The string made of the given characters, in order.
pub fn text_of(chars: &Vec<char>) -> (text: String)
    ensures
        text@ == chars@,
{
    let mut text = String::new();
    let mut i: usize = 0;
    while i < chars.len()
        invariant
            i <= chars.len(),
            text@ == chars@.take(i as int),
        decreases chars.len() - i,
    {
        push_char(&mut text, chars[i]);
        i = i + 1;
    }
    text
}

/// Whether the given characters spell exactly `text`.
pub fn is_text(chars: &Vec<char>, text: &str) -> (equal: bool)
    ensures
        equal == (chars@ == text@),
{
    let n: usize = text.unicode_len();
    if chars.len() != n {
        return false;
    }
    let mut i: usize = 0;
    while i < n
        invariant
            i <= n,
            n == chars.len(),
            n == text@.len(),
            chars@.take(i as int) == text@.take(i as int),
        decreases n - i,
    {
        if chars[i] != text.get_char(i) {
            return false;
        }
        i = i + 1;
    }
    assert(chars@ =~= chars@.take(n as int));
    assert(text@ =~= text@.take(n as int));
    true
}

/// The character that writes the digit `d`; meaningful for 0 to 9.
pub open spec fn digit_char(d: int) -> char {
    if d == 0 {
        '0'
    } else if d == 1 {
        '1'
    } else if d == 2 {
        '2'
    } else if d == 3 {
        '3'
    } else if d == 4 {
        '4'
    } else if d == 5 {
        '5'
    } else if d == 6 {
        '6'
    } else if d == 7 {
        '7'
    } else if d == 8 {
        '8'
    } else {
        '9'
    }
}

/// The decimal digits of a natural number, without leading zeros.
pub open spec fn decimal_text(n: nat) -> Seq<char>
    decreases n,
{
    if n < 10 {
        seq![digit_char(n as int)]
    } else {
        decimal_text(n / 10).push(digit_char((n % 10) as int))
    }
}

/// The decimal notation of an integer, with a minus sign if it is negative.
pub open spec fn integer_text(value: int) -> Seq<char> {
    if value < 0 {
        seq!['-'] + decimal_text((-value) as nat)
    } else {
        decimal_text(value as nat)
    }
}

fn digit_of(d: u64) -> (c: char)
    requires
        d < 10,
    ensures
        c == digit_char(d as int),
{
    if d == 0 {
        '0'
    } else if d == 1 {
        '1'
    } else if d == 2 {
        '2'
    } else if d == 3 {
        '3'
    } else if d == 4 {
        '4'
    } else if d == 5 {
        '5'
    } else if d == 6 {
        '6'
    } else if d == 7 {
        '7'
    } else if d == 8 {
        '8'
    } else {
        '9'
    }
}

/// Appends the decimal digits of `n` to `text`.
pub fn push_decimal(text: &mut String, n: u64)
    ensures
        final(text)@ == old(text)@ + decimal_text(n as nat),
    decreases n,
{
    if n < 10 {
        push_char(text, digit_of(n));
        assert(old(text)@.push(digit_char(n as int)) =~= old(text)@ + decimal_text(n as nat));
    } else {
        push_decimal(text, n / 10);
        push_char(text, digit_of(n % 10));
        assert((old(text)@ + decimal_text((n / 10) as nat)).push(digit_char((n % 10) as int))
            =~= old(text)@ + decimal_text(n as nat));
    }
}

/// Appends the decimal notation of `value` to `text`.
pub fn push_integer(text: &mut String, value: i64)
    ensures
        final(text)@ == old(text)@ + integer_text(value as int),
{
    if value < 0 {
        let magnitude: u64 = (-(value + 1)) as u64 + 1;
        push_char(text, '-');
        push_decimal(text, magnitude);
        assert(old(text)@.push('-') + decimal_text((-value) as nat) =~= old(text)@ + integer_text(
            value as int,
        ));
    } else {
        push_decimal(text, value as u64);
    }
}

} // verus!
