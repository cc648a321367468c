//! Characters and strings: what the standard library does for the rest of the crate.
use vstd::prelude::*;

verus! {

/// Whether `code` is a Unicode scalar value: a code point that is no surrogate.
pub open spec fn is_scalar_value(code: int) -> bool {
    0 <= code <= 0xD7FF || 0xE000 <= code <= 0x10FFFF
}

/// `char::from_u32`: the character with the given code, where the code is a
/// Unicode scalar value, and nothing where it is not.
#[verifier::external_body]
pub(crate) fn char_from_code(code: u32) -> (c: Option<char>)
    ensures
        c == (if is_scalar_value(code as int) {
            Some(code as char)
        } else {
            None
        }),
{
    char::from_u32(code)
}

/// `String::push`: appends one character to the string.
#[verifier::external_body]
pub(crate) fn push_char(s: &mut String, c: char)
    ensures
        final(s)@ == old(s)@.push(c),
{
    s.push(c)
}

/// The characters of `s`, in order.
pub fn chars_of(s: &str) -> (chars: Vec<char>)
    ensures
        chars@ == s@,
{
    let mut chars: Vec<char> = Vec::new();
    for c in it: s.chars()
        invariant
            it.seq() == s@,
            chars@ == it.seq().take(it.index()),
    {
        chars.push(c);
    }
    chars
}

/// The string made of the characters `chars[from..to]`.
pub fn string_of(chars: &Vec<char>, from: usize, to: usize) -> (s: String)
    requires
        from <= to <= chars.len(),
    ensures
        s@ == chars@.subrange(from as int, to as int),
{
    let mut s = String::new();
    let mut i: usize = from;
    while i < to
        invariant
            from <= i <= to <= chars.len(),
            s@ == chars@.subrange(from as int, i as int),
        decreases to - i,
    {
        push_char(&mut s, chars[i]);
        i += 1;
    }
    s
}

} // verus!
