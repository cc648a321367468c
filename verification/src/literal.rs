//! Decoding of literals: the digits of integers and the escapes of strings.
use crate::error::{Error, ErrorView};
use crate::text::{char_from_code, chars_of, is_scalar_value, push_char};
use vstd::prelude::*;

verus! {

/// The character that may stand between the digits of a number and counts for
/// nothing.
pub open spec fn is_separator(c: char) -> bool {
    c == '_'
}

/// The value of `c` as a digit: 0 to 9 for the decimal digits, 10 to 35 for the
/// letters of either case, and 36, which no radix reaches, for anything else.
pub open spec fn digit_of(c: char) -> int {
    if '0' <= c <= '9' {
        c as int - '0' as int
    } else if 'a' <= c <= 'z' {
        c as int - 'a' as int + 10
    } else if 'A' <= c <= 'Z' {
        c as int - 'A' as int + 10
    } else {
        36
    }
}

/// The number that the digits of `s` write in the given radix, most significant
/// digit first, separators skipped.
pub open spec fn digits_value(s: Seq<char>, radix: int) -> int
    decreases s.len(),
{
    if s.len() == 0 {
        0
    } else if is_separator(s.last()) {
        digits_value(s.drop_last(), radix)
    } else {
        digits_value(s.drop_last(), radix) * radix + digit_of(s.last())
    }
}

/// `s` holds nothing but digits of the radix and separators.
pub open spec fn only_digits(s: Seq<char>, radix: int) -> bool {
    forall|i: int| 0 <= i < s.len() ==> is_separator(s[i]) || digit_of(s[i]) < radix
}

/// `s` holds a character that is no separator.
pub open spec fn holds_digit(s: Seq<char>) -> bool {
    exists|i: int| 0 <= i < s.len() && !is_separator(s[i])
}

/// `s` holds at least one digit, and nothing but digits of the radix and
/// separators.
pub open spec fn digits_valid(s: Seq<char>, radix: int) -> bool {
    only_digits(s, radix) && holds_digit(s)
}

/// What the digits `s` decode to: their value, where they are valid and the
/// value fits a signed integer of 64 bits.
pub open spec fn decode_digits(s: Seq<char>, radix: int) -> Result<int, ErrorView> {
    if digits_valid(s, radix) && digits_value(s, radix) <= i64::MAX {
        Ok(digits_value(s, radix))
    } else {
        Err(ErrorView::NumericParse)
    }
}

/// `s` without its separators.
pub open spec fn without_separators(s: Seq<char>) -> Seq<char> {
    s.filter(|c: char| !is_separator(c))
}

/// The value of a prefix of the digits is at most the value of all of them, and
/// no value is negative.
pub proof fn lemma_digits_value_grows(s: Seq<char>, k: int, radix: int)
    requires
        0 <= k <= s.len(),
        radix >= 1,
    ensures
        0 <= digits_value(s.take(k), radix) <= digits_value(s, radix),
    decreases s.len() - k,
{
    if k == s.len() {
        assert(s.take(k) =~= s);
        lemma_digits_value_nonnegative(s, radix);
    } else {
        assert(s.drop_last().take(k) =~= s.take(k));
        lemma_digits_value_grows(s.drop_last(), k, radix);
        let v = digits_value(s.drop_last(), radix);
        assert(v * radix >= v) by (nonlinear_arith)
            requires
                v >= 0,
                radix >= 1,
        ;
    }
}

/// No digits have a negative value.
pub proof fn lemma_digits_value_nonnegative(s: Seq<char>, radix: int)
    requires
        radix >= 1,
    ensures
        0 <= digits_value(s, radix),
    decreases s.len(),
{
    if s.len() > 0 {
        lemma_digits_value_nonnegative(s.drop_last(), radix);
        let v = digits_value(s.drop_last(), radix);
        assert(v * radix >= 0) by (nonlinear_arith)
            requires
                v >= 0,
                radix >= 1,
        ;
    }
}

/// What the last character adds to the validity of the digits before it.
proof fn lemma_validity_by_last(s: Seq<char>, radix: int)
    requires
        s.len() > 0,
    ensures
        only_digits(s, radix) == (only_digits(s.drop_last(), radix) && (is_separator(s.last())
            || digit_of(s.last()) < radix)),
        holds_digit(s) == (holds_digit(s.drop_last()) || !is_separator(s.last())),
{
    let t = s.drop_last();
    if only_digits(s, radix) {
        assert forall|i: int| 0 <= i < t.len() implies is_separator(t[i]) || digit_of(t[i])
            < radix by {
            assert(t[i] == s[i]);
        }
        assert(s.last() == s[s.len() - 1]);
    }
    if only_digits(t, radix) && (is_separator(s.last()) || digit_of(s.last()) < radix) {
        assert forall|i: int| 0 <= i < s.len() implies is_separator(s[i]) || digit_of(s[i])
            < radix by {
            if i < t.len() {
                assert(t[i] == s[i]);
            }
        }
    }
    if holds_digit(s) {
        let w = choose|i: int| 0 <= i < s.len() && !is_separator(s[i]);
        if w < t.len() {
            assert(!is_separator(t[w]));
        }
    }
    if holds_digit(t) {
        let w = choose|i: int| 0 <= i < t.len() && !is_separator(t[i]);
        assert(!is_separator(s[w]));
    }
    if !is_separator(s.last()) {
        assert(!is_separator(s[s.len() - 1]));
    }
}

/// Separators may stand anywhere among the digits of a number without changing
/// what it decodes to: with them or without, the digits are valid or not
/// together, and where they are valid they have the same value.
pub proof fn lemma_separators_ignored(s: Seq<char>, radix: int)
    ensures
        digits_value(without_separators(s), radix) == digits_value(s, radix),
        only_digits(without_separators(s), radix) == only_digits(s, radix),
        holds_digit(without_separators(s)) == holds_digit(s),
        decode_digits(without_separators(s), radix) == decode_digits(s, radix),
    decreases s.len(),
{
    reveal(Seq::filter);
    if s.len() > 0 {
        let t = s.drop_last();
        let c = s.last();
        let ft = without_separators(t);
        let fs = without_separators(s);
        lemma_separators_ignored(t, radix);
        lemma_validity_by_last(s, radix);
        if is_separator(c) {
            assert(fs == ft);
        } else {
            assert(fs == ft.push(c));
            assert(fs.drop_last() =~= ft);
            assert(fs.last() == c);
            lemma_validity_by_last(fs, radix);
        }
    } else {
        assert(without_separators(s) =~= s);
    }
}

/// What is left of a text without its separators holds no separator, and
/// taking them out once more changes nothing.
pub proof fn lemma_without_separators(s: Seq<char>)
    ensures
        forall|i: int|
            0 <= i < without_separators(s).len() ==> !is_separator(
                #[trigger] without_separators(s)[i],
            ),
        without_separators(without_separators(s)) == without_separators(s),
    decreases s.len(),
{
    reveal(Seq::filter);
    if s.len() > 0 {
        let t = s.drop_last();
        let c = s.last();
        let ft = without_separators(t);
        let fs = without_separators(s);
        lemma_without_separators(t);
        if !is_separator(c) {
            assert(fs == ft.push(c));
            assert(fs.drop_last() =~= ft);
            assert(fs.last() == c);
            assert forall|i: int| 0 <= i < fs.len() implies !is_separator(#[trigger] fs[i]) by {
                if i < ft.len() {
                    assert(fs[i] == ft[i]);
                }
            }
        }
    }
}

/// A zero in front of the digits of a number changes nothing: the digits
/// decode to the same value with it as without it.
pub proof fn lemma_leading_zero_ignored(s: Seq<char>, radix: int)
    requires
        radix >= 2,
        holds_digit(s),
    ensures
        digits_value(seq!['0'] + s, radix) == digits_value(s, radix),
        decode_digits(seq!['0'] + s, radix) == decode_digits(s, radix),
{
    let z = seq!['0'] + s;
    lemma_zero_prefix_value(s, radix);
    if only_digits(s, radix) {
        assert forall|i: int| 0 <= i < z.len() implies is_separator(z[i]) || digit_of(z[i])
            < radix by {
            if i > 0 {
                assert(z[i] == s[i - 1]);
            }
        }
    }
    let w = choose|i: int| 0 <= i < s.len() && !is_separator(s[i]);
    assert(!is_separator(z[w + 1]));
    if only_digits(z, radix) {
        assert forall|i: int| 0 <= i < s.len() implies is_separator(s[i]) || digit_of(s[i])
            < radix by {
            assert(z[i + 1] == s[i]);
        }
    }
}

/// The value of digits that follow a zero is the value of the digits alone.
proof fn lemma_zero_prefix_value(s: Seq<char>, radix: int)
    ensures
        digits_value(seq!['0'] + s, radix) == digits_value(s, radix),
    decreases s.len(),
{
    let z = seq!['0'] + s;
    if s.len() == 0 {
        assert(z.drop_last() =~= Seq::<char>::empty());
        assert(digits_value(z.drop_last(), radix) == 0);
    } else {
        assert(z.drop_last() =~= seq!['0'] + s.drop_last());
        assert(z.last() == s.last());
        lemma_zero_prefix_value(s.drop_last(), radix);
    }
}

/// The value of `c` as a digit.
pub fn digit_value(c: char) -> (d: u32)
    ensures
        d == digit_of(c),
{
    if '0' <= c && c <= '9' {
        c as u32 - '0' as u32
    } else if 'a' <= c && c <= 'z' {
        c as u32 - 'a' as u32 + 10
    } else if 'A' <= c && c <= 'Z' {
        c as u32 - 'A' as u32 + 10
    } else {
        36
    }
}

/// Decodes the digits `chars[from..to]` in the given radix.
pub fn parse_digits(chars: &Vec<char>, from: usize, to: usize, radix: u32) -> (r: Result<
    i64,
    Error,
>)
    requires
        from <= to <= chars.len(),
        2 <= radix <= 36,
    ensures
        match r {
            Ok(v) => decode_digits(chars@.subrange(from as int, to as int), radix as int) == Ok::<
                int,
                ErrorView,
            >(v as int),
            Err(e) => e@ == ErrorView::NumericParse && decode_digits(
                chars@.subrange(from as int, to as int),
                radix as int,
            ) is Err,
        },
{
    let ghost s = chars@.subrange(from as int, to as int);
    let mut acc: i64 = 0;
    let mut seen: bool = false;
    let mut i: usize = from;
    assert(s.take(0) =~= Seq::<char>::empty());
    while i < to
        invariant
            from <= i <= to <= chars.len(),
            2 <= radix <= 36,
            s == chars@.subrange(from as int, to as int),
            acc == digits_value(s.take(i - from), radix as int),
            0 <= acc,
            seen <==> exists|j: int| 0 <= j < i - from && !is_separator(s[j]),
            forall|j: int| 0 <= j < i - from ==> is_separator(s[j]) || digit_of(s[j]) < radix,
        decreases to - i,
    {
        let c = chars[i];
        let ghost k = i - from;
        assert(s[k] == c);
        assert(s.take(k + 1).drop_last() =~= s.take(k));
        assert(s.take(k + 1).last() == c);
        if c != '_' {
            let d = digit_value(c);
            if d >= radix {
                return Err(Error::NumericParse);
            }
            let shifted = match acc.checked_mul(radix as i64) {
                Some(v) => v,
                None => {
                    proof {
                        lemma_digits_value_grows(s, k + 1, radix as int);
                    }
                    return Err(Error::NumericParse);
                },
            };
            acc = match shifted.checked_add(d as i64) {
                Some(v) => v,
                None => {
                    proof {
                        lemma_digits_value_grows(s, k + 1, radix as int);
                    }
                    return Err(Error::NumericParse);
                },
            };
            seen = true;
            assert(!is_separator(s[k]));
        }
        i += 1;
    }
    assert(s.take(to - from) =~= s);
    if seen {
        Ok(acc)
    } else {
        Err(Error::NumericParse)
    }
}

/// Decodes an integer literal that follows a prefix of two characters, such as
/// `0x`: the prefix is dropped, whatever it holds, and the rest decoded as
/// digits of the radix.
pub fn parse_int(s: &str, radix: u32) -> (r: Result<i64, Error>)
    requires
        2 <= radix <= 36,
    ensures
        match r {
            Ok(v) => s@.len() >= 2 && decode_digits(s@.skip(2), radix as int) == Ok::<
                int,
                ErrorView,
            >(v as int),
            Err(e) => e@ == ErrorView::NumericParse && (s@.len() < 2 || decode_digits(
                s@.skip(2),
                radix as int,
            ) is Err),
        },
{
    let chars = chars_of(s);
    if chars.len() < 2 {
        return Err(Error::NumericParse);
    }
    assert(chars@.subrange(2, chars.len() as int) =~= s@.skip(2));
    parse_digits(&chars, 2, chars.len(), radix)
}

/// The character that a backslash and `c` stand for in a string delimited by
/// `quote`, where the two are an escape of one letter.
pub open spec fn simple_escape(c: char, quote: char) -> Option<char> {
    if c == quote {
        Some(quote)
    } else if c == '\\' {
        Some('\\')
    } else if c == '/' {
        Some('/')
    } else if c == 'b' {
        Some('\u{8}')
    } else if c == 'f' {
        Some('\u{c}')
    } else if c == 'n' {
        Some('\n')
    } else if c == 'r' {
        Some('\r')
    } else if c == 't' {
        Some('\t')
    } else {
        None
    }
}

/// Four hexadecimal digits stand at `s[at..at + 4]`, before `end`.
pub open spec fn is_hex4(s: Seq<char>, at: int, end: int) -> bool {
    &&& at + 4 <= end
    &&& digit_of(s[at]) < 16
    &&& digit_of(s[at + 1]) < 16
    &&& digit_of(s[at + 2]) < 16
    &&& digit_of(s[at + 3]) < 16
}

/// The number that the four hexadecimal digits at `s[at..at + 4]` write.
pub open spec fn hex4_value(s: Seq<char>, at: int) -> int {
    digit_of(s[at]) * 4096 + digit_of(s[at + 1]) * 256 + digit_of(s[at + 2]) * 16 + digit_of(
        s[at + 3],
    )
}

/// `c` put in front of the text `rest`, where there is one.
pub open spec fn prepend(c: char, rest: Result<Seq<char>, ErrorView>) -> Result<
    Seq<char>,
    ErrorView,
> {
    match rest {
        Ok(text) => Ok(seq![c] + text),
        Err(e) => Err(e),
    }
}

/// The text that `s[i..end]`, the inside of a string literal delimited by
/// `quote`, stands for. Characters other than a backslash stand for themselves.
/// A backslash starts an escape: `\u` and four hexadecimal digits stand for the
/// character with that code, which must be a Unicode scalar value; a backslash
/// and one of the letters of [`simple_escape`] for what that gives. The first
/// backslash that starts nothing of the kind decides the error.
pub open spec fn unescape_range(s: Seq<char>, i: int, end: int, quote: char) -> Result<
    Seq<char>,
    ErrorView,
>
    decreases end - i,
{
    if i >= end {
        Ok(Seq::empty())
    } else if s[i] != '\\' {
        prepend(s[i], unescape_range(s, i + 1, end, quote))
    } else if i + 1 >= end {
        Err(ErrorView::InvalidEscapeSequence)
    } else if s[i + 1] == 'u' {
        if !is_hex4(s, i + 2, end) {
            Err(ErrorView::InvalidEscapeSequence)
        } else if !is_scalar_value(hex4_value(s, i + 2)) {
            Err(ErrorView::InvalidUtfCode)
        } else {
            prepend(hex4_value(s, i + 2) as char, unescape_range(s, i + 6, end, quote))
        }
    } else {
        match simple_escape(s[i + 1], quote) {
            Some(c) => prepend(c, unescape_range(s, i + 2, end, quote)),
            None => Err(ErrorView::InvalidEscapeSequence),
        }
    }
}

/// The text that `s`, the inside of a string literal delimited by `quote`,
/// stands for.
pub open spec fn unescape(s: Seq<char>, quote: char) -> Result<Seq<char>, ErrorView> {
    unescape_range(s, 0, s.len() as int, quote)
}

/// The text `done`, followed by what `rest` decodes to.
pub open spec fn continue_with(done: Seq<char>, rest: Result<Seq<char>, ErrorView>) -> Result<
    Seq<char>,
    ErrorView,
> {
    match rest {
        Ok(text) => Ok(done + text),
        Err(e) => Err(e),
    }
}

/// The character that a backslash and `c` stand for in a string delimited by
/// `quote`.
pub fn escape_letter(c: char, quote: char) -> (r: Option<char>)
    ensures
        r == simple_escape(c, quote),
{
    if c == quote {
        Some(quote)
    } else if c == '\\' {
        Some('\\')
    } else if c == '/' {
        Some('/')
    } else if c == 'b' {
        Some('\u{8}')
    } else if c == 'f' {
        Some('\u{c}')
    } else if c == 'n' {
        Some('\n')
    } else if c == 'r' {
        Some('\r')
    } else if c == 't' {
        Some('\t')
    } else {
        None
    }
}

/// The number that four hexadecimal digits at `chars[at..]` write, where four
/// such digits stand there before `end`.
pub fn hex4(chars: &Vec<char>, at: usize, end: usize) -> (r: Option<u32>)
    requires
        at <= end <= chars.len(),
    ensures
        r is Some == is_hex4(chars@, at as int, end as int),
        r matches Some(v) ==> v == hex4_value(chars@, at as int),
{
    if end - at < 4 {
        return None;
    }
    let d0 = digit_value(chars[at]);
    let d1 = digit_value(chars[at + 1]);
    let d2 = digit_value(chars[at + 2]);
    let d3 = digit_value(chars[at + 3]);
    if d0 < 16 && d1 < 16 && d2 < 16 && d3 < 16 {
        Some(d0 * 4096 + d1 * 256 + d2 * 16 + d3)
    } else {
        None
    }
}

/// Decodes `chars[from..to]`, the inside of a string literal delimited by
/// `quote`.
pub fn decode_escapes(chars: &Vec<char>, from: usize, to: usize, quote: char) -> (r: Result<
    String,
    Error,
>)
    requires
        from <= to <= chars.len(),
    ensures
        match r {
            Ok(text) => unescape_range(chars@, from as int, to as int, quote) == Ok::<
                Seq<char>,
                ErrorView,
            >(text@),
            Err(e) => unescape_range(chars@, from as int, to as int, quote) == Err::<
                Seq<char>,
                ErrorView,
            >(e@),
        },
{
    let ghost whole = unescape_range(chars@, from as int, to as int, quote);
    let mut out = String::new();
    let mut i: usize = from;
    assert(Seq::<char>::empty() + whole->Ok_0 =~= whole->Ok_0);
    while i < to
        invariant
            from <= i <= to <= chars.len(),
            whole == unescape_range(chars@, from as int, to as int, quote),
            whole == continue_with(out@, unescape_range(chars@, i as int, to as int, quote)),
        decreases to - i,
    {
        let ghost before = out@;
        let c = chars[i];
        let step: usize;
        let decoded: char;
        if c != '\\' {
            decoded = c;
            step = 1;
        } else if to - i < 2 {
            return Err(Error::InvalidEscapeSequence);
        } else if chars[i + 1] == 'u' {
            match hex4(chars, i + 2, to) {
                None => {
                    return Err(Error::InvalidEscapeSequence);
                },
                Some(code) => match char_from_code(code) {
                    None => {
                        return Err(Error::InvalidUtfCode);
                    },
                    Some(ch) => {
                        decoded = ch;
                        step = 6;
                    },
                },
            }
        } else {
            match escape_letter(chars[i + 1], quote) {
                None => {
                    return Err(Error::InvalidEscapeSequence);
                },
                Some(ch) => {
                    decoded = ch;
                    step = 2;
                },
            }
        }
        push_char(&mut out, decoded);
        proof {
            let rest = unescape_range(chars@, i + step, to as int, quote);
            assert(unescape_range(chars@, i as int, to as int, quote) == prepend(decoded, rest));
            if rest is Ok {
                assert(before + (seq![decoded] + rest->Ok_0) =~= before.push(decoded)
                    + rest->Ok_0);
            }
        }
        i += step;
    }
    assert(out@ + Seq::<char>::empty() =~= out@);
    Ok(out)
}

/// Decodes the inside of a string literal written between double quotes.
pub fn parse_quoted_string(body: &str) -> (r: Result<String, Error>)
    ensures
        match r {
            Ok(text) => unescape(body@, '"') == Ok::<Seq<char>, ErrorView>(text@),
            Err(e) => unescape(body@, '"') == Err::<Seq<char>, ErrorView>(e@),
        },
{
    let chars = chars_of(body);
    decode_escapes(&chars, 0, chars.len(), '"')
}

/// Decodes the inside of a string literal written between single quotes.
pub fn parse_s_quoted_string(body: &str) -> (r: Result<String, Error>)
    ensures
        match r {
            Ok(text) => unescape(body@, '\'') == Ok::<Seq<char>, ErrorView>(text@),
            Err(e) => unescape(body@, '\'') == Err::<Seq<char>, ErrorView>(e@),
        },
{
    let chars = chars_of(body);
    decode_escapes(&chars, 0, chars.len(), '\'')
}

/// Decodes the inside of a raw string literal: the text as it stands.
pub fn parse_raw_string(body: &str) -> (r: Result<String, Error>)
    ensures
        r matches Ok(text) && text@ == body@,
{
    Ok(String::from_str(body))
}

} // verus!
