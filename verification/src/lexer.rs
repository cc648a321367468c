//! Cutting a text into tokens.
use crate::error::{Error, ErrorView};
use crate::literal::{
    decode_digits, decode_escapes, digit_of, digit_value, is_separator, parse_digits,
    without_separators,
};
use crate::text::{chars_of, push_char, string_of};
use crate::token::{
    closing_quote, digits_end, hashes_end, number_at, prefix_radix, prefixed_at, quoted_at,
    raw_at, raw_close, raw_string_at, skip_spaces, symbol_at, token_at, token_then, token_views,
    tokens_from, tokens_of, word_at, Sym, Token, TokenView,
};
use crate::value::{Value, ValueView};
use vstd::prelude::*;

verus! {

/// What a scanned token and its end are in specifications.
pub open spec fn scanned_view(r: Result<(Token, usize), Error>) -> Result<
    (TokenView, int),
    ErrorView,
> {
    match r {
        Ok((t, end)) => Ok((t@, end as int)),
        Err(e) => Err(e@),
    }
}

/// What a list of tokens, or the failure to make one, is in specifications.
pub open spec fn tokens_view(r: Result<Vec<Token>, Error>) -> Result<Seq<TokenView>, ErrorView> {
    match r {
        Ok(tokens) => Ok(token_views(tokens@)),
        Err(e) => Err(e@),
    }
}

/// The first position at or after `i` that holds no space.
pub fn skip_blank(chars: &Vec<char>, i: usize) -> (j: usize)
    requires
        i <= chars.len(),
    ensures
        j == skip_spaces(chars@, i as int),
        i <= j <= chars.len(),
{
    let mut j: usize = i;
    while j < chars.len() && (chars[j] == ' ' || chars[j] == '\t' || chars[j] == '\n' || chars[j]
        == '\r')
        invariant
            i <= j <= chars.len(),
            skip_spaces(chars@, i as int) == skip_spaces(chars@, j as int),
        decreases chars.len() - j,
    {
        j += 1;
    }
    j
}

/// The first position at or after `i` that holds neither a digit of the radix
/// nor a separator.
pub fn scan_digits(chars: &Vec<char>, i: usize, radix: u32) -> (j: usize)
    requires
        i <= chars.len(),
    ensures
        j == digits_end(chars@, i as int, radix as int),
        i <= j <= chars.len(),
{
    let mut j: usize = i;
    while j < chars.len() && (chars[j] == '_' || digit_value(chars[j]) < radix)
        invariant
            i <= j <= chars.len(),
            digits_end(chars@, i as int, radix as int) == digits_end(
                chars@,
                j as int,
                radix as int,
            ),
        decreases chars.len() - j,
    {
        j += 1;
    }
    j
}

/// The first position at or after `i` that holds no `#`.
pub fn scan_hashes(chars: &Vec<char>, i: usize) -> (j: usize)
    requires
        i <= chars.len(),
    ensures
        j == hashes_end(chars@, i as int),
        i <= j <= chars.len(),
{
    let mut j: usize = i;
    while j < chars.len() && chars[j] == '#'
        invariant
            i <= j <= chars.len(),
            hashes_end(chars@, i as int) == hashes_end(chars@, j as int),
        decreases chars.len() - j,
    {
        j += 1;
    }
    j
}

/// The sign that starts at `chars[i]`, and the number of characters it takes.
pub fn symbol(chars: &Vec<char>, i: usize) -> (r: Option<(Sym, usize)>)
    requires
        i < chars.len(),
    ensures
        match r {
            Some((sym, n)) => symbol_at(chars@, i as int) == Some((sym, n as int)) && 1 <= n
                && i + n <= chars.len(),
            None => symbol_at(chars@, i as int) is None,
        },
{
    let c = chars[i];
    let d = if i + 1 < chars.len() {
        chars[i + 1]
    } else {
        ' '
    };
    if c == '|' && d == '|' {
        Some((Sym::Or, 2))
    } else if c == '&' && d == '&' {
        Some((Sym::And, 2))
    } else if c == '>' && d == '=' {
        Some((Sym::Ge, 2))
    } else if c == '<' && d == '=' {
        Some((Sym::Le, 2))
    } else if c == '!' && d == '=' {
        Some((Sym::NotEqual, 2))
    } else if c == '~' && d == '~' {
        Some((Sym::Coalesce, 2))
    } else if c == '>' {
        Some((Sym::Gt, 1))
    } else if c == '<' {
        Some((Sym::Lt, 1))
    } else if c == '%' {
        Some((Sym::Percent, 1))
    } else if c == '=' {
        Some((Sym::Equal, 1))
    } else if c == '+' {
        Some((Sym::Plus, 1))
    } else if c == '-' {
        Some((Sym::Dash, 1))
    } else if c == '*' {
        Some((Sym::Star, 1))
    } else if c == '/' {
        Some((Sym::Slash, 1))
    } else if c == '^' {
        Some((Sym::Caret, 1))
    } else if c == '!' {
        Some((Sym::Bang, 1))
    } else if c == '(' {
        Some((Sym::Open, 1))
    } else if c == ')' {
        Some((Sym::Close, 1))
    } else {
        None
    }
}

/// The characters `chars[from..to]` without the separators among them.
pub fn strip_separators(chars: &Vec<char>, from: usize, to: usize) -> (text: String)
    requires
        from <= to <= chars.len(),
    ensures
        text@ == without_separators(chars@.subrange(from as int, to as int)),
{
    let ghost s = chars@.subrange(from as int, to as int);
    let mut text = String::new();
    let mut i: usize = from;
    proof {
        reveal(Seq::filter);
        assert(s.take(0) =~= Seq::<char>::empty());
    }
    while i < to
        invariant
            from <= i <= to <= chars.len(),
            s == chars@.subrange(from as int, to as int),
            text@ == without_separators(s.take(i - from)),
        decreases to - i,
    {
        proof {
            reveal(Seq::filter);
            let k = i - from;
            assert(s.take(k + 1).drop_last() =~= s.take(k));
            assert(s.take(k + 1).last() == chars[i as int]);
        }
        if chars[i] != '_' {
            push_char(&mut text, chars[i]);
        }
        i += 1;
    }
    assert(s.take(to - from) =~= s);
    text
}

/// The radix that the letter after a leading `0` announces.
pub fn radix_of(c: char) -> (r: Option<u32>)
    ensures
        match r {
            Some(radix) => prefix_radix(c) == Some(radix as int) && 2 <= radix <= 16,
            None => prefix_radix(c) is None,
        },
{
    if c == 'x' {
        Some(16)
    } else if c == 'o' {
        Some(8)
    } else if c == 'b' {
        Some(2)
    } else {
        None
    }
}

/// What an integer literal decodes to, as a token that ends at `end`.
fn integer(chars: &Vec<char>, from: usize, end: usize, radix: u32) -> (r: Result<
    (Token, usize),
    Error,
>)
    requires
        from <= end <= chars.len(),
        2 <= radix <= 36,
    ensures
        scanned_view(r) == (match decode_digits(
            chars@.subrange(from as int, end as int),
            radix as int,
        ) {
            Ok(v) => Ok::<(TokenView, int), ErrorView>(
                (TokenView::Lit(ValueView::Int(v)), end as int),
            ),
            Err(e) => Err(e),
        }),
        r matches Ok((_, e)) ==> e == end,
{
    match parse_digits(chars, from, end, radix) {
        Ok(v) => Ok((Token::Lit(Value::Int(v)), end)),
        Err(e) => Err(e),
    }
}

/// The number that starts at `chars[i]`, a decimal digit, and where it ends.
pub fn number(chars: &Vec<char>, i: usize) -> (r: Result<(Token, usize), Error>)
    requires
        i < chars.len(),
        digit_of(chars[i as int]) < 10,
    ensures
        scanned_view(r) == number_at(chars@, i as int),
        r matches Ok((_, end)) ==> i < end <= chars.len(),
{
    if chars.len() - i > 2 && chars[i] == '0' {
        if let Some(radix) = radix_of(chars[i + 1]) {
            if digit_value(chars[i + 2]) < radix {
                let end = scan_digits(chars, i + 2, radix);
                return integer(chars, i + 2, end, radix);
            }
        }
    }
    assert(!prefixed_at(chars@, i as int));
    let a = scan_digits(chars, i, 10);
    assert(a > i) by {
        assert(digits_end(chars@, i as int, 10) == digits_end(chars@, i + 1, 10));
        lemma_digits_end_bounds(chars@, i + 1, 10);
    }
    let b = if a < chars.len() && chars[a] == '.' {
        scan_digits(chars, a + 1, 10)
    } else {
        a
    };
    let mut c = b;
    if b < chars.len() && (chars[b] == 'e' || chars[b] == 'E') {
        let d = if b + 1 < chars.len() && (chars[b + 1] == '+' || chars[b + 1] == '-') {
            b + 2
        } else {
            b + 1
        };
        let e = scan_digits(chars, d, 10);
        if e > d {
            c = e;
        }
    }
    if c == a {
        integer(chars, i, a, 10)
    } else {
        Ok((Token::Float(strip_separators(chars, i, c)), c))
    }
}

/// A run of digits ends at or after its start, within the text.
pub proof fn lemma_digits_end_bounds(s: Seq<char>, i: int, radix: int)
    requires
        0 <= i <= s.len(),
    ensures
        i <= digits_end(s, i, radix) <= s.len(),
    decreases s.len() - i,
{
    if i < s.len() && (is_separator(s[i]) || digit_of(s[i]) < radix) {
        lemma_digits_end_bounds(s, i + 1, radix);
    }
}

/// The position of the quote that closes a string whose inside starts at `j`.
pub fn find_quote(chars: &Vec<char>, j: usize, quote: char) -> (r: Option<usize>)
    requires
        j <= chars.len(),
    ensures
        match r {
            Some(k) => closing_quote(chars@, j as int, quote) == Some(k as int) && j <= k
                < chars.len(),
            None => closing_quote(chars@, j as int, quote) is None,
        },
{
    let mut k: usize = j;
    while k < chars.len()
        invariant
            j <= k <= chars.len(),
            closing_quote(chars@, j as int, quote) == closing_quote(chars@, k as int, quote),
        decreases chars.len() - k,
    {
        if chars[k] == quote {
            return Some(k);
        } else if chars[k] == '\\' {
            if chars.len() - k < 2 {
                return None;
            }
            k += 2;
        } else {
            k += 1;
        }
    }
    None
}

/// The string that starts with the quote at `chars[i]`, and where it ends.
pub fn quoted(chars: &Vec<char>, i: usize) -> (r: Result<(Token, usize), Error>)
    requires
        i < chars.len(),
    ensures
        scanned_view(r) == quoted_at(chars@, i as int),
        r matches Ok((_, end)) ==> i < end <= chars.len(),
{
    match find_quote(chars, i + 1, chars[i]) {
        None => Err(Error::Parse),
        Some(k) => match decode_escapes(chars, i + 1, k, chars[i]) {
            Ok(text) => Ok((Token::Lit(Value::Text(text)), k + 1)),
            Err(e) => Err(e),
        },
    }
}

/// The position of the double quote that closes a raw string fenced by `n`
/// hashes and whose inside starts at `j`.
pub fn find_raw_close(chars: &Vec<char>, j: usize, n: usize) -> (r: Option<usize>)
    requires
        j <= chars.len(),
    ensures
        match r {
            Some(k) => raw_close(chars@, j as int, n as int) == Some(k as int) && j <= k && k + 1
                + n <= chars.len(),
            None => raw_close(chars@, j as int, n as int) is None,
        },
{
    let mut k: usize = j;
    while k < chars.len()
        invariant
            j <= k <= chars.len(),
            raw_close(chars@, j as int, n as int) == raw_close(chars@, k as int, n as int),
        decreases chars.len() - k,
    {
        if chars[k] == '"' {
            let h = scan_hashes(chars, k + 1);
            if h - (k + 1) >= n {
                return Some(k);
            }
        }
        k += 1;
    }
    None
}

/// The raw string that starts at `chars[i]`, where one starts there, and where
/// it ends.
pub fn raw_string(chars: &Vec<char>, i: usize) -> (r: Option<Result<(Token, usize), Error>>)
    requires
        i < chars.len(),
    ensures
        match r {
            Some(found) => raw_at(chars@, i as int) && scanned_view(found) == raw_string_at(
                chars@,
                i as int,
            ) && (found matches Ok((_, end)) ==> i < end <= chars.len()),
            None => !raw_at(chars@, i as int),
        },
{
    if chars[i] != 'r' {
        return None;
    }
    let h = scan_hashes(chars, i + 1);
    if h >= chars.len() || chars[h] != '"' {
        return None;
    }
    let n = h - (i + 1);
    match find_raw_close(chars, h + 1, n) {
        None => Some(Err(Error::Parse)),
        Some(k) => Some(Ok((Token::Lit(Value::Text(string_of(chars, h + 1, k))), k + 1 + n))),
    }
}

/// Whether the characters of `null` stand at `chars[i..]`.
fn is_null_at(chars: &Vec<char>, i: usize) -> (b: bool)
    requires
        i < chars.len(),
    ensures
        b == word_at(chars@, i as int, seq!['n', 'u', 'l', 'l']),
{
    let ghost w = seq!['n', 'u', 'l', 'l'];
    if chars.len() - i >= 4 && chars[i] == 'n' && chars[i + 1] == 'u' && chars[i + 2] == 'l'
        && chars[i + 3] == 'l' {
        true
    } else {
        proof {
            if word_at(chars@, i as int, w) {
                assert(chars@[i + 0] == w[0]);
                assert(chars@[i + 1] == w[1]);
                assert(chars@[i + 2] == w[2]);
                assert(chars@[i + 3] == w[3]);
            }
        }
        false
    }
}

/// Whether the characters of `true` stand at `chars[i..]`.
fn is_true_at(chars: &Vec<char>, i: usize) -> (b: bool)
    requires
        i < chars.len(),
    ensures
        b == word_at(chars@, i as int, seq!['t', 'r', 'u', 'e']),
{
    let ghost w = seq!['t', 'r', 'u', 'e'];
    if chars.len() - i >= 4 && chars[i] == 't' && chars[i + 1] == 'r' && chars[i + 2] == 'u'
        && chars[i + 3] == 'e' {
        true
    } else {
        proof {
            if word_at(chars@, i as int, w) {
                assert(chars@[i + 0] == w[0]);
                assert(chars@[i + 1] == w[1]);
                assert(chars@[i + 2] == w[2]);
                assert(chars@[i + 3] == w[3]);
            }
        }
        false
    }
}

/// Whether the characters of `false` stand at `chars[i..]`.
fn is_false_at(chars: &Vec<char>, i: usize) -> (b: bool)
    requires
        i < chars.len(),
    ensures
        b == word_at(chars@, i as int, seq!['f', 'a', 'l', 's', 'e']),
{
    let ghost w = seq!['f', 'a', 'l', 's', 'e'];
    if chars.len() - i >= 5 && chars[i] == 'f' && chars[i + 1] == 'a' && chars[i + 2] == 'l'
        && chars[i + 3] == 's' && chars[i + 4] == 'e' {
        true
    } else {
        proof {
            if word_at(chars@, i as int, w) {
                assert(chars@[i + 0] == w[0]);
                assert(chars@[i + 1] == w[1]);
                assert(chars@[i + 2] == w[2]);
                assert(chars@[i + 3] == w[3]);
                assert(chars@[i + 4] == w[4]);
            }
        }
        false
    }
}

/// The token that starts at `chars[i]`, which is no space, and where it ends.
pub fn next_token(chars: &Vec<char>, i: usize) -> (r: Result<(Token, usize), Error>)
    requires
        i < chars.len(),
    ensures
        scanned_view(r) == token_at(chars@, i as int),
        r matches Ok((_, end)) ==> i < end <= chars.len(),
{
    if let Some((sym, n)) = symbol(chars, i) {
        return Ok((Token::Sym(sym), i + n));
    }
    if digit_value(chars[i]) < 10 {
        return number(chars, i);
    }
    if chars[i] == '"' || chars[i] == '\'' {
        return quoted(chars, i);
    }
    if let Some(found) = raw_string(chars, i) {
        return found;
    }
    if is_null_at(chars, i) {
        Ok((Token::Lit(Value::Null), i + 4))
    } else if is_true_at(chars, i) {
        Ok((Token::Lit(Value::Bool(true)), i + 4))
    } else if is_false_at(chars, i) {
        Ok((Token::Lit(Value::Bool(false)), i + 5))
    } else {
        Err(Error::Parse)
    }
}

/// The tokens `done`, followed by the tokens `rest`.
pub open spec fn tokens_then(done: Seq<TokenView>, rest: Result<Seq<TokenView>, ErrorView>)
    -> Result<Seq<TokenView>, ErrorView> {
    match rest {
        Ok(ts) => Ok(done + ts),
        Err(e) => Err(e),
    }
}

/// Cuts `chars` into its tokens.
pub fn tokenize_chars(chars: &Vec<char>) -> (r: Result<Vec<Token>, Error>)
    ensures
        tokens_view(r) == tokens_of(chars@),
{
    let mut tokens: Vec<Token> = Vec::new();
    let mut i: usize = 0;
    assert(token_views(tokens@) =~= Seq::<TokenView>::empty());
    assert(tokens_then(Seq::empty(), tokens_of(chars@)) == tokens_of(chars@)) by {
        if tokens_of(chars@) is Ok {
            assert(Seq::<TokenView>::empty() + tokens_of(chars@)->Ok_0 =~= tokens_of(
                chars@,
            )->Ok_0);
        }
    }
    loop
        invariant
            i <= chars.len(),
            tokens_of(chars@) == tokens_then(token_views(tokens@), tokens_from(chars@, i as int)),
        decreases chars.len() - i,
    {
        let j = skip_blank(chars, i);
        if j >= chars.len() {
            assert(token_views(tokens@) + Seq::<TokenView>::empty() =~= token_views(tokens@));
            return Ok(tokens);
        }
        match next_token(chars, j) {
            Err(e) => {
                return Err(e);
            },
            Ok((t, k)) => {
                proof {
                    let done = token_views(tokens@);
                    let rest = tokens_from(chars@, k as int);
                    assert(tokens_from(chars@, i as int) == token_then(t@, rest));
                    assert(token_views(tokens@.push(t)) =~= done.push(t@));
                    if rest is Ok {
                        assert(done + (seq![t@] + rest->Ok_0) =~= done.push(t@) + rest->Ok_0);
                    }
                }
                tokens.push(t);
                i = k;
            },
        }
    }
}

/// Cuts the text `inp` into its tokens.
pub fn tokenize(inp: &str) -> (r: Result<Vec<Token>, Error>)
    ensures
        tokens_view(r) == tokens_of(inp@),
{
    let chars = chars_of(inp);
    tokenize_chars(&chars)
}

} // verus!
