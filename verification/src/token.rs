//! The tokens of the expression language and where each ends in a text.
use crate::error::ErrorView;
use crate::literal::{
    decode_digits, digit_of, is_separator, unescape_range, without_separators,
};
use crate::value::{Value, ValueView};
use vstd::prelude::*;

verus! {

/// A sign of the language: an operator or a bracket.
#[derive(Clone, Copy, Debug, PartialEq, Eq, Structural)]
pub enum Sym {
    /// `||`
    Or,
    /// `&&`
    And,
    /// `>`
    Gt,
    /// `<`
    Lt,
    /// `>=`
    Ge,
    /// `<=`
    Le,
    /// `%`
    Percent,
    /// `=`
    Equal,
    /// `!=`
    NotEqual,
    /// `+`
    Plus,
    /// `-`
    Dash,
    /// `*`
    Star,
    /// `/`
    Slash,
    /// `^`
    Caret,
    /// `~~`
    Coalesce,
    /// `!`
    Bang,
    /// `(`
    Open,
    /// `)`
    Close,
}

/// A token: a sign, a literal with its value, or a float literal with its
/// text, separators removed, which a float unit has yet to read.
#[derive(Debug, PartialEq)]
pub enum Token {
    Sym(Sym),
    Lit(Value),
    Float(String),
}

/// What a [`Token`] is in specifications.
pub enum TokenView {
    Sym(Sym),
    Lit(ValueView),
    Float(Seq<char>),
}

impl View for Token {
    type V = TokenView;

    open spec fn view(&self) -> TokenView {
        match self {
            Token::Sym(s) => TokenView::Sym(*s),
            Token::Lit(v) => TokenView::Lit(v@),
            Token::Float(t) => TokenView::Float(t@),
        }
    }
}

/// The views of the tokens of `tokens`, in order.
pub open spec fn token_views(tokens: Seq<Token>) -> Seq<TokenView> {
    Seq::new(tokens.len(), |i: int| tokens[i]@)
}

/// Blank, tab, line feed and carriage return separate tokens and mean nothing.
pub open spec fn is_space(c: char) -> bool {
    c == ' ' || c == '\t' || c == '\n' || c == '\r'
}

/// The first position at or after `i` that holds no space.
pub open spec fn skip_spaces(s: Seq<char>, i: int) -> int
    decreases s.len() - i,
{
    if 0 <= i < s.len() && is_space(s[i]) {
        skip_spaces(s, i + 1)
    } else {
        i
    }
}

/// The first position at or after `i` that holds neither a digit of the radix
/// nor a separator.
pub open spec fn digits_end(s: Seq<char>, i: int, radix: int) -> int
    decreases s.len() - i,
{
    if 0 <= i < s.len() && (is_separator(s[i]) || digit_of(s[i]) < radix) {
        digits_end(s, i + 1, radix)
    } else {
        i
    }
}

/// The first position at or after `i` that holds no `#`.
pub open spec fn hashes_end(s: Seq<char>, i: int) -> int
    decreases s.len() - i,
{
    if 0 <= i < s.len() && s[i] == '#' {
        hashes_end(s, i + 1)
    } else {
        i
    }
}

/// The sign that starts at `s[i]` and the number of characters it takes. A sign
/// of two characters wins over the sign that its first character is alone.
pub open spec fn symbol_at(s: Seq<char>, i: int) -> Option<(Sym, int)> {
    let c = s[i];
    let d = if i + 1 < s.len() {
        s[i + 1]
    } else {
        ' '
    };
    if c == '|' && d == '|' {
        Some((Sym::Or, 2))
    } else if c == '&' && d == '&' {
        Some((Sym::And, 2))
    } else if c == '>' && d == '=' {
        Some((Sym::Ge, 2))
    } else if c == '<' && d == '=' {
        Some((Sym::Le, 2))
    } else if c == '!' && d == '=' {
        Some((Sym::NotEqual, 2))
    } else if c == '~' && d == '~' {
        Some((Sym::Coalesce, 2))
    } else if c == '>' {
        Some((Sym::Gt, 1))
    } else if c == '<' {
        Some((Sym::Lt, 1))
    } else if c == '%' {
        Some((Sym::Percent, 1))
    } else if c == '=' {
        Some((Sym::Equal, 1))
    } else if c == '+' {
        Some((Sym::Plus, 1))
    } else if c == '-' {
        Some((Sym::Dash, 1))
    } else if c == '*' {
        Some((Sym::Star, 1))
    } else if c == '/' {
        Some((Sym::Slash, 1))
    } else if c == '^' {
        Some((Sym::Caret, 1))
    } else if c == '!' {
        Some((Sym::Bang, 1))
    } else if c == '(' {
        Some((Sym::Open, 1))
    } else if c == ')' {
        Some((Sym::Close, 1))
    } else {
        None
    }
}

/// The radix that the letter after a leading `0` announces.
pub open spec fn prefix_radix(c: char) -> Option<int> {
    if c == 'x' {
        Some(16)
    } else if c == 'o' {
        Some(8)
    } else if c == 'b' {
        Some(2)
    } else {
        None
    }
}

/// Where the exponent that starts at `s[b]` ends: an `e` of either case, a sign
/// or none, and at least one digit or separator. Where no exponent starts at
/// `b`, this is `b`.
pub open spec fn exponent_end(s: Seq<char>, b: int) -> int {
    if 0 <= b < s.len() && (s[b] == 'e' || s[b] == 'E') {
        let d = if b + 1 < s.len() && (s[b + 1] == '+' || s[b + 1] == '-') {
            b + 2
        } else {
            b + 1
        };
        let e = digits_end(s, d, 10);
        if e > d {
            e
        } else {
            b
        }
    } else {
        b
    }
}

/// Where the fraction that starts at `s[a]` ends: a point and any digits and
/// separators. Where no point stands at `a`, this is `a`.
pub open spec fn fraction_end(s: Seq<char>, a: int) -> int {
    if 0 <= a < s.len() && s[a] == '.' {
        digits_end(s, a + 1, 10)
    } else {
        a
    }
}

/// An integer with a radix prefix starts at `s[i]`: `0`, one of `x`, `o`, `b`,
/// and a digit of that radix.
pub open spec fn prefixed_at(s: Seq<char>, i: int) -> bool {
    &&& i + 2 < s.len()
    &&& s[i] == '0'
    &&& prefix_radix(s[i + 1]) matches Some(radix)
    &&& digit_of(s[i + 2]) < radix
}

/// The number that starts at `s[i]`, a decimal digit, and where it ends.
///
/// With a radix prefix it is an integer of that radix. Otherwise it is a run of
/// decimal digits and separators, and an integer unless a fraction or an
/// exponent follows, which make it a float.
pub open spec fn number_at(s: Seq<char>, i: int) -> Result<(TokenView, int), ErrorView> {
    if prefixed_at(s, i) {
        let radix = prefix_radix(s[i + 1])->Some_0;
        let end = digits_end(s, i + 2, radix);
        match decode_digits(s.subrange(i + 2, end), radix) {
            Ok(v) => Ok((TokenView::Lit(ValueView::Int(v)), end)),
            Err(e) => Err(e),
        }
    } else {
        let a = digits_end(s, i, 10);
        let c = exponent_end(s, fraction_end(s, a));
        if c == a {
            match decode_digits(s.subrange(i, a), 10) {
                Ok(v) => Ok((TokenView::Lit(ValueView::Int(v)), a)),
                Err(e) => Err(e),
            }
        } else {
            Ok((TokenView::Float(without_separators(s.subrange(i, c))), c))
        }
    }
}

/// The position of the quote that closes a string whose inside starts at `j`:
/// the first `quote` at or after `j` that no backslash stands before. A
/// backslash takes the character after it with it.
pub open spec fn closing_quote(s: Seq<char>, j: int, quote: char) -> Option<int>
    decreases s.len() - j,
{
    if j < 0 || j >= s.len() {
        None
    } else if s[j] == quote {
        Some(j)
    } else if s[j] == '\\' {
        if j + 1 < s.len() {
            closing_quote(s, j + 2, quote)
        } else {
            None
        }
    } else {
        closing_quote(s, j + 1, quote)
    }
}

/// The string that starts with the quote at `s[i]`, and where it ends.
pub open spec fn quoted_at(s: Seq<char>, i: int) -> Result<(TokenView, int), ErrorView> {
    match closing_quote(s, i + 1, s[i]) {
        None => Err(ErrorView::Parse),
        Some(k) => match unescape_range(s, i + 1, k, s[i]) {
            Ok(text) => Ok((TokenView::Lit(ValueView::Text(text)), k + 1)),
            Err(e) => Err(e),
        },
    }
}

/// The position of the double quote that closes a raw string fenced by `n`
/// hashes: the first double quote at or after `j` that at least `n` hashes
/// follow.
pub open spec fn raw_close(s: Seq<char>, j: int, n: int) -> Option<int>
    decreases s.len() - j,
{
    if j < 0 || j >= s.len() {
        None
    } else if s[j] == '"' && hashes_end(s, j + 1) - (j + 1) >= n {
        Some(j)
    } else {
        raw_close(s, j + 1, n)
    }
}

/// A raw string starts at `s[i]`: `r`, any number of hashes, a double quote.
pub open spec fn raw_at(s: Seq<char>, i: int) -> bool {
    &&& s[i] == 'r'
    &&& hashes_end(s, i + 1) < s.len()
    &&& s[hashes_end(s, i + 1)] == '"'
}

/// The raw string that starts at `s[i]`, and where it ends. Between its fences
/// nothing is an escape.
pub open spec fn raw_string_at(s: Seq<char>, i: int) -> Result<(TokenView, int), ErrorView> {
    let h = hashes_end(s, i + 1);
    let n = h - (i + 1);
    match raw_close(s, h + 1, n) {
        None => Err(ErrorView::Parse),
        Some(k) => Ok((TokenView::Lit(ValueView::Text(s.subrange(h + 1, k))), k + 1 + n)),
    }
}

/// The characters of `word` stand at `s[i..]`.
pub open spec fn word_at(s: Seq<char>, i: int, word: Seq<char>) -> bool {
    &&& i + word.len() <= s.len()
    &&& forall|k: int| 0 <= k < word.len() ==> s[i + k] == word[k]
}

/// The token that starts at `s[i]`, which is no space, and where it ends.
pub open spec fn token_at(s: Seq<char>, i: int) -> Result<(TokenView, int), ErrorView> {
    if symbol_at(s, i) is Some {
        Ok((TokenView::Sym(symbol_at(s, i)->Some_0.0), i + symbol_at(s, i)->Some_0.1))
    } else if digit_of(s[i]) < 10 {
        number_at(s, i)
    } else if s[i] == '"' || s[i] == '\'' {
        quoted_at(s, i)
    } else if raw_at(s, i) {
        raw_string_at(s, i)
    } else if word_at(s, i, seq!['n', 'u', 'l', 'l']) {
        Ok((TokenView::Lit(ValueView::Null), i + 4))
    } else if word_at(s, i, seq!['t', 'r', 'u', 'e']) {
        Ok((TokenView::Lit(ValueView::Bool(true)), i + 4))
    } else if word_at(s, i, seq!['f', 'a', 'l', 's', 'e']) {
        Ok((TokenView::Lit(ValueView::Bool(false)), i + 5))
    } else {
        Err(ErrorView::Parse)
    }
}

/// `t` put in front of the tokens `rest`, where there are any.
pub open spec fn token_then(t: TokenView, rest: Result<Seq<TokenView>, ErrorView>) -> Result<
    Seq<TokenView>,
    ErrorView,
> {
    match rest {
        Ok(ts) => Ok(seq![t] + ts),
        Err(e) => Err(e),
    }
}

/// The tokens of `s[i..]`. Spaces between tokens are dropped; the first place
/// where no token starts, or where a literal cannot be decoded, decides the
/// error.
pub open spec fn tokens_from(s: Seq<char>, i: int) -> Result<Seq<TokenView>, ErrorView>
    decreases s.len() - i,
{
    let j = skip_spaces(s, i);
    if !(0 <= i <= j < s.len()) {
        Ok(Seq::empty())
    } else {
        match token_at(s, j) {
            Err(e) => Err(e),
            Ok((t, k)) => if j < k <= s.len() {
                token_then(t, tokens_from(s, k))
            } else {
                Err(ErrorView::Parse)
            },
        }
    }
}

/// The tokens of the text `s`.
pub open spec fn tokens_of(s: Seq<char>) -> Result<Seq<TokenView>, ErrorView> {
    tokens_from(s, 0)
}

/// The token is no literal with a float in its value: floats are written as
/// float literals.
pub open spec fn is_scalar(t: TokenView) -> bool {
    t matches TokenView::Lit(v) ==> v.float_free()
}

/// Every token of `ts` is scalar.
pub open spec fn all_scalar(ts: Seq<TokenView>) -> bool {
    forall|k: int| 0 <= k < ts.len() ==> is_scalar(#[trigger] ts[k])
}

/// The tokens of a text are scalar.
pub proof fn lemma_tokens_scalar(s: Seq<char>, i: int)
    requires
        tokens_from(s, i) is Ok,
    ensures
        all_scalar(tokens_from(s, i)->Ok_0),
    decreases s.len() - i,
{
    let j = skip_spaces(s, i);
    if 0 <= i <= j < s.len() {
        let (t, k) = token_at(s, j)->Ok_0;
        lemma_tokens_scalar(s, k);
        let rest = tokens_from(s, k)->Ok_0;
        let all = seq![t] + rest;
        assert forall|n: int| 0 <= n < all.len() implies is_scalar(#[trigger] all[n]) by {
            if n > 0 {
                assert(all[n] == rest[n - 1]);
            }
        }
    }
}

} // verus!
