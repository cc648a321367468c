//! The grammar of expressions over tokens, and the parser for it.
use crate::climb::{climb, infix_tree, lemma_infix_tree_blind, lemma_infix_tree_float_free};
use crate::error::{Error, ErrorView};
use crate::expr::{
    blind_all, expr_views, lemma_apply_blind, lemma_apply_view, lemma_float_free_expr_blind, Expr,
    ExprView,
};
use crate::float::FloatUnit;
use crate::lexer::tokenize;
use crate::op::Op;
use crate::token::{
    all_scalar, is_scalar, lemma_tokens_scalar, token_views, tokens_of, Sym, Token, TokenView,
};
use crate::value::{Value, ValueView};
use vstd::prelude::*;

verus! {

/// The operator that the sign is when it stands between two operands.
pub open spec fn infix_of(sym: Sym) -> Option<Op> {
    match sym {
        Sym::Or => Some(Op::Or),
        Sym::And => Some(Op::And),
        Sym::Gt => Some(Op::Gt),
        Sym::Lt => Some(Op::Lt),
        Sym::Ge => Some(Op::Ge),
        Sym::Le => Some(Op::Le),
        Sym::Percent => Some(Op::Mod),
        Sym::Equal => Some(Op::Eq),
        Sym::NotEqual => Some(Op::Neq),
        Sym::Plus => Some(Op::Add),
        Sym::Dash => Some(Op::Sub),
        Sym::Star => Some(Op::Mul),
        Sym::Slash => Some(Op::Div),
        Sym::Caret => Some(Op::Pow),
        Sym::Coalesce => Some(Op::Coalesce),
        Sym::Bang | Sym::Open | Sym::Close => None,
    }
}

/// The operator that the sign is when it stands before a term.
pub open spec fn prefix_of(sym: Sym) -> Option<Op> {
    match sym {
        Sym::Bang => Some(Op::Neg),
        Sym::Dash => Some(Op::Minus),
        _ => None,
    }
}

/// The infix operator at `ts[i]`, where one stands there.
pub open spec fn infix_at(ts: Seq<TokenView>, i: int) -> Option<Op> {
    if 0 <= i < ts.len() && ts[i] is Sym {
        infix_of(ts[i]->Sym_0)
    } else {
        None
    }
}

/// The prefix operator at `ts[i]`, where one stands there.
pub open spec fn prefix_at(ts: Seq<TokenView>, i: int) -> Option<Op> {
    if 0 <= i < ts.len() && ts[i] is Sym {
        prefix_of(ts[i]->Sym_0)
    } else {
        None
    }
}

/// The term that starts at `ts[i]` and where it ends: a literal, or an
/// expression between brackets. A float literal stands for the float whose bits
/// are all zero, whatever its text.
pub open spec fn term_at(ts: Seq<TokenView>, i: int) -> Option<(ExprView, int)>
    decreases ts.len() - i, 0int,
{
    if i < 0 || i >= ts.len() {
        None
    } else {
        match ts[i] {
            TokenView::Lit(v) => Some((ExprView::Const(v.float_blind()), i + 1)),
            TokenView::Float(_) => Some((ExprView::Const(ValueView::Float(0)), i + 1)),
            TokenView::Sym(Sym::Open) => match expr_at(ts, i + 1) {
                Some((e, j)) => if 0 <= j < ts.len() && ts[j] == TokenView::Sym(Sym::Close) {
                    Some((e, j + 1))
                } else {
                    None
                },
                None => None,
            },
            _ => None,
        }
    }
}

/// The operand that starts at `ts[i]` and where it ends: a term, or a prefix
/// operator applied to the term that follows it.
pub open spec fn operand_at(ts: Seq<TokenView>, i: int) -> Option<(ExprView, int)>
    decreases ts.len() - i, 1int,
{
    if i < 0 || i >= ts.len() {
        None
    } else {
        match prefix_at(ts, i) {
            Some(op) => match term_at(ts, i + 1) {
                Some((e, j)) => Some((ExprView::Apply(op, seq![e]), j)),
                None => None,
            },
            None => term_at(ts, i),
        }
    }
}

/// The operands and the infix operators between them that start at `ts[i]`, as
/// far as they go, and where they end.
pub open spec fn chain_at(ts: Seq<TokenView>, i: int) -> Option<(Seq<ExprView>, Seq<Op>, int)>
    decreases ts.len() - i, 2int,
{
    match operand_at(ts, i) {
        None => None,
        Some((e, j)) => match infix_at(ts, j) {
            Some(op) => if i <= j {
                match chain_at(ts, j + 1) {
                    Some((es, os, k)) => Some((seq![e] + es, seq![op] + os, k)),
                    None => None,
                }
            } else {
                None
            },
            None => Some((seq![e], Seq::empty(), j)),
        },
    }
}

/// The expression that starts at `ts[i]` and where it ends: the tree of its
/// operands and operators.
pub open spec fn expr_at(ts: Seq<TokenView>, i: int) -> Option<(ExprView, int)>
    decreases ts.len() - i, 3int,
{
    match chain_at(ts, i) {
        Some((es, os, k)) => Some((infix_tree(os, es, 0, os.len() as int), k)),
        None => None,
    }
}

/// The expression that the tokens `ts` are, where they are one from the first
/// token to the last.
pub open spec fn syntax_of(ts: Seq<TokenView>) -> Option<ExprView> {
    match expr_at(ts, 0) {
        Some((e, k)) => if k == ts.len() {
            Some(e)
        } else {
            None
        },
        None => None,
    }
}

/// The expression that the text `s` writes, floats not looked at.
pub open spec fn parse_spec(s: Seq<char>) -> Result<ExprView, ErrorView> {
    match tokens_of(s) {
        Err(e) => Err(e),
        Ok(ts) => match syntax_of(ts) {
            Some(e) => Ok(e),
            None => Err(ErrorView::Parse),
        },
    }
}

/// A float literal is among the tokens.
pub open spec fn has_float(ts: Seq<TokenView>) -> bool {
    exists|k: int| 0 <= k < ts.len() && ts[k] is Float
}

/// The tokens hold no float: none is a float literal, and none a literal with
/// a float in its value.
pub open spec fn float_free_tokens(ts: Seq<TokenView>) -> bool {
    !has_float(ts) && all_scalar(ts)
}

/// The text `s` has tokens, and a float literal among them.
pub open spec fn mentions_float(s: Seq<char>) -> bool {
    tokens_of(s) matches Ok(ts) && has_float(ts)
}

/// The two ways in which parsing tokens fails: with `Parse`, where the grammar
/// has nothing for them (`absent`), and with `NumericParse`, which the float
/// unit alone decides and which takes a float literal among the tokens.
pub open spec fn parse_failure(err: ErrorView, ts: Seq<TokenView>, absent: bool) -> bool {
    (err == ErrorView::Parse && absent) || (err == ErrorView::NumericParse && has_float(ts))
}

/// The operator that the sign is when it stands between two operands.
pub fn infix_op(sym: Sym) -> (r: Option<Op>)
    ensures
        r == infix_of(sym),
{
    match sym {
        Sym::Or => Some(Op::Or),
        Sym::And => Some(Op::And),
        Sym::Gt => Some(Op::Gt),
        Sym::Lt => Some(Op::Lt),
        Sym::Ge => Some(Op::Ge),
        Sym::Le => Some(Op::Le),
        Sym::Percent => Some(Op::Mod),
        Sym::Equal => Some(Op::Eq),
        Sym::NotEqual => Some(Op::Neq),
        Sym::Plus => Some(Op::Add),
        Sym::Dash => Some(Op::Sub),
        Sym::Star => Some(Op::Mul),
        Sym::Slash => Some(Op::Div),
        Sym::Caret => Some(Op::Pow),
        Sym::Coalesce => Some(Op::Coalesce),
        Sym::Bang | Sym::Open | Sym::Close => None,
    }
}

/// The operator that the sign is when it stands before a term.
pub fn prefix_op(sym: Sym) -> (r: Option<Op>)
    ensures
        r == prefix_of(sym),
{
    match sym {
        Sym::Bang => Some(Op::Neg),
        Sym::Dash => Some(Op::Minus),
        _ => None,
    }
}

/// The infix operator at `tokens[i]`, where one stands there.
fn infix_here(tokens: &Vec<Token>, i: usize) -> (r: Option<Op>)
    ensures
        r == infix_at(token_views(tokens@), i as int),
{
    if i < tokens.len() {
        match &tokens[i] {
            Token::Sym(sym) => infix_op(*sym),
            _ => None,
        }
    } else {
        None
    }
}

/// The prefix operator at `tokens[i]`, where one stands there.
fn prefix_here(tokens: &Vec<Token>, i: usize) -> (r: Option<Op>)
    ensures
        r == prefix_at(token_views(tokens@), i as int),
{
    if i < tokens.len() {
        match &tokens[i] {
            Token::Sym(sym) => prefix_op(*sym),
            _ => None,
        }
    } else {
        None
    }
}

/// What the float unit made of a float literal, as a constant: the float it
/// read, or the failure where it read none.
pub fn float_const(read: Option<u64>) -> (r: Result<Expr, Error>)
    ensures
        match read {
            Some(bits) => r matches Ok(e) && e@ == ExprView::Const(ValueView::Float(bits)),
            None => r matches Err(err) && err@ == ErrorView::NumericParse,
        },
{
    match read {
        Some(bits) => Ok(Expr::Const(Value::Float(bits))),
        None => Err(Error::NumericParse),
    }
}

/// The term that starts at `tokens[i]`, and where it ends.
pub fn build_term<F: FloatUnit>(tokens: &Vec<Token>, i: usize) -> (r: Result<(Expr, usize), Error>)
    ensures
        match r {
            Ok((e, j)) => term_at(token_views(tokens@), i as int) == Some(
                (e@.float_blind(), j as int),
            ) && i < j <= tokens.len() && (float_free_tokens(token_views(tokens@))
                ==> e@.float_free()),
            Err(err) => parse_failure(
                err@,
                token_views(tokens@),
                term_at(token_views(tokens@), i as int) is None,
            ),
        },
    decreases tokens.len() - i, 0int,
{
    let ghost ts = token_views(tokens@);
    if i >= tokens.len() {
        return Err(Error::Parse);
    }
    assert(ts[i as int] == tokens[i as int]@);
    assert(float_free_tokens(ts) ==> is_scalar(ts[i as int]) && !(ts[i as int] is Float));
    match &tokens[i] {
        Token::Lit(v) => Ok((Expr::Const(v.clone()), i + 1)),
        Token::Float(text) => {
            let e = float_const(F::parse(text.as_str()))?;
            Ok((e, i + 1))
        },
        Token::Sym(Sym::Open) => {
            let (e, j) = build_expr::<F>(tokens, i + 1)?;
            if j < tokens.len() {
                assert(ts[j as int] == tokens[j as int]@);
                match &tokens[j] {
                    Token::Sym(Sym::Close) => Ok((e, j + 1)),
                    _ => Err(Error::Parse),
                }
            } else {
                Err(Error::Parse)
            }
        },
        Token::Sym(_) => Err(Error::Parse),
    }
}

/// The operand that starts at `tokens[i]`, and where it ends: a term, or a
/// prefix operator applied to the term that follows it.
pub fn build_expr_primary<F: FloatUnit>(tokens: &Vec<Token>, i: usize) -> (r: Result<
    (Expr, usize),
    Error,
>)
    ensures
        match r {
            Ok((e, j)) => operand_at(token_views(tokens@), i as int) == Some(
                (e@.float_blind(), j as int),
            ) && i < j <= tokens.len() && (float_free_tokens(token_views(tokens@))
                ==> e@.float_free()),
            Err(err) => parse_failure(
                err@,
                token_views(tokens@),
                operand_at(token_views(tokens@), i as int) is None,
            ),
        },
    decreases tokens.len() - i, 1int,
{
    broadcast use lemma_apply_view, lemma_apply_blind;

    if i >= tokens.len() {
        return Err(Error::Parse);
    }
    match prefix_here(tokens, i) {
        Some(op) => {
            let (term, j) = build_term::<F>(tokens, i + 1)?;
            let mut args: Vec<Expr> = Vec::new();
            let ghost inner = term@;
            args.push(term);
            let e = Expr::Apply(op, args);
            proof {
                assert(expr_views(args@) =~= seq![inner]);
                assert(blind_all(seq![inner]) =~= seq![inner.float_blind()]);
            }
            Ok((e, j))
        },
        None => build_term::<F>(tokens, i),
    }
}

/// Operands and operators already read, followed by the rest of the chain.
pub open spec fn chain_then(
    es: Seq<ExprView>,
    os: Seq<Op>,
    rest: Option<(Seq<ExprView>, Seq<Op>, int)>,
) -> Option<(Seq<ExprView>, Seq<Op>, int)> {
    match rest {
        Some((es2, os2, k)) => Some((es + es2, os + os2, k)),
        None => None,
    }
}

/// The expression that starts at `tokens[i]`, and where it ends: its operands
/// and operators are read as far as they go and made into a tree.
pub fn build_expr<F: FloatUnit>(tokens: &Vec<Token>, i: usize) -> (r: Result<(Expr, usize), Error>)
    ensures
        match r {
            Ok((e, j)) => expr_at(token_views(tokens@), i as int) == Some(
                (e@.float_blind(), j as int),
            ) && i < j <= tokens.len() && (float_free_tokens(token_views(tokens@))
                ==> e@.float_free()),
            Err(err) => parse_failure(
                err@,
                token_views(tokens@),
                expr_at(token_views(tokens@), i as int) is None,
            ),
        },
    decreases tokens.len() - i, 2int,
{
    let ghost ts = token_views(tokens@);
    if i >= tokens.len() {
        return Err(Error::Parse);
    }
    let mut operands: Vec<Expr> = Vec::new();
    let mut ops: Vec<Op> = Vec::new();
    let mut at: usize = i;
    proof {
        let whole = chain_at(ts, i as int);
        assert(blind_all(expr_views(operands@)) =~= Seq::<ExprView>::empty());
        if whole is Some {
            assert(Seq::<ExprView>::empty() + whole->Some_0.0 =~= whole->Some_0.0);
            assert(Seq::<Op>::empty() + whole->Some_0.1 =~= whole->Some_0.1);
        }
    }
    loop
        invariant
            ts == token_views(tokens@),
            i <= at <= tokens.len(),
            operands.len() == ops.len(),
            at == i ==> operands.len() == 0,
            float_free_tokens(ts) ==> forall|k: int|
                0 <= k < operands.len() ==> (#[trigger] expr_views(operands@)[k]).float_free(),
            chain_at(ts, i as int) == chain_then(
                blind_all(expr_views(operands@)),
                ops@,
                chain_at(ts, at as int),
            ),
        decreases tokens.len() - at,
    {
        let ghost es = blind_all(expr_views(operands@));
        let ghost os = ops@;
        let (e, j) = build_expr_primary::<F>(tokens, at)?;
        let ghost eb = e@.float_blind();
        let ghost before = expr_views(operands@);
        let ghost ev = e@;
        operands.push(e);
        assert(blind_all(expr_views(operands@)) =~= es.push(eb));
        assert(expr_views(operands@) =~= before.push(ev));
        match infix_here(tokens, j) {
            Some(op) => {
                ops.push(op);
                proof {
                    let rest = chain_at(ts, j + 1);
                    if rest is Some {
                        let (es2, os2, k) = rest->Some_0;
                        assert(es + (seq![eb] + es2) =~= es.push(eb) + es2);
                        assert(os + (seq![op] + os2) =~= os.push(op) + os2);
                    }
                }
                at = j + 1;
            },
            None => {
                proof {
                    assert(es + seq![eb] =~= es.push(eb));
                    assert(os + Seq::<Op>::empty() =~= os);
                    lemma_infix_tree_blind(ops@, expr_views(operands@), 0, ops.len() as int);
                    if float_free_tokens(ts) {
                        lemma_infix_tree_float_free(
                            ops@,
                            expr_views(operands@),
                            0,
                            ops.len() as int,
                        );
                    }
                }
                let tree = climb(&operands, &ops);
                return Ok((tree, j));
            },
        }
    }
}

/// The expression that the tokens are, from the first to the last.
pub fn parse_tokens<F: FloatUnit>(tokens: &Vec<Token>) -> (r: Result<Expr, Error>)
    ensures
        match r {
            Ok(e) => syntax_of(token_views(tokens@)) == Some(e@.float_blind()) && (
            float_free_tokens(token_views(tokens@)) ==> e@.float_free()),
            Err(err) => parse_failure(
                err@,
                token_views(tokens@),
                syntax_of(token_views(tokens@)) is None,
            ),
        },
{
    let (e, end) = build_expr::<F>(tokens, 0)?;
    if end == tokens.len() {
        Ok(e)
    } else {
        Err(Error::Parse)
    }
}

/// Compiles the text of an expression.
///
/// The result is the expression that the grammar gives the text, with each
/// float literal read by the float unit `F`. Without a float literal in the
/// text the unit has no say. With one, the unit decides which float stands for
/// it, and may refuse it, which fails with `NumericParse`.
pub fn parse_expr_from_str<F: FloatUnit>(inp: &str) -> (r: Result<Expr, Error>)
    ensures
        match r {
            Ok(e) => parse_spec(inp@) == Ok::<ExprView, ErrorView>(e@.float_blind()),
            Err(err) => parse_spec(inp@) == Err::<ExprView, ErrorView>(err@) || (err@
                == ErrorView::NumericParse && mentions_float(inp@)),
        },
        !mentions_float(inp@) ==> match r {
            Ok(e) => parse_spec(inp@) == Ok::<ExprView, ErrorView>(e@),
            Err(err) => parse_spec(inp@) == Err::<ExprView, ErrorView>(err@),
        },
{
    let tokens = tokenize(inp)?;
    let r = parse_tokens::<F>(&tokens);
    proof {
        lemma_tokens_scalar(inp@, 0);
        if r is Ok && !mentions_float(inp@) {
            lemma_float_free_expr_blind(r->Ok_0@);
        }
    }
    r
}

} // verus!
