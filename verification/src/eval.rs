//! What expressions evaluate to.
use crate::arith::{int_apply, int_arith, int_result, is_arith};
use crate::error::{Error, ErrorView, Misuse};
use crate::expr::{expr_views, lemma_apply_view, Expr, ExprView};
use crate::float::{FloatUnit, Relation};
use crate::op::Op;
use crate::order::{compares, lemma_compares_determined, relate, stands};
use crate::value::{views_of, Value, ValueView};
use vstd::prelude::*;

verus! {

/// What evaluation comes to: a value or a failure.
pub type Outcome = Result<ValueView, ErrorView>;

/// The outcome that is the value `v`.
pub open spec fn comes_to(v: ValueView) -> Outcome {
    Ok(v)
}

/// The outcome that is the failure `e`.
pub open spec fn fails(e: ErrorView) -> Outcome {
    Err(e)
}

/// What a computed value, or the failure to compute one, is in specifications.
pub open spec fn value_outcome(r: Result<Value, Error>) -> Outcome {
    match r {
        Ok(v) => Ok(v@),
        Err(e) => Err(e@),
    }
}

/// Whether the comparison `op` holds of two operands that stand to each other
/// as `rel` says.
pub open spec fn holds(op: Op, rel: Relation) -> bool {
    match op {
        Op::Eq => rel == Relation::Equal,
        Op::Neq => rel != Relation::Equal,
        Op::Gt => rel == Relation::Greater,
        Op::Lt => rel == Relation::Less,
        Op::Ge => rel != Relation::Less,
        Op::Le => rel != Relation::Greater,
        _ => false,
    }
}

/// Whether the operator is a comparison.
pub open spec fn is_comparison(op: Op) -> bool {
    op == Op::Eq || op == Op::Neq || op == Op::Gt || op == Op::Lt || op == Op::Ge || op == Op::Le
}

/// What an arithmetic operator may make of `a` and `b`.
///
/// Of two integers it makes what [`int_arith`] says. Where one operand is a
/// float and the other a float or an integer, the result is a float, which
/// one is for the float unit to say. Any other operand is a type error.
pub open spec fn arith_admits(op: Op, a: ValueView, b: ValueView, r: Outcome) -> bool {
    match (a, b) {
        (ValueView::Int(x), ValueView::Int(y)) => r == (match int_arith(op, x, y) {
            Ok(v) => comes_to(ValueView::Int(v)),
            Err(e) => Err(e),
        }),
        (ValueView::Int(_), ValueView::Float(_))
        | (ValueView::Float(_), ValueView::Int(_))
        | (ValueView::Float(_), ValueView::Float(_)) => r matches Ok(ValueView::Float(_)),
        _ => r == fails(ErrorView::Type),
    }
}

/// What a comparison may make of `a` and `b`: a failure where the two cannot
/// be compared, and else whether the comparison holds of how `a` stands to
/// `b`. See [`compares`].
pub open spec fn compare_admits(op: Op, a: ValueView, b: ValueView, r: Outcome) -> bool {
    match r {
        Err(e) => compares(a, b, Err(e)),
        Ok(ValueView::Bool(t)) => {
            ||| compares(a, b, Ok(Relation::Less)) && t == holds(op, Relation::Less)
            ||| compares(a, b, Ok(Relation::Equal)) && t == holds(op, Relation::Equal)
            ||| compares(a, b, Ok(Relation::Greater)) && t == holds(op, Relation::Greater)
        },
        Ok(_) => false,
    }
}

/// Whether the value may stand as an operand of a logical operator: a boolean,
/// or null, which is the truth value that is not known.
pub open spec fn is_truth(v: ValueView) -> bool {
    v is Bool || v is Null
}

/// The disjunction of `a` and `b`: true where either is true, else null where
/// either is null, else false.
pub open spec fn or_spec(a: ValueView, b: ValueView) -> Outcome {
    if !is_truth(a) || !is_truth(b) {
        Err(ErrorView::Type)
    } else if a == ValueView::Bool(true) || b == ValueView::Bool(true) {
        Ok(ValueView::Bool(true))
    } else if a is Null || b is Null {
        Ok(ValueView::Null)
    } else {
        Ok(ValueView::Bool(false))
    }
}

/// The conjunction of `a` and `b`: false where either is false, else null where
/// either is null, else true.
pub open spec fn and_spec(a: ValueView, b: ValueView) -> Outcome {
    if !is_truth(a) || !is_truth(b) {
        Err(ErrorView::Type)
    } else if a == ValueView::Bool(false) || b == ValueView::Bool(false) {
        Ok(ValueView::Bool(false))
    } else if a is Null || b is Null {
        Ok(ValueView::Null)
    } else {
        Ok(ValueView::Bool(true))
    }
}

/// The negation of `v`: of a boolean the other one, and of null, null.
pub open spec fn neg_spec(v: ValueView) -> Outcome {
    match v {
        ValueView::Bool(b) => Ok(ValueView::Bool(!b)),
        ValueView::Null => Ok(ValueView::Null),
        _ => Err(ErrorView::Type),
    }
}

/// What arithmetic negation may make of `v`: of an integer its negative, where
/// that fits 64 bits, and of a float a float.
pub open spec fn minus_admits(v: ValueView, r: Outcome) -> bool {
    match v {
        ValueView::Int(x) => r == (match int_result(-x) {
            Ok(y) => comes_to(ValueView::Int(y)),
            Err(e) => Err(e),
        }),
        ValueView::Float(_) => r matches Ok(ValueView::Float(_)),
        _ => r == fails(ErrorView::Type),
    }
}

/// The first of `vals[i..]` that is not null, and null where all are.
pub open spec fn coalesce_from(vals: Seq<ValueView>, i: int) -> ValueView
    decreases vals.len() - i,
{
    if i < 0 || i >= vals.len() {
        ValueView::Null
    } else if vals[i] is Null {
        coalesce_from(vals, i + 1)
    } else {
        vals[i]
    }
}

/// The number of operands that the operator takes; coalescing and calls take
/// any number.
pub open spec fn arity(op: Op) -> Option<int> {
    match op {
        Op::Neg | Op::Minus | Op::IsNull | Op::NotNull => Some(1),
        Op::Coalesce | Op::Call => None,
        _ => Some(2),
    }
}

/// What the operator `op` may make of the operand values `vals`.
pub open spec fn rule_admits(op: Op, vals: Seq<ValueView>, r: Outcome) -> bool {
    if arity(op) matches Some(n) && vals.len() != n {
        r == fails(ErrorView::Logic(Misuse::OperandCount))
    } else if is_arith(op) {
        arith_admits(op, vals[0], vals[1], r)
    } else if is_comparison(op) {
        compare_admits(op, vals[0], vals[1], r)
    } else {
        match op {
            Op::Or => r == or_spec(vals[0], vals[1]),
            Op::And => r == and_spec(vals[0], vals[1]),
            Op::Neg => r == neg_spec(vals[0]),
            Op::Minus => minus_admits(vals[0], r),
            Op::Coalesce => r == comes_to(coalesce_from(vals, 0)),
            Op::IsNull => r == comes_to(ValueView::Bool(vals[0] is Null)),
            Op::NotNull => r == comes_to(ValueView::Bool(!(vals[0] is Null))),
            _ => r == fails(ErrorView::Unimplemented),
        }
    }
}

/// `r` may be what the operator `op` comes to when the operands `args[i..]`
/// are evaluated from left to right after the operands before them have come
/// to the values `done`: the first operand that fails decides the failure,
/// and where none fails the operator is applied to the values.
pub open spec fn evaluates_args(
    args: Seq<ExprView>,
    i: int,
    done: Seq<ValueView>,
    op: Op,
    r: Outcome,
) -> bool
    decreases args, args.len() - i,
{
    if i < 0 || i >= args.len() {
        rule_admits(op, done, r)
    } else {
        ||| r is Err && evaluates(args[i], r)
        ||| exists|v: ValueView|
            evaluates(args[i], Ok(v)) && evaluates_args(
                args,
                i + 1,
                #[trigger] done.push(v),
                op,
                r,
            )
    }
}

/// `r` may be what the expression `e` evaluates to.
///
/// A constant evaluates to itself. A call fails as unimplemented, whatever its
/// operands. Any other operator has its operands evaluated first, from left to
/// right, and is then applied to their values. All of this is fixed but for
/// the floats, which the float unit computes.
pub open spec fn evaluates(e: ExprView, r: Outcome) -> bool
    decreases e, 0int,
{
    match e {
        ExprView::Const(v) => r == comes_to(v),
        ExprView::Apply(op, args) => if op == Op::Call {
            r == fails(ErrorView::Unimplemented)
        } else {
            evaluates_args(args, 0, Seq::empty(), op, r)
        },
    }
}

/// Whether the operator is one of arithmetic on two operands.
pub fn is_arith_op(op: Op) -> (b: bool)
    ensures
        b == is_arith(op),
{
    match op {
        Op::Add | Op::Sub | Op::Mul | Op::Div | Op::Mod | Op::Pow => true,
        _ => false,
    }
}

/// Whether the operator is a comparison.
pub fn is_comparison_op(op: Op) -> (b: bool)
    ensures
        b == is_comparison(op),
{
    match op {
        Op::Eq | Op::Neq | Op::Gt | Op::Lt | Op::Ge | Op::Le => true,
        _ => false,
    }
}

/// Has the float unit apply the arithmetic operator `op` to two floats.
fn float_apply<F: FloatUnit>(op: Op, a: u64, b: u64) -> (r: u64)
    ensures
        float_applied::<F>(op, a, b, r),
{
    match op {
        Op::Add => F::add(a, b),
        Op::Sub => F::sub(a, b),
        Op::Mul => F::mul(a, b),
        Op::Div => F::div(a, b),
        Op::Mod => F::rem(a, b),
        _ => F::pow(a, b),
    }
}

/// `r` is a float that the float unit `F` may give when it is asked to apply
/// the operator `op` to the floats `a` and `b`, in this order: its sum, its
/// difference, its product, its quotient or its remainder, and for any other
/// operator its power.
pub open spec fn float_applied<F: FloatUnit>(op: Op, a: u64, b: u64, r: u64) -> bool {
    match op {
        Op::Add => call_ensures(F::add, (a, b), r),
        Op::Sub => call_ensures(F::sub, (a, b), r),
        Op::Mul => call_ensures(F::mul, (a, b), r),
        Op::Div => call_ensures(F::div, (a, b), r),
        Op::Mod => call_ensures(F::rem, (a, b), r),
        _ => call_ensures(F::pow, (a, b), r),
    }
}

/// Applies the arithmetic operator `op` to `a` and `b`. An integer beside a
/// float is made a float first.
pub fn arith<F: FloatUnit>(op: Op, a: &Value, b: &Value) -> (r: Result<Value, Error>)
    requires
        is_arith(op),
    ensures
        arith_admits(op, a@, b@, value_outcome(r)),
{
    match (a, b) {
        (Value::Int(x), Value::Int(y)) => match int_apply(op, *x, *y) {
            Ok(v) => Ok(Value::Int(v)),
            Err(e) => Err(e),
        },
        (Value::Int(x), Value::Float(y)) => Ok(
            Value::Float(float_apply::<F>(op, F::from_int(*x), *y)),
        ),
        (Value::Float(x), Value::Int(y)) => Ok(
            Value::Float(float_apply::<F>(op, *x, F::from_int(*y))),
        ),
        (Value::Float(x), Value::Float(y)) => Ok(Value::Float(float_apply::<F>(op, *x, *y))),
        _ => Err(Error::Type),
    }
}

/// Whether the comparison `op` holds of operands that stand as `rel` says.
pub fn relation_holds(op: Op, rel: Relation) -> (b: bool)
    ensures
        b == holds(op, rel),
{
    match op {
        Op::Eq => rel == Relation::Equal,
        Op::Neq => rel != Relation::Equal,
        Op::Gt => rel == Relation::Greater,
        Op::Lt => rel == Relation::Less,
        Op::Ge => rel != Relation::Less,
        Op::Le => rel != Relation::Greater,
        _ => false,
    }
}

/// Applies the comparison `op` to `a` and `b`.
pub fn compare<F: FloatUnit>(op: Op, a: &Value, b: &Value) -> (r: Result<Value, Error>)
    requires
        is_comparison(op),
    ensures
        compare_admits(op, a@, b@, value_outcome(r)),
{
    match relate::<F>(a, b) {
        Ok(rel) => Ok(Value::Bool(relation_holds(op, rel))),
        Err(e) => Err(e),
    }
}

/// The truth value that `v` stands for: `Some(Some(b))` for a boolean,
/// `Some(None)` for null, and nothing for any other value.
fn truth_of(v: &Value) -> (t: Option<Option<bool>>)
    ensures
        t is Some == is_truth(v@),
        t == Some(Some(true)) <==> v@ == ValueView::Bool(true),
        t == Some(Some(false)) <==> v@ == ValueView::Bool(false),
        t == Some(None::<bool>) <==> v@ is Null,
{
    match v {
        Value::Bool(b) => Some(Some(*b)),
        Value::Null => Some(None),
        _ => None,
    }
}

/// The disjunction of `a` and `b`.
pub fn or_values(a: &Value, b: &Value) -> (r: Result<Value, Error>)
    ensures
        value_outcome(r) == or_spec(a@, b@),
{
    match (truth_of(a), truth_of(b)) {
        (Some(x), Some(y)) => match (x, y) {
            (Some(true), _) | (_, Some(true)) => Ok(Value::Bool(true)),
            (None, _) | (_, None) => Ok(Value::Null),
            _ => Ok(Value::Bool(false)),
        },
        _ => Err(Error::Type),
    }
}

/// The conjunction of `a` and `b`.
pub fn and_values(a: &Value, b: &Value) -> (r: Result<Value, Error>)
    ensures
        value_outcome(r) == and_spec(a@, b@),
{
    match (truth_of(a), truth_of(b)) {
        (Some(x), Some(y)) => match (x, y) {
            (Some(false), _) | (_, Some(false)) => Ok(Value::Bool(false)),
            (None, _) | (_, None) => Ok(Value::Null),
            _ => Ok(Value::Bool(true)),
        },
        _ => Err(Error::Type),
    }
}

/// The negation of `v`.
pub fn negate(v: &Value) -> (r: Result<Value, Error>)
    ensures
        value_outcome(r) == neg_spec(v@),
{
    match v {
        Value::Bool(b) => Ok(Value::Bool(!*b)),
        Value::Null => Ok(Value::Null),
        _ => Err(Error::Type),
    }
}

/// The arithmetic negative of `v`.
pub fn minus<F: FloatUnit>(v: &Value) -> (r: Result<Value, Error>)
    ensures
        minus_admits(v@, value_outcome(r)),
{
    match v {
        Value::Int(x) => match 0i64.checked_sub(*x) {
            Some(y) => Ok(Value::Int(y)),
            None => Err(Error::Arithmetic),
        },
        Value::Float(x) => Ok(Value::Float(F::neg(*x))),
        _ => Err(Error::Type),
    }
}

/// The first of `vals` that is not null, and null where all are.
pub fn coalesce(vals: &Vec<Value>) -> (v: Value)
    ensures
        v@ == coalesce_from(views_of(vals@), 0),
{
    let mut i: usize = 0;
    while i < vals.len()
        invariant
            i <= vals.len(),
            coalesce_from(views_of(vals@), 0) == coalesce_from(views_of(vals@), i as int),
        decreases vals.len() - i,
    {
        assert(views_of(vals@)[i as int] == vals[i as int]@);
        match &vals[i] {
            Value::Null => {},
            other => {
                return other.clone();
            },
        }
        i += 1;
    }
    Value::Null
}

/// Applies the operator `op` to the values `vals` of its operands.
pub fn apply_op<F: FloatUnit>(op: Op, vals: &Vec<Value>) -> (r: Result<Value, Error>)
    ensures
        rule_admits(op, views_of(vals@), value_outcome(r)),
{
    let ghost vs = views_of(vals@);
    let n = vals.len();
    assert(forall|i: int| 0 <= i < n ==> vs[i] == vals[i]@);
    match op {
        Op::Coalesce => Ok(coalesce(vals)),
        Op::Call => Err(Error::Unimplemented),
        Op::Neg | Op::Minus | Op::IsNull | Op::NotNull => {
            if n != 1 {
                return Err(Error::Logic(Misuse::OperandCount));
            }
            let v = &vals[0];
            match op {
                Op::Neg => negate(v),
                Op::Minus => minus::<F>(v),
                Op::IsNull => Ok(
                    Value::Bool(
                        match v {
                            Value::Null => true,
                            _ => false,
                        },
                    ),
                ),
                _ => Ok(
                    Value::Bool(
                        match v {
                            Value::Null => false,
                            _ => true,
                        },
                    ),
                ),
            }
        },
        _ => {
            if n != 2 {
                return Err(Error::Logic(Misuse::OperandCount));
            }
            let a = &vals[0];
            let b = &vals[1];
            if is_arith_op(op) {
                arith::<F>(op, a, b)
            } else if is_comparison_op(op) {
                compare::<F>(op, a, b)
            } else {
                match op {
                    Op::Or => or_values(a, b),
                    _ => and_values(a, b),
                }
            }
        },
    }
}

impl Expr {
    /// The value that the expression evaluates to, floats computed by the
    /// float unit `F`.
    pub fn eval_value<F: FloatUnit>(&self) -> (r: Result<Value, Error>)
        ensures
            evaluates(self@, value_outcome(r)),
        decreases self,
    {
        broadcast use lemma_apply_view;

        match self {
            Expr::Const(v) => Ok(v.clone()),
            Expr::Apply(op, args) => {
                if let Op::Call = op {
                    return Err(Error::Unimplemented);
                }
                let ghost av = expr_views(args@);
                let ghost none = Seq::<ValueView>::empty();
                let mut vals: Vec<Value> = Vec::new();
                let mut i: usize = 0;
                assert(views_of(vals@) =~= none);
                while i < args.len()
                    invariant
                        *self == Expr::Apply(*op, *args),
                        *op != Op::Call,
                        self@ == ExprView::Apply(*op, av),
                        av == expr_views(args@),
                        none == Seq::<ValueView>::empty(),
                        i <= args.len(),
                        vals.len() == i,
                        forall|r: Outcome| #[trigger]
                            evaluates_args(av, i as int, views_of(vals@), *op, r)
                                ==> evaluates_args(av, 0, none, *op, r),
                    decreases args.len() - i,
                {
                    assert(decreases_to!(self => self->Apply_1@[i as int]));
                    let ghost done = views_of(vals@);
                    match args[i].eval_value::<F>() {
                        Err(e) => {
                            proof {
                                let failed = fails(e@);
                                assert(evaluates(av[i as int], failed));
                                assert(evaluates_args(av, i as int, done, *op, failed));
                                assert(evaluates_args(av, 0, none, *op, failed));
                            }
                            return Err(e);
                        },
                        Ok(v) => {
                            proof {
                                assert(views_of(vals@.push(v)) =~= done.push(v@));
                                assert forall|r: Outcome| #[trigger]
                                    evaluates_args(av, i + 1, done.push(v@), *op, r) implies
                                    evaluates_args(av, 0, none, *op, r) by {
                                    assert(evaluates(av[i as int], Ok(v@)));
                                    assert(evaluates_args(av, i as int, done, *op, r));
                                }
                            }
                            vals.push(v);
                        },
                    }
                    i += 1;
                }
                let r = apply_op::<F>(*op, &vals);
                assert(evaluates_args(av, i as int, views_of(vals@), *op, value_outcome(r)));
                r
            },
        }
    }

    /// Evaluates the expression to a constant, floats computed by the float
    /// unit `F`.
    pub fn eval<F: FloatUnit>(&self) -> (r: Result<Expr, Error>)
        ensures
            match r {
                Ok(e) => e matches Expr::Const(v) && evaluates(
                    self@,
                    comes_to(v@),
                ),
                Err(err) => evaluates(self@, fails(err@)),
            },
    {
        match self.eval_value::<F>() {
            Ok(v) => Ok(Expr::Const(v)),
            Err(e) => Err(e),
        }
    }
}

/// The values of `vals` hold no float.
pub open spec fn all_float_free(vals: Seq<ValueView>) -> bool {
    forall|i: int| 0 <= i < vals.len() ==> (#[trigger] vals[i]).float_free()
}

/// What is coalesced from values without floats has no float.
proof fn lemma_coalesce_float_free(vals: Seq<ValueView>, i: int)
    requires
        all_float_free(vals),
        0 <= i,
    ensures
        coalesce_from(vals, i).float_free(),
    decreases vals.len() - i,
{
    if i < vals.len() {
        if vals[i] is Null {
            lemma_coalesce_float_free(vals, i + 1);
        }
    }
}

/// A comparison of values without floats has one outcome.
proof fn lemma_compares_holds_once(op: Op, a: ValueView, b: ValueView, r1: Outcome, r2: Outcome)
    requires
        a.float_free(),
        b.float_free(),
        compare_admits(op, a, b, r1),
        compare_admits(op, a, b, r2),
    ensures
        r1 == r2,
{
    let less = stands(Relation::Less);
    let equal = stands(Relation::Equal);
    let greater = stands(Relation::Greater);
    let s1 = match r1 {
        Err(e) => Err::<Relation, ErrorView>(e),
        Ok(_) => if compares(a, b, less) && r1->Ok_0->Bool_0 == holds(op, Relation::Less) {
            less
        } else if compares(a, b, equal) && r1->Ok_0->Bool_0 == holds(op, Relation::Equal) {
            equal
        } else {
            greater
        },
    };
    let s2 = match r2 {
        Err(e) => Err::<Relation, ErrorView>(e),
        Ok(_) => if compares(a, b, less) && r2->Ok_0->Bool_0 == holds(op, Relation::Less) {
            less
        } else if compares(a, b, equal) && r2->Ok_0->Bool_0 == holds(op, Relation::Equal) {
            equal
        } else {
            greater
        },
    };
    lemma_compares_determined(a, b, s1, s2);
}

/// Applied to values without floats, an operator has one outcome, and no float
/// in it.
pub proof fn lemma_rule_determined(op: Op, vals: Seq<ValueView>, r1: Outcome, r2: Outcome)
    requires
        all_float_free(vals),
        rule_admits(op, vals, r1),
        rule_admits(op, vals, r2),
    ensures
        r1 == r2,
        r1 matches Ok(v) ==> v.float_free(),
{
    if arity(op) matches Some(n) && vals.len() != n {
    } else if op == Op::Coalesce {
        lemma_coalesce_float_free(vals, 0);
    } else if op != Op::Call {
        assert(vals[0].float_free());
        if arity(op) == Some(2int) {
            assert(vals[1].float_free());
        }
        if is_comparison(op) {
            lemma_compares_holds_once(op, vals[0], vals[1], r1, r2);
        }
    }
}

/// Without floats among its operands and the values before them, an operator
/// has one outcome, and no float in it.
pub proof fn lemma_args_determined(
    args: Seq<ExprView>,
    i: int,
    done: Seq<ValueView>,
    op: Op,
    r1: Outcome,
    r2: Outcome,
)
    requires
        0 <= i,
        forall|k: int| 0 <= k < args.len() ==> (#[trigger] args[k]).float_free(),
        all_float_free(done),
        evaluates_args(args, i, done, op, r1),
        evaluates_args(args, i, done, op, r2),
    ensures
        r1 == r2,
        r1 matches Ok(v) ==> v.float_free(),
    decreases args, args.len() - i,
{
    if i >= args.len() {
        lemma_rule_determined(op, done, r1, r2);
    } else {
        let fails1 = r1 is Err && evaluates(args[i], r1);
        let fails2 = r2 is Err && evaluates(args[i], r2);
        if fails1 && fails2 {
            lemma_float_free_determined(args[i], r1, r2);
        } else if fails1 {
            let v = choose|v: ValueView|
                evaluates(args[i], Ok(v)) && evaluates_args(
                    args,
                    i + 1,
                    #[trigger] done.push(v),
                    op,
                    r2,
                );
            lemma_float_free_determined(args[i], r1, Ok(v));
        } else if fails2 {
            let v = choose|v: ValueView|
                evaluates(args[i], Ok(v)) && evaluates_args(
                    args,
                    i + 1,
                    #[trigger] done.push(v),
                    op,
                    r1,
                );
            lemma_float_free_determined(args[i], r2, Ok(v));
        } else {
            let v1 = choose|v: ValueView|
                evaluates(args[i], Ok(v)) && evaluates_args(
                    args,
                    i + 1,
                    #[trigger] done.push(v),
                    op,
                    r1,
                );
            let v2 = choose|v: ValueView|
                evaluates(args[i], Ok(v)) && evaluates_args(
                    args,
                    i + 1,
                    #[trigger] done.push(v),
                    op,
                    r2,
                );
            lemma_float_free_determined(args[i], Ok(v1), Ok(v2));
            assert(all_float_free(done.push(v1))) by {
                assert forall|k: int| 0 <= k < done.push(v1).len() implies (#[trigger] done.push(
                    v1,
                )[k]).float_free() by {
                    if k < done.len() {
                        assert(done.push(v1)[k] == done[k]);
                    }
                }
            }
            lemma_args_determined(args, i + 1, done.push(v1), op, r1, r2);
        }
    }
}

/// What an expression without floats evaluates to is decided by the
/// expression: it has one outcome, whatever the float unit, and no float in
/// it.
pub proof fn lemma_float_free_determined(e: ExprView, r1: Outcome, r2: Outcome)
    requires
        e.float_free(),
        evaluates(e, r1),
        evaluates(e, r2),
    ensures
        r1 == r2,
        r1 matches Ok(v) ==> v.float_free(),
    decreases e, 0int,
{
    match e {
        ExprView::Const(_) => {},
        ExprView::Apply(op, args) => {
            if op != Op::Call {
                lemma_args_determined(args, 0, Seq::empty(), op, r1, r2);
            }
        },
    }
}

/// `r` may be what an operator comes to whose operands are the constants
/// `a` and `b` exactly where the operator may make `r` of the two values.
pub proof fn lemma_evaluates_constants(op: Op, a: ValueView, b: ValueView, r: Outcome)
    requires
        op != Op::Call,
    ensures
        evaluates(of_constants(op, a, b), r) == rule_admits(op, seq![a, b], r),
{
    let args = seq![ExprView::Const(a), ExprView::Const(b)];
    let none = Seq::<ValueView>::empty();
    let e = ExprView::Apply(op, args);
    reveal_with_fuel(evaluates_args, 3);
    assert(none.push(a).push(b) =~= seq![a, b]);
    assert(evaluates(args[0], Ok(a)));
    assert(evaluates(args[1], Ok(b)));
    if evaluates(e, r) {
        assert(evaluates_args(args, 0, none, op, r));
        let v0 = choose|v: ValueView|
            evaluates(args[0], Ok(v)) && evaluates_args(args, 1, #[trigger] none.push(v), op, r);
        assert(v0 == a);
        let v1 = choose|v: ValueView|
            evaluates(args[1], Ok(v)) && evaluates_args(
                args,
                2,
                #[trigger] none.push(a).push(v),
                op,
                r,
            );
        assert(v1 == b);
    }
    if rule_admits(op, seq![a, b], r) {
        assert(evaluates_args(args, 2, none.push(a).push(b), op, r));
        assert(evaluates_args(args, 1, none.push(a), op, r));
        assert(evaluates_args(args, 0, none, op, r));
    }
}

/// The expression that applies `op` to the constants `a` and `b`.
pub open spec fn of_constants(op: Op, a: ValueView, b: ValueView) -> ExprView {
    ExprView::Apply(op, seq![ExprView::Const(a), ExprView::Const(b)])
}

/// With a truth value `v`, which may be null, at the other side: a
/// disjunction with true is true and a conjunction with false is false; a
/// disjunction with false and a conjunction with true are `v`.
pub proof fn lemma_logic_with_null(v: ValueView, r: Outcome)
    requires
        is_truth(v),
    ensures
        evaluates(of_constants(Op::Or, ValueView::Bool(true), v), r) == (r == comes_to(ValueView::Bool(true))),
        evaluates(of_constants(Op::Or, v, ValueView::Bool(true)), r) == (r == comes_to(ValueView::Bool(true))),
        evaluates(of_constants(Op::And, ValueView::Bool(false), v), r) == (r == comes_to(ValueView::Bool(false))),
        evaluates(of_constants(Op::And, v, ValueView::Bool(false)), r) == (r == comes_to(ValueView::Bool(false))),
        evaluates(of_constants(Op::Or, ValueView::Bool(false), v), r) == (r == comes_to(v)),
        evaluates(of_constants(Op::And, ValueView::Bool(true), v), r) == (r == comes_to(v)),
{
    lemma_evaluates_constants(Op::Or, ValueView::Bool(true), v, r);
    lemma_evaluates_constants(Op::Or, v, ValueView::Bool(true), r);
    lemma_evaluates_constants(Op::And, ValueView::Bool(false), v, r);
    lemma_evaluates_constants(Op::And, v, ValueView::Bool(false), r);
    lemma_evaluates_constants(Op::Or, ValueView::Bool(false), v, r);
    lemma_evaluates_constants(Op::And, ValueView::Bool(true), v, r);
}

} // verus!
