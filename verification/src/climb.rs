//! How a row of operands with operators between them becomes a tree.
use crate::expr::{blind_all, expr_views, lemma_apply_blind, lemma_apply_view, Expr, ExprView};
use crate::op::{Assoc, Op};
use vstd::prelude::*;

verus! {

/// In `x a y b z`, the operator `a` is applied first and `b` to its result:
/// `b` binds less tightly than `a`, or as tightly on a level that groups to the
/// left.
pub open spec fn yields_to(a: Op, b: Op) -> bool {
    b.level() < a.level() || (b.level() == a.level() && b.grouping() == Assoc::Left)
}

/// The position of the operator that is applied last among `ops[lo..hi]`.
///
/// Going through the operators from the left, an operator takes the place of
/// the one held so far where that one yields to it.
pub open spec fn root(ops: Seq<Op>, lo: int, hi: int) -> int
    decreases hi - lo,
{
    if hi - lo <= 1 {
        lo
    } else {
        let r = root(ops, lo, hi - 1);
        if yields_to(ops[r], ops[hi - 1]) {
            hi - 1
        } else {
            r
        }
    }
}

/// The operator applied last stands among the operators.
pub proof fn lemma_root_in_range(ops: Seq<Op>, lo: int, hi: int)
    requires
        lo < hi,
    ensures
        lo <= root(ops, lo, hi) < hi,
    decreases hi - lo,
{
    if hi - lo > 1 {
        lemma_root_in_range(ops, lo, hi - 1);
    }
}

/// The tree of the operands `operands[lo..=hi]` with the operators
/// `ops[lo..hi]` between them, operator `i` standing between operands `i` and
/// `i + 1`: the operator applied last, over the tree of what stands to its left
/// and the tree of what stands to its right.
pub open spec fn infix_tree(ops: Seq<Op>, operands: Seq<ExprView>, lo: int, hi: int) -> ExprView
    decreases hi - lo,
{
    if hi <= lo {
        operands[lo]
    } else {
        let k = root(ops, lo, hi);
        proof {
            lemma_root_in_range(ops, lo, hi);
        }
        ExprView::Apply(
            ops[k],
            seq![infix_tree(ops, operands, lo, k), infix_tree(ops, operands, k + 1, hi)],
        )
    }
}

/// `k` is where `ops[lo..hi]` split: every operator before `k` yields to the
/// one at `k`, and the one at `k` yields to none after it.
///
/// So the operator at `k` is of the least level among them; of several of that
/// level it is the last where the level groups to the left, and the first where
/// it groups to the right.
pub open spec fn splits_at(ops: Seq<Op>, lo: int, hi: int, k: int) -> bool {
    &&& lo <= k < hi
    &&& forall|j: int| lo <= j < k ==> yields_to(#[trigger] ops[j], ops[k])
    &&& forall|j: int| k < j < hi ==> !yields_to(ops[k], #[trigger] ops[j])
}

/// The operator applied last is where the operators split.
pub proof fn lemma_root_splits(ops: Seq<Op>, lo: int, hi: int)
    requires
        lo < hi,
    ensures
        splits_at(ops, lo, hi, root(ops, lo, hi)),
    decreases hi - lo,
{
    if hi - lo > 1 {
        lemma_root_splits(ops, lo, hi - 1);
        let r = root(ops, lo, hi - 1);
        let k = root(ops, lo, hi);
        if yields_to(ops[r], ops[hi - 1]) {
            assert forall|j: int| lo <= j < k implies yields_to(#[trigger] ops[j], ops[k]) by {
                if j < r {
                    assert(yields_to(ops[j], ops[r]));
                } else if j > r {
                    assert(!yields_to(ops[r], ops[j]));
                }
            }
        }
    }
}

/// The operators split in one place only: where they split, there is the
/// operator applied last.
pub proof fn lemma_split_is_root(ops: Seq<Op>, lo: int, hi: int, k: int)
    requires
        splits_at(ops, lo, hi, k),
    ensures
        root(ops, lo, hi) == k,
    decreases hi - lo,
{
    if hi - lo > 1 {
        if k == hi - 1 {
            lemma_root_in_range(ops, lo, hi - 1);
            let r = root(ops, lo, hi - 1);
            assert(yields_to(ops[r], ops[k]));
        } else {
            lemma_split_is_root(ops, lo, hi - 1, k);
            assert(!yields_to(ops[k], ops[hi - 1]));
        }
    }
}

/// Of three operands, the two to the right are joined first exactly where the
/// first operator does not yield to the second: where the second binds more
/// tightly, or as tightly on a level that groups to the right.
pub proof fn lemma_three_operands(a: ExprView, p: Op, b: ExprView, q: Op, c: ExprView)
    ensures
        infix_tree(seq![p, q], seq![a, b, c], 0, 2) == if yields_to(p, q) {
            ExprView::Apply(q, seq![ExprView::Apply(p, seq![a, b]), c])
        } else {
            ExprView::Apply(p, seq![a, ExprView::Apply(q, seq![b, c])])
        },
{
    let ops = seq![p, q];
    let xs = seq![a, b, c];
    reveal_with_fuel(root, 3);
    reveal_with_fuel(infix_tree, 3);
    assert(root(ops, 0, 1) == 0);
    assert(root(ops, 1, 2) == 1);
    assert(infix_tree(ops, xs, 0, 1) == ExprView::Apply(p, seq![a, b]));
    assert(infix_tree(ops, xs, 1, 2) == ExprView::Apply(q, seq![b, c]));
}

/// Among the operators of arithmetic, a power binds more tightly than a
/// product and a product more tightly than a sum, and powers group to the
/// right where sums and products group to the left.
pub proof fn lemma_arithmetic_grouping(a: ExprView, b: ExprView, c: ExprView)
    ensures
        infix_tree(seq![Op::Pow, Op::Pow], seq![a, b, c], 0, 2) == ExprView::Apply(
            Op::Pow,
            seq![a, ExprView::Apply(Op::Pow, seq![b, c])],
        ),
        infix_tree(seq![Op::Mul, Op::Pow], seq![a, b, c], 0, 2) == ExprView::Apply(
            Op::Mul,
            seq![a, ExprView::Apply(Op::Pow, seq![b, c])],
        ),
        infix_tree(seq![Op::Pow, Op::Mul], seq![a, b, c], 0, 2) == ExprView::Apply(
            Op::Mul,
            seq![ExprView::Apply(Op::Pow, seq![a, b]), c],
        ),
        infix_tree(seq![Op::Add, Op::Mul], seq![a, b, c], 0, 2) == ExprView::Apply(
            Op::Add,
            seq![a, ExprView::Apply(Op::Mul, seq![b, c])],
        ),
        infix_tree(seq![Op::Mul, Op::Add], seq![a, b, c], 0, 2) == ExprView::Apply(
            Op::Add,
            seq![ExprView::Apply(Op::Mul, seq![a, b]), c],
        ),
        infix_tree(seq![Op::Sub, Op::Add], seq![a, b, c], 0, 2) == ExprView::Apply(
            Op::Add,
            seq![ExprView::Apply(Op::Sub, seq![a, b]), c],
        ),
        infix_tree(seq![Op::Div, Op::Mul], seq![a, b, c], 0, 2) == ExprView::Apply(
            Op::Mul,
            seq![ExprView::Apply(Op::Div, seq![a, b]), c],
        ),
{
    lemma_three_operands(a, Op::Pow, b, Op::Pow, c);
    lemma_three_operands(a, Op::Mul, b, Op::Pow, c);
    lemma_three_operands(a, Op::Pow, b, Op::Mul, c);
    lemma_three_operands(a, Op::Add, b, Op::Mul, c);
    lemma_three_operands(a, Op::Mul, b, Op::Add, c);
    lemma_three_operands(a, Op::Sub, b, Op::Add, c);
    lemma_three_operands(a, Op::Div, b, Op::Mul, c);
}

/// The tree does not depend on the floats in the operands: the tree of the
/// operands without regard to floats is the tree of the operands, without
/// regard to floats.
pub proof fn lemma_infix_tree_blind(ops: Seq<Op>, operands: Seq<ExprView>, lo: int, hi: int)
    requires
        0 <= lo <= hi < operands.len(),
    ensures
        infix_tree(ops, blind_all(operands), lo, hi) == infix_tree(
            ops,
            operands,
            lo,
            hi,
        ).float_blind(),
    decreases hi - lo,
{
    broadcast use lemma_apply_blind;

    if hi > lo {
        let k = root(ops, lo, hi);
        lemma_root_in_range(ops, lo, hi);
        lemma_infix_tree_blind(ops, operands, lo, k);
        lemma_infix_tree_blind(ops, operands, k + 1, hi);
        let l = infix_tree(ops, operands, lo, k);
        let r = infix_tree(ops, operands, k + 1, hi);
        assert(blind_all(seq![l, r]) =~= seq![l.float_blind(), r.float_blind()]);
    }
}

/// The tree of operands without floats has no float.
pub proof fn lemma_infix_tree_float_free(ops: Seq<Op>, operands: Seq<ExprView>, lo: int, hi: int)
    requires
        0 <= lo <= hi < operands.len(),
        forall|i: int| 0 <= i < operands.len() ==> (#[trigger] operands[i]).float_free(),
    ensures
        infix_tree(ops, operands, lo, hi).float_free(),
    decreases hi - lo,
{
    if hi > lo {
        let k = root(ops, lo, hi);
        lemma_root_in_range(ops, lo, hi);
        lemma_infix_tree_float_free(ops, operands, lo, k);
        lemma_infix_tree_float_free(ops, operands, k + 1, hi);
    }
}

/// The application of an infix operator to the operands at its sides.
pub fn build_expr_infix(lhs: Expr, op: Op, rhs: Expr) -> (e: Expr)
    ensures
        e@ == ExprView::Apply(op, seq![lhs@, rhs@]),
{
    broadcast use lemma_apply_view;

    let mut args: Vec<Expr> = Vec::new();
    args.push(lhs);
    args.push(rhs);
    let e = Expr::Apply(op, args);
    assert(e@->Apply_1 =~= seq![lhs@, rhs@]);
    e
}

/// Every operator of `ops[lo..hi]` yields to `x`.
pub open spec fn all_yield_to(ops: Seq<Op>, lo: int, hi: int, x: Op) -> bool {
    forall|j: int| lo <= j < hi ==> yields_to(#[trigger] ops[j], x)
}

/// Precedence climbing from operand `cur` on. `lhs` is the tree of the operands
/// `start..=cur`. Operators are taken in while their level is at least
/// `min_level`; each takes as its right side what follows it as far as the
/// operators there bind more tightly than it does, or as tightly on a level that
/// groups to the right.
fn climb_from(
    operands: &Vec<Expr>,
    ops: &Vec<Op>,
    start: usize,
    cur: usize,
    lhs: Expr,
    min_level: u8,
) -> (r: (Expr, usize))
    requires
        operands.len() == ops.len() + 1,
        start <= cur <= ops.len(),
        lhs@ == infix_tree(ops@, expr_views(operands@), start as int, cur as int),
        cur < ops.len() && ops[cur as int].level() >= min_level ==> all_yield_to(
            ops@,
            start as int,
            cur as int,
            ops[cur as int],
        ),
    ensures
        cur <= r.1 <= ops.len(),
        r.1 < ops.len() ==> ops[r.1 as int].level() < min_level,
        forall|j: int| cur <= j < r.1 ==> (#[trigger] ops[j]).level() >= min_level,
        cur < ops.len() && ops[cur as int].level() >= min_level ==> cur < r.1,
        r.0@ == infix_tree(ops@, expr_views(operands@), start as int, r.1 as int),
    decreases ops.len() - cur,
{
    let ghost xs = expr_views(operands@);
    let n = ops.len();
    let mut lhs = lhs;
    let mut at: usize = cur;
    while at < n && ops[at].precedence() >= min_level
        invariant
            operands.len() == ops.len() + 1,
            n == ops.len(),
            xs == expr_views(operands@),
            start <= cur <= at <= n,
            lhs@ == infix_tree(ops@, xs, start as int, at as int),
            at < n && ops[at as int].level() >= min_level ==> all_yield_to(
                ops@,
                start as int,
                at as int,
                ops[at as int],
            ),
            forall|j: int| cur <= j < at ==> (#[trigger] ops[j]).level() >= min_level,
            cur < n && ops[cur as int].level() >= min_level && !(at < n && ops[at as int].level()
                >= min_level) ==> cur < at,
        decreases n - at,
    {
        let c = at;
        let op = ops[c];
        let level = op.precedence();
        let mut rhs = operands[c + 1].clone();
        let mut next: usize = c + 1;
        assert(rhs@ == infix_tree(ops@, xs, c + 1, c + 1));
        while next < n && (ops[next].precedence() > level || (ops[next].precedence() == level
            && ops[next].assoc() == Assoc::Right))
            invariant
                operands.len() == ops.len() + 1,
                n == ops.len(),
                xs == expr_views(operands@),
                cur <= c < next <= n,
                op == ops[c as int],
                level == op.level(),
                rhs@ == infix_tree(ops@, xs, c + 1, next as int),
                forall|j: int| c < j < next ==> !yields_to(op, #[trigger] ops[j]),
                next < n && !yields_to(op, ops[next as int]) ==> all_yield_to(
                    ops@,
                    c + 1,
                    next as int,
                    ops[next as int],
                ),
            decreases n - next,
        {
            let ghost before = next;
            let inner = climb_from(operands, ops, c + 1, next, rhs, ops[next].precedence());
            rhs = inner.0;
            next = inner.1;
            proof {
                if next < n {
                    assert forall|j: int| c + 1 <= j < next implies yields_to(
                        #[trigger] ops[j],
                        ops[next as int],
                    ) by {
                        if j < before {
                            assert(yields_to(ops[j], ops[before as int]));
                        } else {
                            assert(ops[j].level() >= ops[before as int].level());
                        }
                    }
                }
                assert forall|j: int| c < j < next implies !yields_to(op, #[trigger] ops[j]) by {
                    if j >= before {
                        assert(ops[j].level() >= ops[before as int].level());
                    }
                }
            }
        }
        proof {
            assert(splits_at(ops@, start as int, next as int, c as int));
            lemma_split_is_root(ops@, start as int, next as int, c as int);
            if next < n {
                assert forall|j: int| start <= j < next implies yields_to(
                    #[trigger] ops[j],
                    ops[next as int],
                ) by {
                    if j < c {
                        assert(yields_to(ops[j], op));
                    } else if j > c {
                        assert(!yields_to(op, ops[j]));
                    }
                }
            }
            assert forall|j: int| cur <= j < next implies (#[trigger] ops[j]).level()
                >= min_level by {
                if j > c {
                    assert(!yields_to(op, ops[j]));
                }
            }
        }
        lhs = build_expr_infix(lhs, op, rhs);
        at = next;
    }
    (lhs, at)
}

/// The tree of the operands with the operators between them, operator `i`
/// standing between operands `i` and `i + 1`.
pub fn climb(operands: &Vec<Expr>, ops: &Vec<Op>) -> (e: Expr)
    requires
        operands.len() == ops.len() + 1,
    ensures
        e@ == infix_tree(ops@, expr_views(operands@), 0, ops.len() as int),
{
    let first = operands[0].clone();
    let r = climb_from(operands, ops, 0, 0, first, 0);
    r.0
}

} // verus!
