//! The operator tree that expressions are compiled to.
use crate::op::Op;
use crate::value::{lemma_float_free_blind, Value, ValueView};
use vstd::prelude::*;

verus! {

/// An expression: an operator applied to operands, or a constant.
#[derive(Debug, PartialEq)]
pub enum Expr {
    Apply(Op, Vec<Expr>),
    Const(Value),
}

/// What an [`Expr`] is in specifications.
pub enum ExprView {
    Apply(Op, Seq<ExprView>),
    Const(ValueView),
}

impl View for Expr {
    type V = ExprView;

    open spec fn view(&self) -> ExprView
        decreases self,
    {
        match self {
            Expr::Apply(op, args) => ExprView::Apply(
                *op,
                Seq::new(
                    args.len() as nat,
                    |i: int|
                        if 0 <= i < args.len() {
                            args[i].view()
                        } else {
                            ExprView::Const(ValueView::Null)
                        },
                ),
            ),
            Expr::Const(v) => ExprView::Const(v@),
        }
    }
}

/// The views of the expressions of `items`, in order.
pub open spec fn expr_views(items: Seq<Expr>) -> Seq<ExprView> {
    Seq::new(items.len(), |i: int| items[i]@)
}

/// The view of an application is the operator applied to the views of the
/// operands.
pub broadcast proof fn lemma_apply_view(e: Expr)
    requires
        e is Apply,
    ensures
        #[trigger] e@ == ExprView::Apply(e->Apply_0, expr_views(e->Apply_1@)),
{
    reveal_with_fuel(<Expr as View>::view, 2);
    assert(e@->Apply_1 =~= expr_views(e->Apply_1@));
}

/// The expressions of `items`, each without regard to its floats.
pub open spec fn blind_all(items: Seq<ExprView>) -> Seq<ExprView> {
    Seq::new(items.len(), |i: int| items[i].float_blind())
}

/// An application without regard to floats is the operator applied to the
/// operands without regard to floats.
pub broadcast proof fn lemma_apply_blind(op: Op, args: Seq<ExprView>)
    ensures
        #[trigger] ExprView::Apply(op, args).float_blind() == ExprView::Apply(
            op,
            blind_all(args),
        ),
{
    reveal_with_fuel(ExprView::float_blind, 2);
    assert(ExprView::Apply(op, args).float_blind()->Apply_1 =~= blind_all(args));
}

impl ExprView {
    /// The expression with every float in it replaced by the float whose bits
    /// are all zero: what is left of an expression when the floats are not
    /// looked at.
    pub open spec fn float_blind(self) -> ExprView
        decreases self,
    {
        match self {
            ExprView::Apply(op, args) => ExprView::Apply(
                op,
                Seq::new(
                    args.len(),
                    |i: int|
                        if 0 <= i < args.len() {
                            args[i].float_blind()
                        } else {
                            ExprView::Const(ValueView::Null)
                        },
                ),
            ),
            ExprView::Const(v) => ExprView::Const(v.float_blind()),
        }
    }

    /// No float constant occurs in the expression.
    pub open spec fn float_free(self) -> bool
        decreases self,
    {
        match self {
            ExprView::Apply(_, args) => forall|i: int|
                0 <= i < args.len() ==> (#[trigger] args[i]).float_free(),
            ExprView::Const(v) => v.float_free(),
        }
    }
}

/// An expression without floats is the same when the floats are not looked at.
pub proof fn lemma_float_free_expr_blind(e: ExprView)
    requires
        e.float_free(),
    ensures
        e.float_blind() == e,
    decreases e,
{
    match e {
        ExprView::Const(v) => {
            lemma_float_free_blind(v);
        },
        ExprView::Apply(op, args) => {
            lemma_apply_blind(op, args);
            assert forall|i: int| 0 <= i < args.len() implies (#[trigger] args[i]).float_blind()
                == args[i] by {
                lemma_float_free_expr_blind(args[i]);
            }
            assert(blind_all(args) =~= args);
        },
    }
}

impl Clone for Expr {
    /// A copy of the expression, equal to it at every depth.
    fn clone(&self) -> (copy: Self)
        ensures
            copy@ == self@,
        decreases self,
    {
        match self {
            Expr::Const(v) => Expr::Const(v.clone()),
            Expr::Apply(op, args) => {
                broadcast use lemma_apply_view;

                let mut out: Vec<Expr> = Vec::new();
                let mut i: usize = 0;
                while i < args.len()
                    invariant
                        *self == Expr::Apply(*op, *args),
                        i <= args.len(),
                        out.len() == i,
                        forall|j: int| 0 <= j < i ==> out[j]@ == args[j]@,
                    decreases args.len() - i,
                {
                    assert(decreases_to!(self => self->Apply_1@[i as int]));
                    out.push(args[i].clone());
                    i += 1;
                }
                let copy = Expr::Apply(*op, out);
                assert(copy@->Apply_1 =~= self@->Apply_1);
                copy
            },
        }
    }
}

} // verus!
