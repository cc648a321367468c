//! How two values stand to each other in the order of their type.
use crate::error::{Error, ErrorView};
use crate::float::{FloatUnit, Relation};
use crate::text::chars_of;
use crate::value::{entry_views, group_value_view, views_of, Value, ValueView};
use vstd::prelude::*;

verus! {

/// How one value stands to another, or the failure to compare the two.
pub type Standing = Result<Relation, ErrorView>;

/// The standing that is the relation `rel`.
pub open spec fn stands(rel: Relation) -> Standing {
    Ok(rel)
}

/// What a relation found, or the failure to find one, is in specifications.
pub open spec fn standing(r: Result<Relation, Error>) -> Standing {
    match r {
        Ok(rel) => Ok(rel),
        Err(e) => Err(e@),
    }
}

/// How the integer `x` stands to the integer `y`.
pub open spec fn int_relation(x: int, y: int) -> Relation {
    if x < y {
        Relation::Less
    } else if x == y {
        Relation::Equal
    } else {
        Relation::Greater
    }
}

/// How `x` stands to `y`, false before true.
pub open spec fn bool_relation(x: bool, y: bool) -> Relation {
    if x == y {
        Relation::Equal
    } else if y {
        Relation::Less
    } else {
        Relation::Greater
    }
}

/// How the text `a` stands to the text `b` from position `i` on, where they
/// are the same before it: the first character in which they differ decides,
/// and where one ends first it stands before the other.
pub open spec fn text_relation_from(a: Seq<char>, b: Seq<char>, i: int) -> Relation
    decreases a.len() - i,
{
    if i < 0 || i >= a.len() || i >= b.len() {
        int_relation(a.len() as int, b.len() as int)
    } else if a[i] != b[i] {
        int_relation(a[i] as int, b[i] as int)
    } else {
        text_relation_from(a, b, i + 1)
    }
}

/// How the text `a` stands to the text `b` in the order of the dictionary,
/// characters ordered by their code.
pub open spec fn text_relation(a: Seq<char>, b: Seq<char>) -> Relation {
    text_relation_from(a, b, 0)
}

/// `r` may be how `a` stands to `b`.
///
/// Two nulls are equal. Two booleans, two integers and two texts stand as the
/// order of their type says. Two lists are compared item by item, and two
/// dictionaries entry by entry, key before value: the first pair that does not
/// compare as equal decides, and where there is none, the shorter comes first.
/// Where one value is a float and the other a float or an integer, how they
/// stand is for the float unit to say. Values of any other two types cannot be
/// compared, which is a type error.
pub open spec fn compares(a: ValueView, b: ValueView, r: Standing) -> bool
    decreases a, 0int,
{
    match (a, b) {
        (ValueView::Null, ValueView::Null) => r == stands(Relation::Equal),
        (ValueView::Bool(x), ValueView::Bool(y)) => r == stands(
            bool_relation(x, y),
        ),
        (ValueView::Int(x), ValueView::Int(y)) => r == stands(
            int_relation(x, y),
        ),
        (ValueView::Text(x), ValueView::Text(y)) => r == stands(
            text_relation(x, y),
        ),
        (ValueView::Int(_), ValueView::Float(_))
        | (ValueView::Float(_), ValueView::Int(_))
        | (ValueView::Float(_), ValueView::Float(_)) => r is Ok,
        (ValueView::List(xs), ValueView::List(ys)) => compares_items(xs, ys, 0, r),
        (ValueView::Dict(xs), ValueView::Dict(ys)) => compares_entries(xs, ys, 0, r),
        _ => r == Err::<Relation, ErrorView>(ErrorView::Type),
    }
}

/// `r` may be how the items `xs[i..]` stand to the items `ys[i..]`.
pub open spec fn compares_items(xs: Seq<ValueView>, ys: Seq<ValueView>, i: int, r: Standing) -> bool
    decreases xs, xs.len() - i,
{
    if i < 0 || i >= xs.len() || i >= ys.len() {
        r == stands(int_relation(xs.len() as int, ys.len() as int))
    } else {
        ||| compares(xs[i], ys[i], Ok(Relation::Equal)) && compares_items(xs, ys, i + 1, r)
        ||| r != stands(Relation::Equal) && compares(xs[i], ys[i], r)
    }
}

/// `r` may be how the entries `xs[i..]` stand to the entries `ys[i..]`.
pub open spec fn compares_entries(
    xs: Seq<(Seq<char>, ValueView)>,
    ys: Seq<(Seq<char>, ValueView)>,
    i: int,
    r: Standing,
) -> bool
    decreases xs, xs.len() - i,
{
    if i < 0 || i >= xs.len() || i >= ys.len() {
        r == stands(int_relation(xs.len() as int, ys.len() as int))
    } else if text_relation(xs[i].0, ys[i].0) != Relation::Equal {
        r == stands(text_relation(xs[i].0, ys[i].0))
    } else {
        ||| compares(xs[i].1, ys[i].1, Ok(Relation::Equal)) && compares_entries(xs, ys, i + 1, r)
        ||| r != stands(Relation::Equal) && compares(xs[i].1, ys[i].1, r)
    }
}

/// Values without floats stand to each other in one way only.
pub proof fn lemma_compares_determined(a: ValueView, b: ValueView, r1: Standing, r2: Standing)
    requires
        a.float_free(),
        b.float_free(),
        compares(a, b, r1),
        compares(a, b, r2),
    ensures
        r1 == r2,
    decreases a, 0int,
{
    match (a, b) {
        (ValueView::List(xs), ValueView::List(ys)) => {
            lemma_items_determined(xs, ys, 0, r1, r2);
        },
        (ValueView::Dict(xs), ValueView::Dict(ys)) => {
            lemma_entries_determined(xs, ys, 0, r1, r2);
        },
        _ => {},
    }
}

/// Items without floats stand to each other in one way only.
proof fn lemma_items_determined(
    xs: Seq<ValueView>,
    ys: Seq<ValueView>,
    i: int,
    r1: Standing,
    r2: Standing,
)
    requires
        0 <= i,
        forall|k: int| 0 <= k < xs.len() ==> (#[trigger] xs[k]).float_free(),
        forall|k: int| 0 <= k < ys.len() ==> (#[trigger] ys[k]).float_free(),
        compares_items(xs, ys, i, r1),
        compares_items(xs, ys, i, r2),
    ensures
        r1 == r2,
    decreases xs, xs.len() - i,
{
    if i < xs.len() && i < ys.len() {
        let equal = stands(Relation::Equal);
        let on1 = compares(xs[i], ys[i], equal) && compares_items(xs, ys, i + 1, r1);
        let on2 = compares(xs[i], ys[i], equal) && compares_items(xs, ys, i + 1, r2);
        if on1 && on2 {
            lemma_items_determined(xs, ys, i + 1, r1, r2);
        } else if on1 {
            lemma_compares_determined(xs[i], ys[i], equal, r2);
        } else if on2 {
            lemma_compares_determined(xs[i], ys[i], equal, r1);
        } else {
            lemma_compares_determined(xs[i], ys[i], r1, r2);
        }
    }
}

/// Entries without floats stand to each other in one way only.
proof fn lemma_entries_determined(
    xs: Seq<(Seq<char>, ValueView)>,
    ys: Seq<(Seq<char>, ValueView)>,
    i: int,
    r1: Standing,
    r2: Standing,
)
    requires
        0 <= i,
        forall|k: int| 0 <= k < xs.len() ==> (#[trigger] xs[k]).1.float_free(),
        forall|k: int| 0 <= k < ys.len() ==> (#[trigger] ys[k]).1.float_free(),
        compares_entries(xs, ys, i, r1),
        compares_entries(xs, ys, i, r2),
    ensures
        r1 == r2,
    decreases xs, xs.len() - i,
{
    if i < xs.len() && i < ys.len() && text_relation(xs[i].0, ys[i].0) == Relation::Equal {
        let equal = stands(Relation::Equal);
        let on1 = compares(xs[i].1, ys[i].1, equal) && compares_entries(xs, ys, i + 1, r1);
        let on2 = compares(xs[i].1, ys[i].1, equal) && compares_entries(xs, ys, i + 1, r2);
        if on1 && on2 {
            lemma_entries_determined(xs, ys, i + 1, r1, r2);
        } else if on1 {
            lemma_compares_determined(xs[i].1, ys[i].1, equal, r2);
        } else if on2 {
            lemma_compares_determined(xs[i].1, ys[i].1, equal, r1);
        } else {
            lemma_compares_determined(xs[i].1, ys[i].1, r1, r2);
        }
    }
}

/// How the text `a` stands to the text `b` in the order of the dictionary.
pub fn text_order(a: &str, b: &str) -> (rel: Relation)
    ensures
        rel == text_relation(a@, b@),
{
    let x = chars_of(a);
    let y = chars_of(b);
    let mut i: usize = 0;
    while i < x.len() && i < y.len()
        invariant
            x@ == a@,
            y@ == b@,
            i <= x.len(),
            i <= y.len(),
            text_relation(a@, b@) == text_relation_from(a@, b@, i as int),
        decreases x.len() - i,
    {
        if x[i] < y[i] {
            return Relation::Less;
        } else if x[i] > y[i] {
            return Relation::Greater;
        }
        i += 1;
    }
    if x.len() < y.len() {
        Relation::Less
    } else if x.len() == y.len() {
        Relation::Equal
    } else {
        Relation::Greater
    }
}

/// How the length `x` stands to the length `y`.
fn length_order(x: usize, y: usize) -> (rel: Relation)
    ensures
        rel == int_relation(x as int, y as int),
{
    if x < y {
        Relation::Less
    } else if x == y {
        Relation::Equal
    } else {
        Relation::Greater
    }
}

/// How `a` stands to `b`. An integer beside a float is made a float first.
pub fn relate<F: FloatUnit>(a: &Value, b: &Value) -> (r: Result<Relation, Error>)
    ensures
        compares(a@, b@, standing(r)),
    decreases a,
{
    broadcast use group_value_view;

    match (a, b) {
        (Value::Null, Value::Null) => Ok(Relation::Equal),
        (Value::Bool(x), Value::Bool(y)) => Ok(
            if *x == *y {
                Relation::Equal
            } else if *y {
                Relation::Less
            } else {
                Relation::Greater
            },
        ),
        (Value::Int(x), Value::Int(y)) => Ok(
            if *x < *y {
                Relation::Less
            } else if *x == *y {
                Relation::Equal
            } else {
                Relation::Greater
            },
        ),
        (Value::Text(x), Value::Text(y)) => Ok(text_order(x.as_str(), y.as_str())),
        (Value::Int(x), Value::Float(y)) => Ok(F::compare(F::from_int(*x), *y)),
        (Value::Float(x), Value::Int(y)) => Ok(F::compare(*x, F::from_int(*y))),
        (Value::Float(x), Value::Float(y)) => Ok(F::compare(*x, *y)),
        (Value::List(xs), Value::List(ys)) => {
            let ghost xv = views_of(xs@);
            let ghost yv = views_of(ys@);
            let mut i: usize = 0;
            while i < xs.len() && i < ys.len()
                invariant
                    *a == Value::List(*xs),
                    xv == views_of(xs@),
                    yv == views_of(ys@),
                    a@ == ValueView::List(xv),
                    b@ == ValueView::List(yv),
                    i <= xs.len(),
                    i <= ys.len(),
                    forall|r: Standing| #[trigger]
                        compares_items(xv, yv, i as int, r) ==> compares_items(xv, yv, 0, r),
                decreases xs.len() - i,
            {
                assert(decreases_to!(a => a->List_0@[i as int]));
                assert(xv[i as int] == xs[i as int]@ && yv[i as int] == ys[i as int]@);
                match relate::<F>(&xs[i], &ys[i]) {
                    Ok(Relation::Equal) => {
                        assert forall|r: Standing| #[trigger]
                            compares_items(xv, yv, i + 1, r) implies compares_items(
                            xv,
                            yv,
                            0,
                            r,
                        ) by {
                            assert(compares_items(xv, yv, i as int, r));
                        }
                    },
                    Ok(rel) => {
                        assert(compares_items(xv, yv, i as int, Ok(rel)));
                        return Ok(rel);
                    },
                    Err(e) => {
                        assert(compares_items(xv, yv, i as int, Err(e@)));
                        return Err(e);
                    },
                }
                i += 1;
            }
            let rel = length_order(xs.len(), ys.len());
            assert(compares_items(xv, yv, i as int, Ok(rel)));
            Ok(rel)
        },
        (Value::Dict(xs), Value::Dict(ys)) => {
            let ghost xv = entry_views(xs@);
            let ghost yv = entry_views(ys@);
            let mut i: usize = 0;
            while i < xs.len() && i < ys.len()
                invariant
                    *a == Value::Dict(*xs),
                    xv == entry_views(xs@),
                    yv == entry_views(ys@),
                    a@ == ValueView::Dict(xv),
                    b@ == ValueView::Dict(yv),
                    i <= xs.len(),
                    i <= ys.len(),
                    forall|r: Standing| #[trigger]
                        compares_entries(xv, yv, i as int, r) ==> compares_entries(xv, yv, 0, r),
                decreases xs.len() - i,
            {
                assert(decreases_to!(a => a->Dict_0@[i as int].1));
                assert(xv[i as int] == (xs[i as int].0@, xs[i as int].1@));
                assert(yv[i as int] == (ys[i as int].0@, ys[i as int].1@));
                let by_key = text_order(xs[i].0.as_str(), ys[i].0.as_str());
                if by_key != Relation::Equal {
                    assert(compares_entries(xv, yv, i as int, Ok(by_key)));
                    return Ok(by_key);
                }
                match relate::<F>(&xs[i].1, &ys[i].1) {
                    Ok(Relation::Equal) => {
                        assert forall|r: Standing| #[trigger]
                            compares_entries(xv, yv, i + 1, r) implies compares_entries(
                            xv,
                            yv,
                            0,
                            r,
                        ) by {
                            assert(compares_entries(xv, yv, i as int, r));
                        }
                    },
                    Ok(rel) => {
                        assert(compares_entries(xv, yv, i as int, Ok(rel)));
                        return Ok(rel);
                    },
                    Err(e) => {
                        assert(compares_entries(xv, yv, i as int, Err(e@)));
                        return Err(e);
                    },
                }
                i += 1;
            }
            let rel = length_order(xs.len(), ys.len());
            assert(compares_entries(xv, yv, i as int, Ok(rel)));
            Ok(rel)
        },
        _ => Err(Error::Type),
    }
}

} // verus!
