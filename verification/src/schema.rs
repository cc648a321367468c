//! Tables as the catalog describes them: their kind, their columns and the
//! types of these.
use crate::error::TableKind;
use crate::value::{lemma_list_view, views_of, Value, ValueView};
use vstd::prelude::*;

verus! {

/// The type of a column.
#[derive(Debug, PartialEq, Eq)]
pub enum Typing {
    Any,
    Bool,
    Int,
    Float,
    Text,
    /// Null, or a value of the type inside.
    Nullable(Box<Typing>),
    /// A list of values of the type inside.
    List(Box<Typing>),
}

impl Typing {
    /// Whether a column of this type takes the value `v`. Only `Any` and a
    /// `Nullable` take null.
    pub open spec fn accepts(self, v: ValueView) -> bool
        decreases self,
    {
        match self {
            Typing::Any => true,
            Typing::Bool => v is Bool,
            Typing::Int => v is Int,
            Typing::Float => v is Float,
            Typing::Text => v is Text,
            Typing::Nullable(inner) => v is Null || inner.accepts(v),
            Typing::List(inner) => v matches ValueView::List(items) && forall|i: int|
                0 <= i < items.len() ==> inner.accepts(#[trigger] items[i]),
        }
    }

    /// Whether a column of this type takes the value `v`.
    pub fn admits(&self, v: &Value) -> (b: bool)
        ensures
            b == self.accepts(v@),
        decreases self,
    {
        match self {
            Typing::Any => true,
            Typing::Bool => match v {
                Value::Bool(_) => true,
                _ => false,
            },
            Typing::Int => match v {
                Value::Int(_) => true,
                _ => false,
            },
            Typing::Float => match v {
                Value::Float(_) => true,
                _ => false,
            },
            Typing::Text => match v {
                Value::Text(_) => true,
                _ => false,
            },
            Typing::Nullable(inner) => match v {
                Value::Null => true,
                _ => inner.admits(v),
            },
            Typing::List(inner) => match v {
                Value::List(items) => {
                    broadcast use lemma_list_view;

                    let ghost vs = views_of(items@);
                    let mut i: usize = 0;
                    while i < items.len()
                        invariant
                            *self == Typing::List(*inner),
                            v@ == ValueView::List(vs),
                            vs == views_of(items@),
                            i <= items.len(),
                            forall|j: int| 0 <= j < i ==> inner.accepts(#[trigger] vs[j]),
                        decreases items.len() - i,
                    {
                        assert(vs[i as int] == items[i as int]@);
                        assert(decreases_to!(self => self->List_0));
                        if !inner.admits(&items[i]) {
                            assert(!self->List_0.accepts(v@->List_0[i as int]));
                            return false;
                        }
                        i += 1;
                    }
                    true
                },
                _ => false,
            },
        }
    }
}

impl Clone for Typing {
    fn clone(&self) -> (copy: Self)
        ensures
            copy == *self,
        decreases self,
    {
        match self {
            Typing::Any => Typing::Any,
            Typing::Bool => Typing::Bool,
            Typing::Int => Typing::Int,
            Typing::Float => Typing::Float,
            Typing::Text => Typing::Text,
            Typing::Nullable(inner) => Typing::Nullable(Box::new((**inner).clone())),
            Typing::List(inner) => Typing::List(Box::new((**inner).clone())),
        }
    }
}

/// A column of a table.
#[derive(Debug, PartialEq)]
pub struct Col {
    pub name: String,
    pub typ: Typing,
    pub default: Option<Value>,
}

/// What a [`Col`] is in specifications.
pub struct ColView {
    pub name: Seq<char>,
    pub typ: Typing,
    pub default: Option<ValueView>,
}

impl View for Col {
    type V = ColView;

    open spec fn view(&self) -> ColView {
        ColView {
            name: self.name@,
            typ: self.typ,
            default: match self.default {
                Some(v) => Some(v@),
                None => None,
            },
        }
    }
}

/// The views of the columns of `cols`, in order.
pub open spec fn col_views(cols: Seq<Col>) -> Seq<ColView> {
    Seq::new(cols.len(), |i: int| cols[i]@)
}

/// The types of the columns `cols`, in order.
pub open spec fn typings(cols: Seq<ColView>) -> Seq<Typing> {
    Seq::new(cols.len(), |i: int| cols[i].typ)
}

/// The types of the columns `cols`, in order.
pub fn typing_of(cols: &Vec<Col>) -> (types: Vec<Typing>)
    ensures
        types@ == typings(col_views(cols@)),
{
    let mut types: Vec<Typing> = Vec::new();
    let mut i: usize = 0;
    while i < cols.len()
        invariant
            i <= cols.len(),
            types.len() == i,
            forall|j: int| 0 <= j < i ==> types[j] == cols[j].typ,
        decreases cols.len() - i,
    {
        types.push(cols[i].typ.clone());
        i += 1;
    }
    assert(types@ =~= typings(col_views(cols@)));
    types
}

/// A table as the catalog describes it.
#[derive(Debug, PartialEq)]
pub enum TableDef {
    /// Entities found by their key.
    Node { name: String, keys: Vec<Col>, cols: Vec<Col> },
    /// Directed relations from the rows of `src` to the rows of `dst`.
    Edge { src: String, dst: String, name: String, keys: Vec<Col>, cols: Vec<Col> },
    /// More columns for the rows of the table `attached`, under their key.
    Columns { attached: String, name: String, cols: Vec<Col> },
}

/// What a [`TableDef`] is in specifications.
pub enum TableDefView {
    Node { name: Seq<char>, keys: Seq<ColView>, cols: Seq<ColView> },
    Edge {
        src: Seq<char>,
        dst: Seq<char>,
        name: Seq<char>,
        keys: Seq<ColView>,
        cols: Seq<ColView>,
    },
    Columns { attached: Seq<char>, name: Seq<char>, cols: Seq<ColView> },
}

impl View for TableDef {
    type V = TableDefView;

    open spec fn view(&self) -> TableDefView {
        match self {
            TableDef::Node { name, keys, cols } => TableDefView::Node {
                name: name@,
                keys: col_views(keys@),
                cols: col_views(cols@),
            },
            TableDef::Edge { src, dst, name, keys, cols } => TableDefView::Edge {
                src: src@,
                dst: dst@,
                name: name@,
                keys: col_views(keys@),
                cols: col_views(cols@),
            },
            TableDef::Columns { attached, name, cols } => TableDefView::Columns {
                attached: attached@,
                name: name@,
                cols: col_views(cols@),
            },
        }
    }
}

/// The views of the tables of `defs`, in order.
pub open spec fn def_views(defs: Seq<TableDef>) -> Seq<TableDefView> {
    Seq::new(defs.len(), |i: int| defs[i]@)
}

impl TableDefView {
    /// The name of the table.
    pub open spec fn name(self) -> Seq<char> {
        match self {
            TableDefView::Node { name, .. } => name,
            TableDefView::Edge { name, .. } => name,
            TableDefView::Columns { name, .. } => name,
        }
    }

    /// The kind of the table.
    pub open spec fn kind(self) -> TableKind {
        match self {
            TableDefView::Node { .. } => TableKind::Node,
            TableDefView::Edge { .. } => TableKind::Edge,
            TableDefView::Columns { .. } => TableKind::Assoc,
        }
    }
}

impl TableDef {
    /// The name of the table.
    pub fn name(&self) -> (name: &String)
        ensures
            name@ == self@.name(),
    {
        match self {
            TableDef::Node { name, .. } => name,
            TableDef::Edge { name, .. } => name,
            TableDef::Columns { name, .. } => name,
        }
    }

    /// The kind of the table.
    pub fn kind(&self) -> (k: TableKind)
        ensures
            k == self@.kind(),
    {
        match self {
            TableDef::Node { .. } => TableKind::Node,
            TableDef::Edge { .. } => TableKind::Edge,
            TableDef::Columns { .. } => TableKind::Assoc,
        }
    }
}

} // verus!
