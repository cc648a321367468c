//! The values that expressions compute and that mutation records are made of.
use vstd::prelude::*;

verus! {

/// A value of the query language.
///
/// A `Float` holds the bits of an IEEE 754 double; only the float unit that the
/// caller supplies reads them. A `Dict` lists its entries in the order they were
/// given; a well-formed one holds each key once.
#[derive(Debug, PartialEq)]
pub enum Value {
    Null,
    Bool(bool),
    Int(i64),
    Float(u64),
    Text(String),
    List(Vec<Value>),
    Dict(Vec<(String, Value)>),
}

/// What a [`Value`] is in specifications.
pub enum ValueView {
    Null,
    Bool(bool),
    Int(int),
    Float(u64),
    Text(Seq<char>),
    List(Seq<ValueView>),
    Dict(Seq<(Seq<char>, ValueView)>),
}

impl View for Value {
    type V = ValueView;

    open spec fn view(&self) -> ValueView
        decreases self,
    {
        match self {
            Value::Null => ValueView::Null,
            Value::Bool(b) => ValueView::Bool(*b),
            Value::Int(i) => ValueView::Int(*i as int),
            Value::Float(f) => ValueView::Float(*f),
            Value::Text(s) => ValueView::Text(s@),
            Value::List(items) => ValueView::List(
                Seq::new(
                    items.len() as nat,
                    |i: int|
                        if 0 <= i < items.len() {
                            items[i].view()
                        } else {
                            ValueView::Null
                        },
                ),
            ),
            Value::Dict(entries) => ValueView::Dict(
                Seq::new(
                    entries.len() as nat,
                    |i: int|
                        if 0 <= i < entries.len() {
                            (entries[i].0@, entries[i].1.view())
                        } else {
                            (Seq::empty(), ValueView::Null)
                        },
                ),
            ),
        }
    }
}

/// The views of the values of `items`, in order.
pub open spec fn views_of(items: Seq<Value>) -> Seq<ValueView> {
    Seq::new(items.len(), |i: int| items[i]@)
}

/// The views of the entries of a dictionary, in order.
pub open spec fn entry_views(entries: Seq<(String, Value)>) -> Seq<(Seq<char>, ValueView)> {
    Seq::new(entries.len(), |i: int| (entries[i].0@, entries[i].1@))
}

/// The view of a list is the list of the views of its items.
pub broadcast proof fn lemma_list_view(v: Value)
    requires
        v is List,
    ensures
        #[trigger] v@ == ValueView::List(views_of(v->List_0@)),
{
    reveal_with_fuel(<Value as View>::view, 2);
    assert(v@->List_0 =~= views_of(v->List_0@));
}

/// The view of a dictionary is the list of the views of its entries.
pub broadcast proof fn lemma_dict_view(v: Value)
    requires
        v is Dict,
    ensures
        #[trigger] v@ == ValueView::Dict(entry_views(v->Dict_0@)),
{
    reveal_with_fuel(<Value as View>::view, 2);
    assert(v@->Dict_0 =~= entry_views(v->Dict_0@));
}

/// A value without floats is the same when the floats are not looked at.
pub proof fn lemma_float_free_blind(v: ValueView)
    requires
        v.float_free(),
    ensures
        v.float_blind() == v,
    decreases v,
{
    reveal_with_fuel(ValueView::float_blind, 2);
    match v {
        ValueView::List(items) => {
            assert forall|i: int| 0 <= i < items.len() implies (#[trigger] items[i]).float_blind()
                == items[i] by {
                lemma_float_free_blind(items[i]);
            }
            assert(v.float_blind()->List_0 =~= items);
        },
        ValueView::Dict(entries) => {
            assert forall|i: int| 0 <= i < entries.len() implies (#[trigger] entries[i]).1.float_blind()
                == entries[i].1 by {
                lemma_float_free_blind(entries[i].1);
            }
            assert(v.float_blind()->Dict_0 =~= entries);
        },
        _ => {},
    }
}

pub broadcast group group_value_view {
    lemma_list_view,
    lemma_dict_view,
}

/// The value stored under `key` in `entries`: that of the first entry with that
/// key, if there is one.
pub open spec fn lookup(entries: Seq<(Seq<char>, ValueView)>, key: Seq<char>) -> Option<ValueView>
    decreases entries.len(),
{
    if entries.len() == 0 {
        None
    } else if entries[0].0 == key {
        Some(entries[0].1)
    } else {
        lookup(entries.drop_first(), key)
    }
}

/// No two entries of `entries` have the same key.
pub open spec fn keys_distinct(entries: Seq<(Seq<char>, ValueView)>) -> bool {
    forall|i: int, j: int|
        0 <= i < j < entries.len() ==> (#[trigger] entries[i]).0 != (#[trigger] entries[j]).0
}

impl ValueView {
    /// Every dictionary in the value, at any depth, holds each of its keys once.
    pub open spec fn well_formed(self) -> bool
        decreases self,
    {
        match self {
            ValueView::List(items) => forall|i: int|
                0 <= i < items.len() ==> (#[trigger] items[i]).well_formed(),
            ValueView::Dict(entries) => keys_distinct(entries) && forall|i: int|
                0 <= i < entries.len() ==> (#[trigger] entries[i]).1.well_formed(),
            _ => true,
        }
    }

    /// The value with every float in it, at any depth, replaced by the float
    /// whose bits are all zero: what is left of a value when the floats are
    /// not looked at.
    pub open spec fn float_blind(self) -> ValueView
        decreases self,
    {
        match self {
            ValueView::Float(_) => ValueView::Float(0),
            ValueView::List(items) => ValueView::List(
                Seq::new(
                    items.len(),
                    |i: int|
                        if 0 <= i < items.len() {
                            items[i].float_blind()
                        } else {
                            ValueView::Null
                        },
                ),
            ),
            ValueView::Dict(entries) => ValueView::Dict(
                Seq::new(
                    entries.len(),
                    |i: int|
                        if 0 <= i < entries.len() {
                            (entries[i].0, entries[i].1.float_blind())
                        } else {
                            (Seq::empty(), ValueView::Null)
                        },
                ),
            ),
            other => other,
        }
    }

    /// No float occurs in the value, at any depth.
    pub open spec fn float_free(self) -> bool
        decreases self,
    {
        match self {
            ValueView::Float(_) => false,
            ValueView::List(items) => forall|i: int|
                0 <= i < items.len() ==> (#[trigger] items[i]).float_free(),
            ValueView::Dict(entries) => forall|i: int|
                0 <= i < entries.len() ==> (#[trigger] entries[i]).1.float_free(),
            _ => true,
        }
    }
}

impl Clone for Value {
    /// A copy of the value, equal to it at every depth.
    fn clone(&self) -> (copy: Self)
        ensures
            copy@ == self@,
        decreases self,
    {
        match self {
            Value::Null => Value::Null,
            Value::Bool(b) => Value::Bool(*b),
            Value::Int(i) => Value::Int(*i),
            Value::Float(f) => Value::Float(*f),
            Value::Text(s) => Value::Text(s.clone()),
            Value::List(items) => {
                let mut out: Vec<Value> = Vec::new();
                let mut i: usize = 0;
                while i < items.len()
                    invariant
                        *self == Value::List(*items),
                        i <= items.len(),
                        out.len() == i,
                        forall|j: int| 0 <= j < i ==> out[j]@ == items[j]@,
                    decreases items.len() - i,
                {
                    assert(decreases_to!(self => self->List_0@[i as int]));
                    out.push(items[i].clone());
                    i += 1;
                }
                let copy = Value::List(out);
                assert(copy@->List_0 =~= self@->List_0);
                copy
            },
            Value::Dict(entries) => {
                let mut out: Vec<(String, Value)> = Vec::new();
                let mut i: usize = 0;
                while i < entries.len()
                    invariant
                        *self == Value::Dict(*entries),
                        i <= entries.len(),
                        out.len() == i,
                        forall|j: int|
                            0 <= j < i ==> out[j].0@ == entries[j].0@ && out[j].1@ == entries[j].1@,
                    decreases entries.len() - i,
                {
                    assert(decreases_to!(self => self->Dict_0@[i as int].1));
                    out.push((entries[i].0.clone(), entries[i].1.clone()));
                    i += 1;
                }
                let copy = Value::Dict(out);
                assert(copy@->Dict_0 =~= self@->Dict_0);
                copy
            },
        }
    }
}

impl Value {
    /// The value stored under `key`, where this value is a dictionary that has
    /// the key.
    pub fn get(&self, key: &str) -> (found: Option<&Value>)
        ensures
            match self@ {
                ValueView::Dict(entries) => match found {
                    Some(v) => lookup(entries, key@) == Some(v@),
                    None => lookup(entries, key@) is None,
                },
                _ => found is None,
            },
    {
        match self {
            Value::Dict(entries) => {
                broadcast use group_value_view;

                let wanted = String::from_str(key);
                let ghost dict = self@->Dict_0;
                assert(dict.skip(0) =~= dict);
                let mut i: usize = 0;
                while i < entries.len()
                    invariant
                        self@ == ValueView::Dict(dict),
                        wanted@ == key@,
                        i <= entries.len(),
                        dict.len() == entries.len(),
                        forall|j: int|
                            0 <= j < dict.len() ==> dict[j] == (entries[j].0@, entries[j].1@),
                        lookup(dict, key@) == lookup(dict.skip(i as int), key@),
                    decreases entries.len() - i,
                {
                    assert(dict.skip(i as int).drop_first() =~= dict.skip(i as int + 1));
                    assert(dict.skip(i as int)[0] == dict[i as int]);
                    if entries[i].0 == wanted {
                        return Some(&entries[i].1);
                    }
                    i += 1;
                }
                None
            },
            _ => None,
        }
    }

    /// Whether no key of `entries[..upto]` is the key of `entries[upto]`.
    fn key_is_new(entries: &Vec<(String, Value)>, upto: usize) -> (b: bool)
        requires
            upto < entries.len(),
        ensures
            b == forall|i: int| 0 <= i < upto ==> (#[trigger] entries[i]).0@ != entries[upto as int].0@,
    {
        let mut i: usize = 0;
        while i < upto
            invariant
                i <= upto < entries.len(),
                forall|j: int| 0 <= j < i ==> (#[trigger] entries[j]).0@ != entries[upto as int].0@,
            decreases upto - i,
        {
            if entries[i].0 == entries[upto].0 {
                return false;
            }
            i += 1;
        }
        true
    }

    /// Whether every dictionary in the value, at any depth, holds each of its
    /// keys once.
    pub fn is_well_formed(&self) -> (b: bool)
        ensures
            b == self@.well_formed(),
        decreases self,
    {
        broadcast use group_value_view;

        match self {
            Value::List(items) => {
                let ghost vs = views_of(items@);
                let mut i: usize = 0;
                while i < items.len()
                    invariant
                        *self == Value::List(*items),
                        self@ == ValueView::List(vs),
                        vs == views_of(items@),
                        i <= items.len(),
                        forall|j: int| 0 <= j < i ==> (#[trigger] vs[j]).well_formed(),
                    decreases items.len() - i,
                {
                    assert(decreases_to!(self => self->List_0@[i as int]));
                    assert(vs[i as int] == items[i as int]@);
                    if !items[i].is_well_formed() {
                        assert(!self@->List_0[i as int].well_formed());
                        return false;
                    }
                    i += 1;
                }
                true
            },
            Value::Dict(entries) => {
                let ghost es = entry_views(entries@);
                let mut i: usize = 0;
                while i < entries.len()
                    invariant
                        *self == Value::Dict(*entries),
                        self@ == ValueView::Dict(es),
                        es == entry_views(entries@),
                        i <= entries.len(),
                        forall|j: int| 0 <= j < i ==> (#[trigger] es[j]).1.well_formed(),
                        forall|j: int, k: int|
                            0 <= j < k < i ==> (#[trigger] es[j]).0 != (#[trigger] es[k]).0,
                    decreases entries.len() - i,
                {
                    assert(decreases_to!(self => self->Dict_0@[i as int].1));
                    assert(es[i as int] == (entries[i as int].0@, entries[i as int].1@));
                    if !Self::key_is_new(entries, i) {
                        let ghost j = choose|j: int|
                            0 <= j < i && entries[j].0@ == entries[i as int].0@;
                        assert(es[j].0 == es[i as int].0);
                        assert(!keys_distinct(self@->Dict_0));
                        return false;
                    }
                    if !entries[i].1.is_well_formed() {
                        assert(!self@->Dict_0[i as int].1.well_formed());
                        return false;
                    }
                    assert forall|j: int, k: int| 0 <= j < k < i + 1 implies (#[trigger] es[j]).0
                        != (#[trigger] es[k]).0 by {
                        if k == i {
                            assert(entries[j].0@ != entries[i as int].0@);
                            assert(es[j] == (entries[j].0@, entries[j].1@));
                        }
                    }
                    i += 1;
                }
                true
            },
            _ => true,
        }
    }
}

} // verus!
