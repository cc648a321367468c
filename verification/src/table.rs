//! What a mutation statement keeps of the tables it has resolved.
use crate::error::{Error, ErrorView, Misuse, TableKind};
use crate::schema::{
    def_views, typing_of, typings, ColView, TableDef, TableDefView, Typing,
};
use vstd::prelude::*;

verus! {

/// An association attached to a table: its name and the types of its columns.
#[derive(Debug, PartialEq)]
pub struct AssocInfo {
    pub name: String,
    pub val_typing: Vec<Typing>,
}

/// What an [`AssocInfo`] is in specifications.
pub struct AssocInfoView {
    pub name: Seq<char>,
    pub val_typing: Seq<Typing>,
}

impl View for AssocInfo {
    type V = AssocInfoView;

    open spec fn view(&self) -> AssocInfoView {
        AssocInfoView { name: self.name@, val_typing: self.val_typing@ }
    }
}

/// What the manager keeps of a table that records can be written to.
#[derive(Debug, PartialEq)]
pub struct TableInfo {
    pub name: String,
    /// `Node` or `Edge`.
    pub kind: TableKind,
    /// The types of the key columns, in order.
    pub key_typing: Vec<Typing>,
    /// The types of the value columns, in order.
    pub val_typing: Vec<Typing>,
    /// Of an edge, the tables it leads from and to.
    pub endpoints: Option<(String, String)>,
    /// The associations attached to the table.
    pub assocs: Vec<AssocInfo>,
}

/// What a [`TableInfo`] is in specifications.
pub struct TableInfoView {
    pub name: Seq<char>,
    pub kind: TableKind,
    pub key_typing: Seq<Typing>,
    pub val_typing: Seq<Typing>,
    pub endpoints: Option<(Seq<char>, Seq<char>)>,
    pub assocs: Seq<AssocInfoView>,
}

/// The views of the associations of `assocs`, in order.
pub open spec fn assoc_views(assocs: Seq<AssocInfo>) -> Seq<AssocInfoView> {
    Seq::new(assocs.len(), |i: int| assocs[i]@)
}

impl View for TableInfo {
    type V = TableInfoView;

    open spec fn view(&self) -> TableInfoView {
        TableInfoView {
            name: self.name@,
            kind: self.kind,
            key_typing: self.key_typing@,
            val_typing: self.val_typing@,
            endpoints: match self.endpoints {
                Some((src, dst)) => Some((src@, dst@)),
                None => None,
            },
            assocs: assoc_views(self.assocs@),
        }
    }
}

/// The views of the tables of `infos`, in order.
pub open spec fn info_views(infos: Seq<TableInfo>) -> Seq<TableInfoView> {
    Seq::new(infos.len(), |i: int| infos[i]@)
}

/// Every table of `related` is an association attached to the table `name`.
pub open spec fn all_attached(name: Seq<char>, related: Seq<TableDefView>) -> bool {
    forall|i: int|
        0 <= i < related.len() ==> (#[trigger] related[i]) is Columns
            && related[i]->attached == name
}

/// The associations `related`, each with its name and the types of its columns.
pub open spec fn attached_infos(related: Seq<TableDefView>) -> Seq<AssocInfoView> {
    Seq::new(
        related.len(),
        |i: int|
            AssocInfoView {
                name: related[i]->Columns_name,
                val_typing: typings(related[i]->Columns_cols),
            },
    )
}

/// What the manager keeps of the table `name`, from what the catalog answered:
/// the table `def`, if it has one of that name, and the tables `related` that
/// it lists as attached to it.
///
/// A name without a table is an undefined type. The table must carry the name
/// it was asked for under, and every table attached to it must be an
/// association of it: anything else is bad data. An association cannot be
/// written to. Of a node and an edge, the key typing comes from the key
/// columns and the value typing from the value columns.
pub open spec fn table_info_of(
    name: Seq<char>,
    def: Option<TableDefView>,
    related: Seq<TableDefView>,
) -> Result<TableInfoView, ErrorView> {
    match def {
        None => Err(ErrorView::UndefinedType(name)),
        Some(table) => if table.name() != name {
            Err(ErrorView::BadDataFormat(name))
        } else if table is Columns {
            Err(ErrorView::Logic(Misuse::NotInsertable(TableKind::Assoc)))
        } else if !all_attached(name, related) {
            Err(ErrorView::BadDataFormat(name))
        } else {
            Ok(
                TableInfoView {
                    name,
                    kind: table.kind(),
                    key_typing: typings(keys_of(table)),
                    val_typing: typings(cols_of(table)),
                    endpoints: match table {
                        TableDefView::Edge { src, dst, .. } => Some((src, dst)),
                        _ => None,
                    },
                    assocs: attached_infos(related),
                },
            )
        },
    }
}

/// The key columns of a table; an association has none of its own.
pub open spec fn keys_of(table: TableDefView) -> Seq<ColView> {
    match table {
        TableDefView::Node { keys, .. } => keys,
        TableDefView::Edge { keys, .. } => keys,
        TableDefView::Columns { .. } => Seq::empty(),
    }
}

/// The value columns of a table.
pub open spec fn cols_of(table: TableDefView) -> Seq<ColView> {
    match table {
        TableDefView::Node { cols, .. } => cols,
        TableDefView::Edge { cols, .. } => cols,
        TableDefView::Columns { cols, .. } => cols,
    }
}

/// The position of the first table called `name` among `cache[i..]`.
pub open spec fn position_from(cache: Seq<TableInfoView>, name: Seq<char>, i: int) -> Option<int>
    decreases cache.len() - i,
{
    if i < 0 || i >= cache.len() {
        None
    } else if cache[i].name == name {
        Some(i)
    } else {
        position_from(cache, name, i + 1)
    }
}

/// The table called `name` in the cache, if it holds one.
pub open spec fn cached(cache: Seq<TableInfoView>, name: Seq<char>) -> Option<TableInfoView> {
    match position_from(cache, name, 0) {
        Some(i) => Some(cache[i]),
        None => None,
    }
}

/// No two tables of the cache have the same name.
pub open spec fn names_distinct(cache: Seq<TableInfoView>) -> bool {
    forall|i: int, j: int|
        0 <= i < j < cache.len() ==> (#[trigger] cache[i]).name != (#[trigger] cache[j]).name
}

/// The associations `related`, each with its name and the types of its
/// columns, where every one of them is an association attached to `name`.
fn attached_of(name: &String, related: &Vec<TableDef>) -> (r: Option<Vec<AssocInfo>>)
    ensures
        r is Some == all_attached(name@, def_views(related@)),
        r matches Some(infos) ==> assoc_views(infos@) == attached_infos(def_views(related@)),
{
    let ghost rv = def_views(related@);
    let mut infos: Vec<AssocInfo> = Vec::new();
    let mut i: usize = 0;
    while i < related.len()
        invariant
            rv == def_views(related@),
            i <= related.len(),
            infos.len() == i,
            forall|j: int|
                0 <= j < i ==> (#[trigger] rv[j]) is Columns && rv[j]->attached == name@
                    && infos[j]@ == (AssocInfoView {
                    name: rv[j]->Columns_name,
                    val_typing: typings(rv[j]->Columns_cols),
                }),
        decreases related.len() - i,
    {
        assert(rv[i as int] == related[i as int]@);
        match &related[i] {
            TableDef::Columns { attached, name: assoc_name, cols } => {
                if !(*attached == *name) {
                    return None;
                }
                infos.push(AssocInfo { name: assoc_name.clone(), val_typing: typing_of(cols) });
            },
            _ => {
                return None;
            },
        }
        i += 1;
    }
    assert(assoc_views(infos@) =~= attached_infos(rv));
    Some(infos)
}

/// What a resolved table, or the failure to resolve one, is in specifications.
pub open spec fn info_outcome(r: Result<TableInfo, Error>) -> Result<TableInfoView, ErrorView> {
    match r {
        Ok(info) => Ok(info@),
        Err(e) => Err(e@),
    }
}

/// What the manager keeps of the table `name`, from what the catalog answered.
pub fn resolve_table(name: String, def: Option<TableDef>, related: Vec<TableDef>) -> (r: Result<
    TableInfo,
    Error,
>)
    ensures
        info_outcome(r) == table_info_of(
            name@,
            match def {
                Some(d) => Some(d@),
                None => None,
            },
            def_views(related@),
        ),
{
    let table = match def {
        None => {
            return Err(Error::UndefinedType(name));
        },
        Some(table) => table,
    };
    if !(*table.name() == name) {
        return Err(Error::BadDataFormat(name));
    }
    let (kind, keys, cols, endpoints) = match table {
        TableDef::Columns { .. } => {
            return Err(Error::Logic(Misuse::NotInsertable(TableKind::Assoc)));
        },
        TableDef::Node { name: _, keys, cols } => (TableKind::Node, keys, cols, None),
        TableDef::Edge { src, dst, name: _, keys, cols } => (
            TableKind::Edge,
            keys,
            cols,
            Some((src, dst)),
        ),
    };
    match attached_of(&name, &related) {
        None => Err(Error::BadDataFormat(name)),
        Some(assocs) => Ok(
            TableInfo {
                name,
                kind,
                key_typing: typing_of(&keys),
                val_typing: typing_of(&cols),
                endpoints,
                assocs,
            },
        ),
    }
}

/// The first table called `name` in the cache, and nothing where it holds none.
pub fn find(cache: &Vec<TableInfo>, name: &String) -> (r: Option<usize>)
    ensures
        match r {
            Some(i) => position_from(info_views(cache@), name@, 0) == Some(i as int) && i
                < cache.len() && cache[i as int]@.name == name@,
            None => position_from(info_views(cache@), name@, 0) is None,
        },
{
    let ghost cv = info_views(cache@);
    let mut i: usize = 0;
    while i < cache.len()
        invariant
            cv == info_views(cache@),
            i <= cache.len(),
            position_from(cv, name@, 0) == position_from(cv, name@, i as int),
        decreases cache.len() - i,
    {
        assert(cv[i as int] == cache[i as int]@);
        if cache[i].name == *name {
            return Some(i);
        }
        i += 1;
    }
    None
}

/// A table that the cache does not hold is at no position of it.
pub proof fn lemma_not_cached(cache: Seq<TableInfoView>, name: Seq<char>, i: int)
    requires
        0 <= i,
        position_from(cache, name, i) is None,
    ensures
        forall|j: int| i <= j < cache.len() ==> (#[trigger] cache[j]).name != name,
    decreases cache.len() - i,
{
    if i < cache.len() {
        lemma_not_cached(cache, name, i + 1);
    }
}

/// The table found under a name has that name.
pub proof fn lemma_cached_name(cache: Seq<TableInfoView>, name: Seq<char>, i: int)
    requires
        0 <= i,
        position_from(cache, name, i) is Some,
    ensures
        i <= position_from(cache, name, i)->Some_0 < cache.len(),
        cache[position_from(cache, name, i)->Some_0].name == name,
    decreases cache.len() - i,
{
    if i < cache.len() && cache[i].name != name {
        lemma_cached_name(cache, name, i + 1);
    }
}

/// A table added at the end of the cache is found there under its name, if
/// that name was not in the cache, and every other name is found as before.
pub proof fn lemma_cache_grows(cache: Seq<TableInfoView>, info: TableInfoView, name: Seq<char>, i: int)
    requires
        0 <= i <= cache.len(),
    ensures
        position_from(cache.push(info), name, i) == match position_from(cache, name, i) {
            Some(k) => Some(k),
            None => if info.name == name {
                Some(cache.len() as int)
            } else {
                None
            },
        },
    decreases cache.len() - i,
{
    let grown = cache.push(info);
    if i < cache.len() {
        assert(grown[i] == cache[i]);
        if cache[i].name != name {
            lemma_cache_grows(cache, info, name, i + 1);
        }
    } else {
        assert(grown[i] == info);
        assert(position_from(grown, name, i + 1) is None);
    }
}

} // verus!
