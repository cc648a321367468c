//! Matching the records of a mutation statement against the tables they are
//! written to.
//!
//! Key layout of the rows that a statement writes, by kind of table:
//!
//! * node: `[table_id, key_columns...]`;
//! * edge: two entries, `[table_id, src_table_id, src_key, is_forward, dst_key,
//!   key_columns...]` forward with the values, and the same backward without;
//! * association: as the row of the table it is attached to, under its own
//!   table id.
//!
//! The catalog that knows the tables is not part of this library. The manager
//! says which table it needs next, the caller looks it up and hands over what
//! it found, and the manager goes on from there.
use crate::error::{Error, ErrorView, Misuse, TableKind};
use crate::expr::{Expr, ExprView};
use crate::schema::{def_views, TableDef, TableDefView, Typing};
use crate::table::{
    cached, find, info_views, lemma_cache_grows, lemma_cached_name, lemma_not_cached,
    names_distinct, position_from, resolve_table, table_info_of, TableInfo, TableInfoView,
};
use crate::value::{lemma_list_view, lookup, views_of, Value, ValueView};
use vstd::prelude::*;

verus! {

/// The field of a record that names its table.
pub open spec fn type_field() -> Seq<char> {
    "_type"@
}

/// The field of an edge record that holds the key of the row it leads from.
pub open spec fn src_field() -> Seq<char> {
    "_src"@
}

/// The field of an edge record that holds the key of the row it leads to.
pub open spec fn dst_field() -> Seq<char> {
    "_dst"@
}

/// The table that a record is written to: the one its `_type` field names,
/// and without that field the default table of the statement.
pub open spec fn target_of(default_tbl: Option<Seq<char>>, record: ValueView) -> Result<
    Seq<char>,
    ErrorView,
> {
    match record {
        ValueView::Dict(entries) => match lookup(entries, type_field()) {
            Some(ValueView::Text(name)) => Ok(name),
            Some(_) => Err(ErrorView::Logic(Misuse::TableNameNotText)),
            None => match default_tbl {
                Some(name) => Ok(name),
                None => Err(ErrorView::Logic(Misuse::NoTableName)),
            },
        },
        _ => Err(ErrorView::Logic(Misuse::RecordNotStruct)),
    }
}

/// Whether `v` is a key of the typing `key`. For a key of one column it is a
/// value of that column's type; for any other key, a list with one value for
/// each column, of that column's type.
pub open spec fn key_fits(v: ValueView, key: Seq<Typing>) -> bool {
    if key.len() == 1 {
        key[0].accepts(v)
    } else {
        v matches ValueView::List(items) && items.len() == key.len() && forall|i: int|
            0 <= i < key.len() ==> (#[trigger] key[i]).accepts(items[i])
    }
}

/// What the manager does next.
#[derive(Debug, PartialEq)]
pub enum Step {
    /// Nothing is left to do.
    Done,
    /// The caller is to look this table up in the catalog and hand over what it
    /// finds.
    Resolve(String),
}

/// What a [`Step`] is in specifications.
pub enum StepView {
    Done,
    Resolve(Seq<char>),
}

impl View for Step {
    type V = StepView;

    open spec fn view(&self) -> StepView {
        match self {
            Step::Done => StepView::Done,
            Step::Resolve(name) => StepView::Resolve(name@),
        }
    }
}

/// What a step, or the failure to take one, is in specifications.
pub open spec fn step_outcome(r: Result<Step, Error>) -> Result<StepView, ErrorView> {
    match r {
        Ok(s) => Ok(s@),
        Err(e) => Err(e@),
    }
}

/// Whether the record of an edge fits the tables `src` and `dst` that the edge
/// leads from and to: both are nodes, and the record's `_src` and `_dst` are
/// keys of theirs.
pub open spec fn edge_fits(record: ValueView, src: TableInfoView, dst: TableInfoView) -> Result<
    StepView,
    ErrorView,
> {
    let entries = record->Dict_0;
    if src.kind != TableKind::Node || dst.kind != TableKind::Node {
        Err(ErrorView::Logic(Misuse::EndpointNotNode))
    } else if lookup(entries, src_field()) is None || lookup(entries, dst_field()) is None {
        Err(ErrorView::Logic(Misuse::MissingEndpoint))
    } else if !key_fits(lookup(entries, src_field())->Some_0, src.key_typing) || !key_fits(
        lookup(entries, dst_field())->Some_0,
        dst.key_typing,
    ) {
        Err(ErrorView::Logic(Misuse::EndpointKeyMismatch))
    } else {
        Ok(StepView::Done)
    }
}

/// What is to be done about a record with the tables that the cache holds.
///
/// The record must be a dictionary and have a table. A table that the cache
/// does not hold is to be resolved: the record's own first, then, for an edge,
/// the table it leads from, then the one it leads to. With all of them there,
/// the record of a node is done, and the record of an edge is checked against
/// its endpoints.
pub open spec fn placement(
    cache: Seq<TableInfoView>,
    default_tbl: Option<Seq<char>>,
    record: ValueView,
) -> Result<StepView, ErrorView> {
    match target_of(default_tbl, record) {
        Err(e) => Err(e),
        Ok(name) => match cached(cache, name) {
            None => Ok(StepView::Resolve(name)),
            Some(info) => match info.kind {
                TableKind::Node => Ok(StepView::Done),
                TableKind::Assoc => Err(ErrorView::Logic(Misuse::NotInsertable(TableKind::Assoc))),
                TableKind::Edge => match info.endpoints {
                    None => Err(ErrorView::BadDataFormat(name)),
                    Some((src, dst)) => match cached(cache, src) {
                        None => Ok(StepView::Resolve(src)),
                        Some(from) => match cached(cache, dst) {
                            None => Ok(StepView::Resolve(dst)),
                            Some(to) => edge_fits(record, from, to),
                        },
                    },
                },
            },
        },
    }
}

/// What the manager of a mutation statement is in specifications.
pub struct ManagerView {
    pub cache: Seq<TableInfoView>,
    pub default_tbl: Option<Seq<char>>,
}

/// Keeps, for one mutation statement, the tables resolved so far, so that no
/// table is looked up in the catalog twice.
pub struct MutationManager {
    cache: Vec<TableInfo>,
    default_tbl: Option<String>,
}

impl View for MutationManager {
    type V = ManagerView;

    closed spec fn view(&self) -> ManagerView {
        ManagerView {
            cache: info_views(self.cache@),
            default_tbl: match self.default_tbl {
                Some(name) => Some(name@),
                None => None,
            },
        }
    }
}

/// Whether `v` is a key of the typing `key`.
pub fn key_admits(v: &Value, key: &Vec<Typing>) -> (b: bool)
    ensures
        b == key_fits(v@, key@),
{
    if key.len() == 1 {
        return key[0].admits(v);
    }
    match v {
        Value::List(items) => {
            broadcast use lemma_list_view;

            if items.len() != key.len() {
                return false;
            }
            let ghost vs = views_of(items@);
            let mut i: usize = 0;
            while i < key.len()
                invariant
                    v@ == ValueView::List(vs),
                    vs == views_of(items@),
                    items.len() == key.len(),
                    key.len() != 1,
                    i <= key.len(),
                    forall|j: int| 0 <= j < i ==> (#[trigger] key[j]).accepts(vs[j]),
                decreases key.len() - i,
            {
                assert(vs[i as int] == items[i as int]@);
                if !key[i].admits(&items[i]) {
                    assert(!key@[i as int].accepts(v@->List_0[i as int]));
                    return false;
                }
                i += 1;
            }
            true
        },
        _ => false,
    }
}

impl MutationManager {
    /// No two tables of the cache have the same name.
    pub open spec fn wf(&self) -> bool {
        names_distinct(self@.cache)
    }

    /// A manager for a statement with the given default table, with nothing
    /// resolved yet.
    pub fn new(default_tbl: Option<String>) -> (m: Self)
        ensures
            m.wf(),
            m@.cache == Seq::<TableInfoView>::empty(),
            m@.default_tbl == match default_tbl {
                Some(name) => Some(name@),
                None => None,
            },
    {
        let m = MutationManager { cache: Vec::new(), default_tbl };
        assert(info_views(m.cache@) =~= Seq::<TableInfoView>::empty());
        m
    }

    /// The table that `record` is written to.
    pub fn table_of(&self, record: &Value) -> (r: Result<String, Error>)
        ensures
            match r {
                Ok(name) => target_of(self@.default_tbl, record@) == Ok::<Seq<char>, ErrorView>(
                    name@,
                ),
                Err(e) => target_of(self@.default_tbl, record@) == Err::<Seq<char>, ErrorView>(
                    e@,
                ),
            },
    {
        match record {
            Value::Dict(_) => match record.get("_type") {
                Some(Value::Text(name)) => Ok(name.clone()),
                Some(_) => Err(Error::Logic(Misuse::TableNameNotText)),
                None => match &self.default_tbl {
                    Some(name) => Ok(name.clone()),
                    None => Err(Error::Logic(Misuse::NoTableName)),
                },
            },
            _ => Err(Error::Logic(Misuse::RecordNotStruct)),
        }
    }

    /// What the manager keeps of the table called `name`, if it holds it.
    pub fn table_info(&self, name: &str) -> (r: Option<&TableInfo>)
        ensures
            match r {
                Some(info) => cached(self@.cache, name@) == Some(info@),
                None => cached(self@.cache, name@) is None,
            },
    {
        let wanted = String::from_str(name);
        match find(&self.cache, &wanted) {
            Some(i) => Some(&self.cache[i]),
            None => None,
        }
    }

    /// Checks the record of an edge against the tables it leads from and to.
    fn check_edge(record: &Value, src: &TableInfo, dst: &TableInfo) -> (r: Result<Step, Error>)
        requires
            record@ is Dict,
        ensures
            step_outcome(r) == edge_fits(record@, src@, dst@),
    {
        if src.kind != TableKind::Node || dst.kind != TableKind::Node {
            return Err(Error::Logic(Misuse::EndpointNotNode));
        }
        let from = match record.get("_src") {
            Some(v) => v,
            None => {
                return Err(Error::Logic(Misuse::MissingEndpoint));
            },
        };
        let to = match record.get("_dst") {
            Some(v) => v,
            None => {
                return Err(Error::Logic(Misuse::MissingEndpoint));
            },
        };
        if key_admits(from, &src.key_typing) && key_admits(to, &dst.key_typing) {
            Ok(Step::Done)
        } else {
            Err(Error::Logic(Misuse::EndpointKeyMismatch))
        }
    }

    /// Takes one record of the statement: says which table must be resolved
    /// before the record can be placed, or, with all its tables in the cache,
    /// checks it and is done with it. The cache is only read, so a table that
    /// it holds is never asked for.
    pub fn add(&self, record: &Value) -> (r: Result<Step, Error>)
        ensures
            step_outcome(r) == placement(self@.cache, self@.default_tbl, record@),
            r matches Ok(Step::Resolve(name)) ==> cached(self@.cache, name@) is None,
    {
        let name = self.table_of(record)?;
        let info = match find(&self.cache, &name) {
            Some(i) => &self.cache[i],
            None => {
                return Ok(Step::Resolve(name));
            },
        };
        match info.kind {
            TableKind::Node => Ok(Step::Done),
            TableKind::Assoc => Err(Error::Logic(Misuse::NotInsertable(TableKind::Assoc))),
            TableKind::Edge => match &info.endpoints {
                None => Err(Error::BadDataFormat(name)),
                Some((src, dst)) => {
                    let from = match find(&self.cache, src) {
                        Some(i) => &self.cache[i],
                        None => {
                            return Ok(Step::Resolve(src.clone()));
                        },
                    };
                    let to = match find(&self.cache, dst) {
                        Some(i) => &self.cache[i],
                        None => {
                            return Ok(Step::Resolve(dst.clone()));
                        },
                    };
                    Self::check_edge(record, from, to)
                },
            },
        }
    }

    /// Takes in what the catalog answered about the table `name`: the table,
    /// if the catalog has one of that name, and the tables attached to it.
    ///
    /// A table that the cache holds already is left as it is, and the answer
    /// not looked at. Otherwise the table is resolved and put at the end of
    /// the cache, or the failure to resolve it returned and the cache left as
    /// it was.
    pub fn get_table_info(&mut self, name: String, def: Option<TableDef>, related: Vec<TableDef>) -> (r:
        Result<(), Error>)
        requires
            old(self).wf(),
        ensures
            final(self).wf(),
            final(self)@.default_tbl == old(self)@.default_tbl,
            cached(old(self)@.cache, name@) is Some ==> r is Ok && final(self)@ == old(self)@,
            cached(old(self)@.cache, name@) is None ==> match table_info_of(
                name@,
                match def {
                    Some(d) => Some(d@),
                    None => None,
                },
                def_views(related@),
            ) {
                Ok(info) => r is Ok && final(self)@.cache == old(self)@.cache.push(info),
                Err(e) => r matches Err(err) && err@ == e && final(self)@ == old(self)@,
            },
    {
        if find(&self.cache, &name).is_some() {
            return Ok(());
        }
        let ghost before = info_views(self.cache@);
        let info = resolve_table(name, def, related)?;
        proof {
            lemma_not_cached(before, info@.name, 0);
            assert(info_views(self.cache@.push(info)) =~= before.push(info@));
        }
        self.cache.push(info);
        Ok(())
    }
}

/// What the catalog answered about a table: the table, if it has one of that
/// name, and the tables attached to it.
#[derive(Debug, PartialEq)]
pub struct Lookup {
    pub def: Option<TableDef>,
    pub related: Vec<TableDef>,
}

/// What a [`Lookup`] is in specifications.
pub struct LookupView {
    pub def: Option<TableDefView>,
    pub related: Seq<TableDefView>,
}

impl View for Lookup {
    type V = LookupView;

    open spec fn view(&self) -> LookupView {
        LookupView {
            def: match self.def {
                Some(d) => Some(d@),
                None => None,
            },
            related: def_views(self.related@),
        }
    }
}

/// What an answer of the catalog, or the lack of one, is in specifications.
pub open spec fn answer_view(answer: Option<Lookup>) -> Option<LookupView> {
    match answer {
        Some(found) => Some(found@),
        None => None,
    }
}

/// The filter of a mutation statement. It is taken note of and not applied.
#[derive(Clone, Copy, Debug, PartialEq, Eq, Structural)]
pub enum MutationFilter {
    NotApplied,
}

/// What a mutation statement under way is in specifications.
pub struct MutationView {
    /// The tables resolved so far, in the order they were resolved.
    pub cache: Seq<TableInfoView>,
    pub default_tbl: Option<Seq<char>>,
    pub records: Seq<ValueView>,
    /// The number of records done with.
    pub placed: int,
    /// The table that the caller was asked to look up and has not handed over.
    pub pending: Option<Seq<char>>,
    pub filter: Option<MutationFilter>,
}

impl MutationView {
    /// No two tables of the cache have the same name, and the table that is
    /// being looked up is not among them.
    pub open spec fn wf(self) -> bool {
        &&& names_distinct(self.cache)
        &&& 0 <= self.placed <= self.records.len()
        &&& self.pending matches Some(name) ==> cached(self.cache, name) is None
    }
}

/// Goes through `records[i..]` with the tables of the cache, up to the first
/// record that is not done with: the position reached, and what is to be done
/// there.
pub open spec fn scan(
    cache: Seq<TableInfoView>,
    default_tbl: Option<Seq<char>>,
    records: Seq<ValueView>,
    i: int,
) -> (int, Result<StepView, ErrorView>)
    decreases records.len() - i,
{
    if i < 0 || i >= records.len() {
        (i, Ok(StepView::Done))
    } else {
        match placement(cache, default_tbl, records[i]) {
            Ok(StepView::Done) => scan(cache, default_tbl, records, i + 1),
            other => (i, other),
        }
    }
}

/// The cache after the answer of the catalog is taken in. An answer must come
/// exactly when a table is being looked up, and is the answer about that
/// table.
pub open spec fn absorbed(m: MutationView, answer: Option<LookupView>) -> Result<
    Seq<TableInfoView>,
    ErrorView,
> {
    match (m.pending, answer) {
        (None, None) => Ok(m.cache),
        (Some(name), Some(found)) => match table_info_of(name, found.def, found.related) {
            Ok(info) => Ok(m.cache.push(info)),
            Err(e) => Err(e),
        },
        _ => Err(ErrorView::Logic(Misuse::UnexpectedTable)),
    }
}

/// One step of a mutation statement: the state it leaves and what it returns.
///
/// The answer of the catalog, if one was due, is taken in; where that fails,
/// nothing changes. Then the records not yet done with are gone through in
/// order, until one needs a table that the cache does not hold, or one fails,
/// or none is left.
pub open spec fn advance_spec(m: MutationView, answer: Option<LookupView>) -> (
    MutationView,
    Result<StepView, ErrorView>,
) {
    match absorbed(m, answer) {
        Err(e) => (m, Err(e)),
        Ok(cache) => {
            let (placed, out) = scan(cache, m.default_tbl, m.records, m.placed);
            (
                MutationView {
                    cache,
                    placed,
                    pending: match out {
                        Ok(StepView::Resolve(name)) => Some(name),
                        _ => None,
                    },
                    ..m
                },
                out,
            )
        },
    }
}

/// Where going through the records stops, it stops within them, and a table
/// that it asks for there is not in the cache.
pub proof fn lemma_scan_asks_unknown(
    cache: Seq<TableInfoView>,
    default_tbl: Option<Seq<char>>,
    records: Seq<ValueView>,
    i: int,
)
    requires
        0 <= i <= records.len(),
    ensures
        i <= scan(cache, default_tbl, records, i).0 <= records.len(),
        scan(cache, default_tbl, records, i).1 matches Ok(StepView::Resolve(name)) ==> cached(
            cache,
            name,
        ) is None,
        scan(cache, default_tbl, records, i).1 matches Ok(StepView::Done) ==> scan(
            cache,
            default_tbl,
            records,
            i,
        ).0 == records.len(),
    decreases records.len() - i,
{
    if i < records.len() {
        if placement(cache, default_tbl, records[i]) == Ok::<StepView, ErrorView>(StepView::Done) {
            lemma_scan_asks_unknown(cache, default_tbl, records, i + 1);
        }
    }
}

/// A statement never asks for a table that it holds: after any step from a
/// well-formed state the state is well-formed, and a table that the step asks
/// for is not in the cache and is the one being looked up from then on.
pub proof fn lemma_asks_for_unknown_tables_only(m: MutationView, answer: Option<LookupView>)
    requires
        m.wf(),
    ensures
        advance_spec(m, answer).0.wf(),
        advance_spec(m, answer).1 matches Ok(StepView::Resolve(name)) ==> cached(
            advance_spec(m, answer).0.cache,
            name,
        ) is None && advance_spec(m, answer).0.pending == Some(name),
{
    match absorbed(m, answer) {
        Err(_) => {},
        Ok(cache) => {
            lemma_scan_asks_unknown(cache, m.default_tbl, m.records, m.placed);
            if m.pending is Some && answer is Some {
                let name = m.pending->Some_0;
                let info = table_info_of(name, answer->Some_0.def, answer->Some_0.related)->Ok_0;
                lemma_not_cached(m.cache, name, 0);
                assert(info.name == name);
                assert forall|i: int, j: int| 0 <= i < j < cache.len() implies (
                #[trigger] cache[i]).name != (#[trigger] cache[j]).name by {
                    if j < m.cache.len() {
                        assert(cache[i] == m.cache[i] && cache[j] == m.cache[j]);
                    } else {
                        assert(cache[i] == m.cache[i]);
                    }
                }
            }
        },
    }
}

/// A table that was looked up is never looked up again: after a step that
/// takes in the answer about it, the cache holds it, and what the cache held
/// before is found in it as before.
pub proof fn lemma_resolved_tables_stay(
    m: MutationView,
    answer: Option<LookupView>,
    name: Seq<char>,
)
    requires
        m.wf(),
        advance_spec(m, answer).1 is Ok,
    ensures
        m.pending == Some(name) ==> cached(advance_spec(m, answer).0.cache, name) is Some,
        cached(m.cache, name) is Some ==> cached(advance_spec(m, answer).0.cache, name)
            == cached(m.cache, name),
{
    let cache = absorbed(m, answer)->Ok_0;
    if m.pending is Some && answer is Some {
        let asked = m.pending->Some_0;
        let info = table_info_of(asked, answer->Some_0.def, answer->Some_0.related)->Ok_0;
        lemma_cache_grows(m.cache, info, name, 0);
        if cached(m.cache, name) is Some {
            lemma_cached_name(m.cache, name, 0);
            assert(cache[position_from(m.cache, name, 0)->Some_0] == m.cache[position_from(
                m.cache,
                name,
                0,
            )->Some_0]);
        }
    }
}

/// A mutation statement under way: its records, how far it has come with
/// them, and the tables it has resolved on the way.
pub struct Mutation {
    manager: MutationManager,
    records: Vec<Value>,
    placed: usize,
    pending: Option<String>,
    filter: Option<MutationFilter>,
}

impl View for Mutation {
    type V = MutationView;

    closed spec fn view(&self) -> MutationView {
        MutationView {
            cache: self.manager@.cache,
            default_tbl: self.manager@.default_tbl,
            records: views_of(self.records@),
            placed: self.placed as int,
            pending: match self.pending {
                Some(name) => Some(name@),
                None => None,
            },
            filter: self.filter,
        }
    }
}

/// Starts a mutation statement on the evaluated expression `payload`, which
/// must be a constant list, the list of the records to write. Nothing is
/// resolved yet and no record done with.
pub fn run_mutation(
    payload: Expr,
    default_tbl: Option<String>,
    filter: Option<MutationFilter>,
) -> (r: Result<Mutation, Error>)
    ensures
        match payload@ {
            ExprView::Apply(_, _) => r matches Err(e) && e@ == ErrorView::Logic(
                Misuse::UnevaluatedExpression,
            ),
            ExprView::Const(ValueView::List(records)) => r matches Ok(m) && m@.wf() && m@ == (
            MutationView {
                cache: Seq::empty(),
                default_tbl: match default_tbl {
                    Some(name) => Some(name@),
                    None => None,
                },
                records,
                placed: 0,
                pending: None,
                filter,
            }),
            ExprView::Const(_) => r matches Err(e) && e@ == ErrorView::Logic(
                Misuse::RecordsNotList,
            ),
        },
{
    broadcast use lemma_list_view;

    match payload {
        Expr::Apply(_, _) => Err(Error::Logic(Misuse::UnevaluatedExpression)),
        Expr::Const(Value::List(records)) => Ok(
            Mutation {
                manager: MutationManager::new(default_tbl),
                records,
                placed: 0,
                pending: None,
                filter,
            },
        ),
        Expr::Const(_) => Err(Error::Logic(Misuse::RecordsNotList)),
    }
}

impl Mutation {
    /// Takes the statement one step further. `answer` is what the catalog
    /// found for the table that the step before asked for, and nothing at the
    /// first step.
    ///
    /// Returns `Resolve` with the next table to look up, `Done` when every
    /// record is done with, and the first failure otherwise; after a failure
    /// the statement is to be given up.
    pub fn advance(&mut self, answer: Option<Lookup>) -> (r: Result<Step, Error>)
        requires
            old(self)@.wf(),
        ensures
            final(self)@.wf(),
            (final(self)@, step_outcome(r)) == advance_spec(old(self)@, answer_view(answer)),
    {
        let ghost start = self@;
        let ghost given = answer_view(answer);
        proof {
            lemma_asks_for_unknown_tables_only(start, given);
        }
        match (self.pending.take(), answer) {
            (None, None) => {},
            (Some(name), Some(found)) => {
                let ghost asked = name@;
                let Lookup { def, related } = found;
                match self.manager.get_table_info(name.clone(), def, related) {
                    Ok(()) => {},
                    Err(e) => {
                        self.pending = Some(name);
                        return Err(e);
                    },
                }
            },
            (Some(name), None) => {
                self.pending = Some(name);
                return Err(Error::Logic(Misuse::UnexpectedTable));
            },
            (None, Some(_)) => {
                return Err(Error::Logic(Misuse::UnexpectedTable));
            },
        }
        let ghost cache = self@.cache;
        assert(absorbed(start, given) == Ok::<Seq<TableInfoView>, ErrorView>(cache));
        while self.placed < self.records.len()
            invariant
                start == old(self)@,
                given == answer_view(answer),
                absorbed(start, given) == Ok::<Seq<TableInfoView>, ErrorView>(cache),
                self.manager.wf(),
                self@.cache == cache,
                self@.default_tbl == start.default_tbl,
                self@.records == start.records,
                self@.filter == start.filter,
                self@.pending is None,
                start.placed <= self.placed <= self.records.len(),
                scan(cache, start.default_tbl, start.records, start.placed) == scan(
                    cache,
                    start.default_tbl,
                    start.records,
                    self.placed as int,
                ),
            decreases self.records.len() - self.placed,
        {
            assert(views_of(self.records@)[self.placed as int] == self.records[self.placed as int]@);
            match self.manager.add(&self.records[self.placed]) {
                Ok(Step::Done) => {
                    self.placed += 1;
                },
                Ok(Step::Resolve(name)) => {
                    self.pending = Some(name.clone());
                    return Ok(Step::Resolve(name));
                },
                Err(e) => {
                    return Err(e);
                },
            }
        }
        Ok(Step::Done)
    }

    /// The number of records done with.
    pub fn placed(&self) -> (n: usize)
        ensures
            n == self@.placed,
    {
        self.placed
    }

    /// The names of the tables resolved so far, in the order they were
    /// resolved.
    pub fn resolved(&self) -> (names: Vec<String>)
        ensures
            names.len() == self@.cache.len(),
            forall|i: int| 0 <= i < names.len() ==> (#[trigger] names[i])@ == self@.cache[i].name,
    {
        let mut names: Vec<String> = Vec::new();
        let mut i: usize = 0;
        while i < self.manager.cache.len()
            invariant
                i <= self.manager.cache.len(),
                names.len() == i,
                forall|j: int|
                    0 <= j < i ==> (#[trigger] names[j])@ == self.manager.cache[j].name@,
            decreases self.manager.cache.len() - i,
        {
            names.push(self.manager.cache[i].name.clone());
            i += 1;
        }
        names
    }

    /// What the statement keeps of the table called `name`, if it has resolved
    /// it.
    pub fn table_info(&self, name: &str) -> (r: Option<&TableInfo>)
        ensures
            match r {
                Some(info) => cached(self@.cache, name@) == Some(info@),
                None => cached(self@.cache, name@) is None,
            },
    {
        self.manager.table_info(name)
    }
}

} // verus!
