use cozo::error::{Error, Misuse, TableKind};
use cozo::expr::Expr;
use cozo::mutation::{run_mutation, Lookup, Mutation, MutationFilter, MutationManager, Step};
use cozo::op::Op;
use cozo::schema::{Col, TableDef, Typing};
use cozo::value::Value;

fn col(name: &str, typ: Typing) -> Col {
    Col { name: name.to_string(), typ, default: None }
}

fn optional(typ: Typing) -> Typing {
    Typing::Nullable(Box::new(typ))
}

fn person() -> TableDef {
    TableDef::Node {
        name: "Person".to_string(),
        keys: vec![col("id", Typing::Int)],
        cols: vec![
            col("name", Typing::Text),
            col("email", optional(Typing::Text)),
            col("habits", optional(Typing::List(Box::new(optional(Typing::Text))))),
        ],
    }
}

fn friend() -> TableDef {
    TableDef::Edge {
        src: "Person".to_string(),
        dst: "Person".to_string(),
        name: "Friend".to_string(),
        keys: vec![],
        cols: vec![col("relation", optional(Typing::Text))],
    }
}

fn edge(name: &str, src: &str, dst: &str) -> TableDef {
    TableDef::Edge {
        src: src.to_string(),
        dst: dst.to_string(),
        name: name.to_string(),
        keys: vec![],
        cols: vec![],
    }
}

fn place() -> TableDef {
    TableDef::Node {
        name: "Place".to_string(),
        keys: vec![col("zone", Typing::Int), col("street", Typing::Text)],
        cols: vec![],
    }
}

fn work_info() -> TableDef {
    TableDef::Columns {
        attached: "Person".to_string(),
        name: "WorkInfo".to_string(),
        cols: vec![col("work_id", Typing::Int)],
    }
}

fn relationship_data() -> TableDef {
    TableDef::Columns {
        attached: "Person".to_string(),
        name: "RelationshipData".to_string(),
        cols: vec![col("status", Typing::Text)],
    }
}

/// A catalog of four tables that counts how often each name is looked up.
struct Catalog {
    asked: Vec<String>,
}

impl Catalog {
    fn resolve(&mut self, name: &str) -> Lookup {
        self.asked.push(name.to_string());
        match name {
            "Person" => Lookup {
                def: Some(person()),
                related: vec![work_info(), relationship_data()],
            },
            "Friend" => Lookup { def: Some(friend()), related: vec![] },
            "Likes" => Lookup { def: Some(edge("Likes", "Friend", "Person")), related: vec![] },
            "Visits" => Lookup { def: Some(edge("Visits", "Person", "Place")), related: vec![] },
            "Place" => Lookup { def: Some(place()), related: vec![] },
            "WorkInfo" => Lookup { def: Some(work_info()), related: vec![] },
            _ => Lookup { def: None, related: vec![] },
        }
    }
}

fn drive(m: &mut Mutation, catalog: &mut Catalog) -> Result<(), Error> {
    let mut answer = None;
    loop {
        match m.advance(answer)? {
            Step::Done => return Ok(()),
            Step::Resolve(name) => answer = Some(catalog.resolve(&name)),
        }
    }
}

fn text(s: &str) -> Value {
    Value::Text(s.to_string())
}

fn dict(entries: Vec<(&str, Value)>) -> Value {
    Value::Dict(entries.into_iter().map(|(k, v)| (k.to_string(), v)).collect())
}

fn records() -> Vec<Value> {
    vec![
        dict(vec![("id", Value::Int(1)), ("name", text("Jack"))]),
        dict(vec![
            ("id", Value::Int(2)),
            ("name", text("Joe")),
            ("habits", Value::List(vec![text("Balls")])),
            ("_type", text("Person")),
        ]),
        dict(vec![
            ("_type", text("Friend")),
            ("_src", Value::Int(1)),
            ("_dst", Value::Int(2)),
            ("relation", text("mate")),
        ]),
    ]
}

fn start(records: Vec<Value>, default_tbl: Option<&str>) -> Mutation {
    run_mutation(Expr::Const(Value::List(records)), default_tbl.map(|s| s.to_string()), None)
        .unwrap()
}

fn run(records: Vec<Value>, default_tbl: Option<&str>) -> (Result<(), Error>, Vec<String>) {
    let mut m = start(records, default_tbl);
    let mut catalog = Catalog { asked: vec![] };
    let r = drive(&mut m, &mut catalog);
    (r, catalog.asked)
}

#[test]
fn test_mutation() {
    let mut m = start(records(), Some("Person"));
    let mut catalog = Catalog { asked: vec![] };
    drive(&mut m, &mut catalog).unwrap();
    assert_eq!(catalog.asked, vec!["Person".to_string(), "Friend".to_string()]);
    assert_eq!(m.resolved(), vec!["Person".to_string(), "Friend".to_string()]);
    assert_eq!(m.placed(), 3);

    let person = m.table_info("Person").unwrap();
    assert_eq!(person.kind, TableKind::Node);
    assert_eq!(person.key_typing, vec![Typing::Int]);
    assert_eq!(
        person.val_typing,
        vec![
            Typing::Text,
            optional(Typing::Text),
            optional(Typing::List(Box::new(optional(Typing::Text)))),
        ]
    );
    assert_eq!(person.assocs.len(), 2);
    assert_eq!(person.assocs[0].name, "WorkInfo");
    assert_eq!(person.assocs[0].val_typing, vec![Typing::Int]);
    assert_eq!(person.assocs[1].name, "RelationshipData");

    let friend = m.table_info("Friend").unwrap();
    assert_eq!(friend.kind, TableKind::Edge);
    assert_eq!(friend.endpoints, Some(("Person".to_string(), "Person".to_string())));
    assert_eq!(friend.val_typing, vec![optional(Typing::Text)]);
    assert!(m.table_info("WorkInfo").is_none());
}

#[test]
fn the_steps_of_a_statement() {
    let mut m = start(records(), Some("Person"));
    let mut catalog = Catalog { asked: vec![] };
    assert_eq!(m.advance(None), Ok(Step::Resolve("Person".to_string())));
    assert_eq!(m.placed(), 0);
    let found = catalog.resolve("Person");
    assert_eq!(m.advance(Some(found)), Ok(Step::Resolve("Friend".to_string())));
    assert_eq!(m.placed(), 2);
    let found = catalog.resolve("Friend");
    assert_eq!(m.advance(Some(found)), Ok(Step::Done));
    assert_eq!(m.placed(), 3);
    assert_eq!(m.advance(None), Ok(Step::Done));
}

#[test]
fn an_edge_has_its_endpoints_resolved() {
    let edge = dict(vec![("_src", Value::Int(1)), ("_dst", Value::Int(2))]);
    let (r, asked) = run(vec![edge], Some("Friend"));
    assert_eq!(r, Ok(()));
    assert_eq!(asked, vec!["Friend".to_string(), "Person".to_string()]);
}

#[test]
fn an_association_cannot_be_written_to() {
    let record = dict(vec![("_type", text("WorkInfo")), ("work_id", Value::Int(1))]);
    let (r, asked) = run(vec![record], Some("Person"));
    assert_eq!(r, Err(Error::Logic(Misuse::NotInsertable(TableKind::Assoc))));
    assert_eq!(asked, vec!["WorkInfo".to_string()]);
}

#[test]
fn an_undefined_table_is_named_in_the_failure() {
    let record = dict(vec![("_type", text("Nowhere"))]);
    let (r, _) = run(vec![record], Some("Person"));
    assert_eq!(r, Err(Error::UndefinedType("Nowhere".to_string())));
    let (r, _) = run(vec![dict(vec![])], Some("Missing"));
    assert_eq!(r, Err(Error::UndefinedType("Missing".to_string())));
}

#[test]
fn a_record_must_name_its_table() {
    let (r, asked) = run(vec![dict(vec![("id", Value::Int(1))])], None);
    assert_eq!(r, Err(Error::Logic(Misuse::NoTableName)));
    assert!(asked.is_empty());
    let (r, _) = run(vec![dict(vec![("_type", Value::Int(1))])], Some("Person"));
    assert_eq!(r, Err(Error::Logic(Misuse::TableNameNotText)));
    let (r, _) = run(vec![Value::Int(1)], Some("Person"));
    assert_eq!(r, Err(Error::Logic(Misuse::RecordNotStruct)));
}

#[test]
fn the_endpoints_of_an_edge_record_are_checked() {
    let no_dst = dict(vec![("_type", text("Friend")), ("_src", Value::Int(1))]);
    let (r, _) = run(vec![no_dst], None);
    assert_eq!(r, Err(Error::Logic(Misuse::MissingEndpoint)));
    let wrong = dict(vec![("_type", text("Friend")), ("_src", text("1")), ("_dst", Value::Int(2))]);
    let (r, _) = run(vec![wrong], None);
    assert_eq!(r, Err(Error::Logic(Misuse::EndpointKeyMismatch)));
}

#[test]
fn the_payload_must_be_an_evaluated_list() {
    let unevaluated = Expr::Apply(Op::Add, vec![]);
    assert_eq!(
        run_mutation(unevaluated, None, None).err(),
        Some(Error::Logic(Misuse::UnevaluatedExpression))
    );
    assert_eq!(
        run_mutation(Expr::Const(Value::Int(1)), None, Some(MutationFilter::NotApplied)).err(),
        Some(Error::Logic(Misuse::RecordsNotList))
    );
    let mut m =
        run_mutation(Expr::Const(Value::List(vec![])), None, Some(MutationFilter::NotApplied))
            .unwrap();
    assert_eq!(m.advance(None), Ok(Step::Done));
}

#[test]
fn an_answer_must_be_asked_for() {
    let mut m = start(records(), Some("Person"));
    let uncalled = Lookup { def: Some(person()), related: vec![] };
    assert_eq!(m.advance(Some(uncalled)), Err(Error::Logic(Misuse::UnexpectedTable)));
    let mut m = start(records(), Some("Person"));
    assert_eq!(m.advance(None), Ok(Step::Resolve("Person".to_string())));
    assert_eq!(m.advance(None), Err(Error::Logic(Misuse::UnexpectedTable)));
}

#[test]
fn a_table_must_carry_the_name_it_was_asked_for_under() {
    let mut m = start(records(), Some("Person"));
    assert_eq!(m.advance(None), Ok(Step::Resolve("Person".to_string())));
    let other = Lookup { def: Some(friend()), related: vec![] };
    assert_eq!(m.advance(Some(other)), Err(Error::BadDataFormat("Person".to_string())));
    assert!(m.resolved().is_empty());
}

#[test]
fn attached_tables_must_be_associations_of_the_table() {
    let mut m = start(records(), Some("Person"));
    assert_eq!(m.advance(None), Ok(Step::Resolve("Person".to_string())));
    let wrong = Lookup { def: Some(person()), related: vec![friend()] };
    assert_eq!(m.advance(Some(wrong)), Err(Error::BadDataFormat("Person".to_string())));
}

#[test]
fn the_manager_keeps_what_it_resolved() {
    let mut mgr = MutationManager::new(Some("Person".to_string()));
    let record = dict(vec![("id", Value::Int(1))]);
    assert_eq!(mgr.table_of(&record), Ok("Person".to_string()));
    assert_eq!(mgr.add(&record), Ok(Step::Resolve("Person".to_string())));
    assert!(mgr.table_info("Person").is_none());
    assert_eq!(mgr.get_table_info("Person".to_string(), Some(person()), vec![work_info()]), Ok(()));
    assert_eq!(mgr.add(&record), Ok(Step::Done));
    assert_eq!(mgr.get_table_info("Person".to_string(), None, vec![]), Ok(()));
    assert_eq!(mgr.table_info("Person").unwrap().assocs.len(), 1);
    assert_eq!(
        mgr.get_table_info("Ghost".to_string(), None, vec![]),
        Err(Error::UndefinedType("Ghost".to_string()))
    );
}

#[test]
fn typings_accept_their_values() {
    assert!(Typing::Any.admits(&Value::Null));
    assert!(Typing::Int.admits(&Value::Int(1)));
    assert!(!Typing::Int.admits(&Value::Null));
    assert!(optional(Typing::Int).admits(&Value::Null));
    assert!(!optional(Typing::Int).admits(&text("1")));
    let habits = optional(Typing::List(Box::new(optional(Typing::Text))));
    assert!(habits.admits(&Value::List(vec![text("Balls"), Value::Null])));
    assert!(!habits.admits(&Value::List(vec![Value::Int(1)])));
    assert!(Typing::Float.admits(&Value::Float(0)));
    assert!(Typing::Bool.admits(&Value::Bool(true)));
}

#[test]
fn dictionaries_are_read_by_key() {
    let d = dict(vec![("a", Value::Int(1)), ("b", Value::Int(2))]);
    assert_eq!(d.get("b"), Some(&Value::Int(2)));
    assert_eq!(d.get("c"), None);
    assert_eq!(Value::Int(1).get("a"), None);
}

#[test]
fn an_edge_leads_from_node_to_node() {
    let record = dict(vec![("_type", text("Likes")), ("_src", Value::Int(1)), ("_dst", Value::Int(2))]);
    let (r, asked) = run(vec![record], None);
    assert_eq!(r, Err(Error::Logic(Misuse::EndpointNotNode)));
    assert_eq!(asked, vec!["Likes".to_string(), "Friend".to_string(), "Person".to_string()]);
}

#[test]
fn a_key_of_several_columns_is_a_list() {
    let visit = |dst: Value| dict(vec![("_type", text("Visits")), ("_src", Value::Int(1)), ("_dst", dst)]);
    let (r, asked) = run(vec![visit(Value::List(vec![Value::Int(7), text("Main")]))], None);
    assert_eq!(r, Ok(()));
    assert_eq!(asked, vec!["Visits".to_string(), "Person".to_string(), "Place".to_string()]);
    let (r, _) = run(vec![visit(Value::List(vec![Value::Int(7)]))], None);
    assert_eq!(r, Err(Error::Logic(Misuse::EndpointKeyMismatch)));
    let (r, _) = run(vec![visit(Value::List(vec![text("Main"), Value::Int(7)]))], None);
    assert_eq!(r, Err(Error::Logic(Misuse::EndpointKeyMismatch)));
    let (r, _) = run(vec![visit(Value::Int(7))], None);
    assert_eq!(r, Err(Error::Logic(Misuse::EndpointKeyMismatch)));
}

#[test]
fn later_records_find_the_tables_of_earlier_ones() {
    let mut many = records();
    many.extend(records());
    many.extend(records());
    let (r, asked) = run(many, Some("Person"));
    assert_eq!(r, Ok(()));
    assert_eq!(asked, vec!["Person".to_string(), "Friend".to_string()]);
}
