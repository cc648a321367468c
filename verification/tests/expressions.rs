use cozo::error::{Error, Misuse};
use cozo::expr::Expr;
use cozo::expr::Expr::{Apply, Const};
use cozo::float::{FloatUnit, Relation};
use cozo::op::Op;
use cozo::parser::parse_expr_from_str;
use cozo::value::Value;

/// Doubles as the machine computes them.
struct Ieee;

fn f(bits: u64) -> f64 {
    f64::from_bits(bits)
}

impl FloatUnit for Ieee {
    fn parse(text: &str) -> Option<u64> {
        text.parse::<f64>().ok().map(f64::to_bits)
    }

    fn from_int(i: i64) -> u64 {
        (i as f64).to_bits()
    }

    fn add(a: u64, b: u64) -> u64 {
        (f(a) + f(b)).to_bits()
    }

    fn sub(a: u64, b: u64) -> u64 {
        (f(a) - f(b)).to_bits()
    }

    fn mul(a: u64, b: u64) -> u64 {
        (f(a) * f(b)).to_bits()
    }

    fn div(a: u64, b: u64) -> u64 {
        (f(a) / f(b)).to_bits()
    }

    fn rem(a: u64, b: u64) -> u64 {
        (f(a) % f(b)).to_bits()
    }

    fn pow(a: u64, b: u64) -> u64 {
        f(a).powf(f(b)).to_bits()
    }

    fn neg(a: u64) -> u64 {
        (-f(a)).to_bits()
    }

    fn compare(a: u64, b: u64) -> Relation {
        if f(a) < f(b) {
            Relation::Less
        } else if f(a) > f(b) {
            Relation::Greater
        } else {
            Relation::Equal
        }
    }
}

fn parse(text: &str) -> Result<Expr, Error> {
    parse_expr_from_str::<Ieee>(text)
}

fn eval(text: &str) -> Result<Expr, Error> {
    parse(text).unwrap().eval::<Ieee>()
}

fn num(i: i64) -> Expr {
    Const(Value::Int(i))
}

fn float(x: f64) -> Expr {
    Const(Value::Float(x.to_bits()))
}

fn text(s: &str) -> Expr {
    Const(Value::Text(s.to_string()))
}

fn boolean(b: bool) -> Expr {
    Const(Value::Bool(b))
}

#[test]
fn raw_string() {
    println!("{:#?}", parse(r#####"r#"x"#"#####))
}

#[test]
fn parse_literals() {
    assert_eq!(parse("1").unwrap(), Const(Value::Int(1)));
    assert_eq!(parse("12_3").unwrap(), Const(Value::Int(123)));
    assert_eq!(parse("0xaf").unwrap(), Const(Value::Int(0xaf)));
    assert_eq!(parse("0xafcE_f").unwrap(), Const(Value::Int(0xafcef)));
    assert_eq!(parse("0o1234_567").unwrap(), Const(Value::Int(0o1234567)));
    assert_eq!(parse("0o0001234_567").unwrap(), Const(Value::Int(0o1234567)));
    assert_eq!(parse("0b101010").unwrap(), Const(Value::Int(0b101010)));

    assert_eq!(parse("0.0").unwrap(), float(0.));
    assert_eq!(parse("10.022_3").unwrap(), float(10.0223));
    assert_eq!(parse("10.022_3e-100").unwrap(), float(10.0223e-100));

    assert_eq!(parse("null").unwrap(), Const(Value::Null));
    assert_eq!(parse("true").unwrap(), Const(Value::Bool(true)));
    assert_eq!(parse("false").unwrap(), Const(Value::Bool(false)));
    assert_eq!(parse(r#""x \n \ty \"""#).unwrap(), text("x \n \ty \""));
    assert_eq!(parse(r#""x'""#).unwrap(), text("x'"));
    assert_eq!(parse(r#"'"x"'"#).unwrap(), text(r##""x""##));
    assert_eq!(parse(r#####"r###"x"yz"###"#####).unwrap(), text(r##"x"yz"##));
}

#[test]
fn operators() {
    println!("{:#?}", eval("1/10+(-2+3)*4^5").unwrap());
    println!("{:#?}", eval("true && false").unwrap());
    println!("{:#?}", eval("true || false").unwrap());
    println!("{:#?}", eval("true || null").unwrap());
    println!("{:#?}", eval("null || true").unwrap());
    println!("{:#?}", eval("true && null").unwrap());
}

#[test]
fn raw_string_keeps_its_text() {
    assert_eq!(parse(r#####"r#"x"#"#####).unwrap(), text("x"));
    assert_eq!(parse(r#####"r"a\nb""#####).unwrap(), text("a\\nb"));
    assert_eq!(parse(r#####"r##"a"#b"##"#####).unwrap(), text("a\"#b"));
    assert_eq!(parse(r#####"r#"x""#####), Err(Error::Parse));
}

#[test]
fn separators_do_not_count() {
    assert_eq!(parse("1_000_000").unwrap(), parse("1000000").unwrap());
    assert_eq!(parse("0xafcE_f").unwrap(), parse("0xafcEf").unwrap());
    assert_eq!(parse("0b1_0_1").unwrap(), num(5));
    assert_eq!(parse("1e1_0").unwrap(), float(1e10));
}

#[test]
fn leading_zeros_do_not_count() {
    assert_eq!(parse("0o0001234_567").unwrap(), parse("0o1234_567").unwrap());
    assert_eq!(parse("0x00ff").unwrap(), num(255));
    assert_eq!(parse("0b0001").unwrap(), num(1));
    assert_eq!(parse("007").unwrap(), num(7));
}

#[test]
fn float_literals_go_to_the_float_unit_without_separators() {
    assert_eq!(parse("10.022_3e-100").unwrap(), float("10.0223e-100".parse::<f64>().unwrap()));
    assert_eq!(parse("1.").unwrap(), float(1.0));
    assert_eq!(parse("2E3").unwrap(), float(2000.0));
    assert_eq!(parse("1e+2").unwrap(), float(100.0));
    assert_eq!(parse("1e_"), Err(Error::NumericParse));
}

#[test]
fn integers_out_of_range_are_refused() {
    assert_eq!(parse("9223372036854775807").unwrap(), num(i64::MAX));
    assert_eq!(parse("9223372036854775808"), Err(Error::NumericParse));
    assert_eq!(parse("0xffff_ffff_ffff_ffff"), Err(Error::NumericParse));
    assert_eq!(parse("0x7fff_ffff_ffff_ffff").unwrap(), num(i64::MAX));
}

#[test]
fn escapes_in_strings() {
    assert_eq!(parse(r#""\b\f\n\r\t\/\\\"""#).unwrap(), text("\u{8}\u{c}\n\r\t/\\\""));
    assert_eq!(parse(r#"'\''"#).unwrap(), text("'"));
    assert_eq!(parse(r#""\u0041\u00e9""#).unwrap(), text("A\u{e9}"));
    assert_eq!(parse(r#""\q""#), Err(Error::InvalidEscapeSequence));
    assert_eq!(parse(r#""\'""#), Err(Error::InvalidEscapeSequence));
    assert_eq!(parse(r#"'\"'"#), Err(Error::InvalidEscapeSequence));
    assert_eq!(parse(r#""\u12""#), Err(Error::InvalidEscapeSequence));
    assert_eq!(parse(r#""\ud800""#), Err(Error::InvalidUtfCode));
    assert_eq!(parse(r#""abc"#), Err(Error::Parse));
}

#[test]
fn malformed_text_is_a_parse_error() {
    assert_eq!(parse(""), Err(Error::Parse));
    assert_eq!(parse("1 +"), Err(Error::Parse));
    assert_eq!(parse("(1"), Err(Error::Parse));
    assert_eq!(parse("1 2"), Err(Error::Parse));
    assert_eq!(parse("--1"), Err(Error::Parse));
    assert_eq!(parse("1 == 1"), Err(Error::Parse));
    assert_eq!(parse("a"), Err(Error::Parse));
    assert_eq!(parse("1 | 2"), Err(Error::Parse));
}

#[test]
fn power_groups_to_the_right_and_binds_tighter() {
    assert_eq!(
        parse("2^3^2").unwrap(),
        Apply(Op::Pow, vec![num(2), Apply(Op::Pow, vec![num(3), num(2)])])
    );
    assert_eq!(
        parse("1+2*3").unwrap(),
        Apply(Op::Add, vec![num(1), Apply(Op::Mul, vec![num(2), num(3)])])
    );
    assert_eq!(
        parse("2*3^4").unwrap(),
        Apply(Op::Mul, vec![num(2), Apply(Op::Pow, vec![num(3), num(4)])])
    );
    assert_eq!(
        parse("1-2-3").unwrap(),
        Apply(Op::Sub, vec![Apply(Op::Sub, vec![num(1), num(2)]), num(3)])
    );
    assert_eq!(eval("1/10+(-2+3)*4^5").unwrap(), num(1024));
    assert_eq!(eval("2^3^2").unwrap(), num(512));
}

#[test]
fn remainder_binds_less_than_equality_and_coalescing_most() {
    assert_eq!(
        parse("7 % 4 = 3").unwrap(),
        Apply(Op::Mod, vec![num(7), Apply(Op::Eq, vec![num(4), num(3)])])
    );
    assert_eq!(
        parse("1 + 2 % 3").unwrap(),
        Apply(Op::Mod, vec![Apply(Op::Add, vec![num(1), num(2)]), num(3)])
    );
    assert_eq!(
        parse("1 + null ~~ 2").unwrap(),
        Apply(Op::Add, vec![num(1), Apply(Op::Coalesce, vec![Const(Value::Null), num(2)])])
    );
    assert_eq!(
        parse("1 < 2 < 3").unwrap(),
        Apply(Op::Lt, vec![Apply(Op::Lt, vec![num(1), num(2)]), num(3)])
    );
    assert_eq!(
        parse("true || false && false").unwrap(),
        Apply(
            Op::Or,
            vec![boolean(true), Apply(Op::And, vec![boolean(false), boolean(false)])]
        )
    );
}

#[test]
fn prefix_operators_take_the_next_term() {
    assert_eq!(
        parse("-2+3").unwrap(),
        Apply(Op::Add, vec![Apply(Op::Minus, vec![num(2)]), num(3)])
    );
    assert_eq!(parse("!true").unwrap(), Apply(Op::Neg, vec![boolean(true)]));
    assert_eq!(eval("1 - -2").unwrap(), num(3));
    assert_eq!(eval("-(1+2)").unwrap(), num(-3));
    assert_eq!(eval("!(1 < 2)").unwrap(), boolean(false));
}

#[test]
fn logic_has_three_values() {
    assert_eq!(eval("true && false").unwrap(), boolean(false));
    assert_eq!(eval("true || false").unwrap(), boolean(true));
    assert_eq!(eval("true || null").unwrap(), boolean(true));
    assert_eq!(eval("null || true").unwrap(), boolean(true));
    assert_eq!(eval("true && null").unwrap(), Const(Value::Null));
    assert_eq!(eval("null && false").unwrap(), boolean(false));
    assert_eq!(eval("false || null").unwrap(), Const(Value::Null));
    assert_eq!(eval("!null").unwrap(), Const(Value::Null));
    assert_eq!(eval("true || 1"), Err(Error::Type));
}

#[test]
fn integer_arithmetic() {
    assert_eq!(eval("7 / 2").unwrap(), num(3));
    assert_eq!(eval("(-7) / 2").unwrap(), num(-3));
    assert_eq!(eval("(-7) % 2").unwrap(), num(-1));
    assert_eq!(eval("7 % (-2)").unwrap(), num(1));
    assert_eq!(eval("2 ^ 62").unwrap(), num(1 << 62));
    assert_eq!(eval("(-2) ^ 63").unwrap(), num(i64::MIN));
    assert_eq!(eval("(-1) ^ 9223372036854775807").unwrap(), num(-1));
    assert_eq!(eval("0 ^ 0").unwrap(), num(1));
    assert_eq!(eval("1 / 0"), Err(Error::Arithmetic));
    assert_eq!(eval("1 % 0"), Err(Error::Arithmetic));
    assert_eq!(eval("2 ^ 63"), Err(Error::Arithmetic));
    assert_eq!(eval("2 ^ (-1)"), Err(Error::Arithmetic));
    assert_eq!(eval("9223372036854775807 + 1"), Err(Error::Arithmetic));
    assert_eq!(eval("1 + 'a'"), Err(Error::Type));
    assert_eq!(eval("null + 1"), Err(Error::Type));
}

#[test]
fn floats_are_computed_by_the_float_unit() {
    assert_eq!(eval("1.5 + 2").unwrap(), float(3.5));
    assert_eq!(eval("1 / 2.0").unwrap(), float(0.5));
    assert_eq!(eval("-1.5").unwrap(), float(-1.5));
    assert_eq!(eval("2.0 ^ 3").unwrap(), float(8.0));
    assert_eq!(eval("1.5 < 2").unwrap(), boolean(true));
    assert_eq!(eval("2 >= 2.0").unwrap(), boolean(true));
    assert_eq!(eval("1.0 / 0").unwrap(), float(f64::INFINITY));
}

#[test]
fn comparisons() {
    assert_eq!(eval("1 < 2").unwrap(), boolean(true));
    assert_eq!(eval("2 <= 2").unwrap(), boolean(true));
    assert_eq!(eval("3 != 3").unwrap(), boolean(false));
    assert_eq!(eval("'abc' < 'abd'").unwrap(), boolean(true));
    assert_eq!(eval("'ab' < 'abc'").unwrap(), boolean(true));
    assert_eq!(eval("'b' > 'abc'").unwrap(), boolean(true));
    assert_eq!(eval("'x' = 'x'").unwrap(), boolean(true));
    assert_eq!(eval("false < true").unwrap(), boolean(true));
    assert_eq!(eval("null = null").unwrap(), boolean(true));
    assert_eq!(eval("1 = 'a'"), Err(Error::Type));
    assert_eq!(eval("null = 1"), Err(Error::Type));
}

#[test]
fn coalescing_takes_the_first_that_is_not_null() {
    assert_eq!(eval("null ~~ 2").unwrap(), num(2));
    assert_eq!(eval("1 ~~ 2").unwrap(), num(1));
    assert_eq!(eval("null ~~ null").unwrap(), Const(Value::Null));
    assert_eq!(
        Apply(Op::Coalesce, vec![Const(Value::Null), Const(Value::Null), num(3), num(4)])
            .eval::<Ieee>()
            .unwrap(),
        num(3)
    );
    assert_eq!(Apply(Op::Coalesce, vec![]).eval::<Ieee>().unwrap(), Const(Value::Null));
}

#[test]
fn null_tests_never_fail() {
    assert_eq!(
        Apply(Op::IsNull, vec![Const(Value::Null)]).eval::<Ieee>().unwrap(),
        boolean(true)
    );
    assert_eq!(Apply(Op::IsNull, vec![text("a")]).eval::<Ieee>().unwrap(), boolean(false));
    assert_eq!(
        Apply(Op::NotNull, vec![Const(Value::List(vec![]))]).eval::<Ieee>().unwrap(),
        boolean(true)
    );
}

#[test]
fn calls_are_not_implemented() {
    assert_eq!(Apply(Op::Call, vec![]).eval::<Ieee>(), Err(Error::Unimplemented));
    assert_eq!(
        Apply(Op::Call, vec![parse("1/0").unwrap()]).eval::<Ieee>(),
        Err(Error::Unimplemented)
    );
}

#[test]
fn the_first_operand_that_fails_decides() {
    assert_eq!(eval("(1/0) + ('a' + 1)"), Err(Error::Arithmetic));
    assert_eq!(eval("('a' + 1) + (1/0)"), Err(Error::Type));
    assert_eq!(
        Apply(Op::Add, vec![num(1)]).eval::<Ieee>(),
        Err(Error::Logic(Misuse::OperandCount))
    );
}

#[test]
fn constants_evaluate_to_themselves() {
    let list = Const(Value::List(vec![Value::Int(1), Value::Text("a".to_string())]));
    assert_eq!(list.eval::<Ieee>().unwrap(), list);
    let copy = list.clone();
    assert_eq!(copy, list);
}

fn list(items: Vec<Value>) -> Expr {
    Const(Value::List(items))
}

fn entries(items: Vec<(&str, Value)>) -> Expr {
    Const(Value::Dict(items.into_iter().map(|(k, v)| (k.to_string(), v)).collect()))
}

fn holds(op: Op, a: Expr, b: Expr) -> Result<Expr, Error> {
    Apply(op, vec![a, b]).eval::<Ieee>()
}

#[test]
fn lists_are_ordered_item_by_item() {
    let one_two = || list(vec![Value::Int(1), Value::Int(2)]);
    let one_three = || list(vec![Value::Int(1), Value::Int(3)]);
    let one = || list(vec![Value::Int(1)]);
    assert_eq!(holds(Op::Lt, one_two(), one_three()), Ok(boolean(true)));
    assert_eq!(holds(Op::Gt, one_two(), one_three()), Ok(boolean(false)));
    assert_eq!(holds(Op::Lt, one(), one_two()), Ok(boolean(true)));
    assert_eq!(holds(Op::Eq, one_two(), one_two()), Ok(boolean(true)));
    assert_eq!(holds(Op::Neq, one_two(), one()), Ok(boolean(true)));
    assert_eq!(holds(Op::Le, list(vec![]), list(vec![])), Ok(boolean(true)));
    let mixed = list(vec![Value::Int(1), Value::Text("a".to_string())]);
    assert_eq!(holds(Op::Eq, one_two(), mixed), Err(Error::Type));
    let decided_before = list(vec![Value::Int(0), Value::Text("a".to_string())]);
    assert_eq!(holds(Op::Gt, one_two(), decided_before), Ok(boolean(true)));
    let halves = list(vec![Value::Float(1.5f64.to_bits())]);
    assert_eq!(holds(Op::Lt, halves, list(vec![Value::Int(2)])), Ok(boolean(true)));
    assert_eq!(holds(Op::Eq, one(), num(1)), Err(Error::Type));
}

#[test]
fn dictionaries_are_ordered_entry_by_entry() {
    let a1 = || entries(vec![("a", Value::Int(1))]);
    let a2 = || entries(vec![("a", Value::Int(2))]);
    let b0 = || entries(vec![("b", Value::Int(0))]);
    assert_eq!(holds(Op::Lt, a1(), a2()), Ok(boolean(true)));
    assert_eq!(holds(Op::Lt, a2(), b0()), Ok(boolean(true)));
    assert_eq!(holds(Op::Eq, a1(), a1()), Ok(boolean(true)));
    assert_eq!(holds(Op::Ge, a1(), entries(vec![])), Ok(boolean(true)));
    let a_text = entries(vec![("a", Value::Text("x".to_string()))]);
    assert_eq!(holds(Op::Eq, a1(), a_text), Err(Error::Type));
    assert_eq!(holds(Op::Eq, a1(), list(vec![])), Err(Error::Type));
}

#[test]
fn well_formed_values_hold_each_key_once() {
    let good = Value::Dict(vec![
        ("a".to_string(), Value::Int(1)),
        ("b".to_string(), Value::List(vec![Value::Dict(vec![])])),
    ]);
    assert!(good.is_well_formed());
    let twice = Value::Dict(vec![
        ("a".to_string(), Value::Int(1)),
        ("a".to_string(), Value::Int(2)),
    ]);
    assert!(!twice.is_well_formed());
    assert_eq!(twice.get("a"), Some(&Value::Int(1)));
    assert!(!Value::List(vec![Value::Null, twice]).is_well_formed());
    assert!(Value::Int(1).is_well_formed());
}

#[test]
fn unicode_escapes_name_characters_by_code() {
    assert_eq!(parse(r#""\u0041\u00E9\ud7ff""#).unwrap(), text("A\u{e9}\u{d7ff}"));
    assert_eq!(parse(r#"'\ue000'"#).unwrap(), text("\u{e000}"));
    assert_eq!(parse(r#""\udfff""#), Err(Error::InvalidUtfCode));
}
