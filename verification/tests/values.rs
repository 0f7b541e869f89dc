use knightrs::Environment;
use knightrs::Function;
use knightrs::Ids;
use knightrs::Kind;
use knightrs::RcString;
use knightrs::RuntimeError;
use knightrs::Value;

fn text(source: &str) -> Value {
    Value::String(RcString::new(source).unwrap())
}

fn num(number: i64) -> Value {
    Value::Number(number)
}

fn call(name: char, args: Vec<Value>) -> Value {
    Value::new_function(Function::fetch(name).unwrap(), args)
}

fn variable(name: &str) -> Value {
    let mut env = Environment::new(&mut Ids::new());
    Value::new_variable(env.get(name))
}

#[test]
fn kinds_and_typenames() {
    assert_eq!(Value::Null.kind(), Kind::Null);
    assert_eq!(Value::Null.typename(), "Null");
    assert_eq!(Value::Boolean(true).typename(), "Boolean");
    assert_eq!(num(1).typename(), "Number");
    assert_eq!(text("a").typename(), "String");
    assert_eq!(variable("a").typename(), "Variable");
    assert_eq!(call('R', vec![]).typename(), "Function");
    assert_eq!(Kind::Function.name(), "Function");
    assert_eq!(Value::default(), Value::Null);
}

#[test]
fn kind_predicates() {
    assert!(Value::Null.is_null());
    assert!(!num(0).is_null());
    assert!(Value::Boolean(false).is_boolean());
    assert!(!Value::Null.is_boolean());
    assert!(num(0).is_number());
    assert!(!text("0").is_number());
    assert!(text("").is_string());
    assert!(!num(0).is_string());
    assert!(variable("x").is_variable());
    assert!(!text("x").is_variable());
    assert!(call('P', vec![]).is_function());
    assert!(!variable("p").is_function());
}

#[test]
fn to_boolean_of_literals() {
    assert_eq!(Value::Null.to_boolean(), Ok(false));
    assert_eq!(Value::Boolean(true).to_boolean(), Ok(true));
    assert_eq!(Value::Boolean(false).to_boolean(), Ok(false));
    assert_eq!(num(0).to_boolean(), Ok(false));
    assert_eq!(num(-3).to_boolean(), Ok(true));
    assert_eq!(text("").to_boolean(), Ok(false));
    assert_eq!(text("0").to_boolean(), Ok(true));
    assert_eq!(text(" ").to_boolean(), Ok(true));
}

#[test]
fn to_number_of_literals() {
    assert_eq!(Value::Null.to_number(), Ok(0));
    assert_eq!(Value::Boolean(false).to_number(), Ok(0));
    assert_eq!(Value::Boolean(true).to_number(), Ok(1));
    assert_eq!(num(-9).to_number(), Ok(-9));
    assert_eq!(text("abc").to_number(), Ok(0));
    assert_eq!(text("  -12x").to_number(), Ok(-12));
    assert_eq!(text("34").to_number(), Ok(34));
}

#[test]
fn to_rcstring_of_literals() {
    assert_eq!(Value::Null.to_rcstring().unwrap().as_str(), "null");
    assert_eq!(Value::Boolean(true).to_rcstring().unwrap().as_str(), "true");
    assert_eq!(Value::Boolean(false).to_rcstring().unwrap().as_str(), "false");
    assert_eq!(num(0).to_rcstring().unwrap().as_str(), "0");
    assert_eq!(num(1).to_rcstring().unwrap().as_str(), "1");
    assert_eq!(num(-250).to_rcstring().unwrap().as_str(), "-250");
    assert_eq!(text("as is").to_rcstring().unwrap().as_str(), "as is");
}

#[test]
fn conversions_of_unevaluated_values_are_undefined() {
    let block = call('+', vec![num(1), num(2)]);
    assert_eq!(
        block.to_boolean(),
        Err(RuntimeError::UndefinedConversion { into: Kind::Boolean, kind: Kind::Function })
    );
    assert_eq!(
        block.to_number(),
        Err(RuntimeError::UndefinedConversion { into: Kind::Number, kind: Kind::Function })
    );
    assert_eq!(
        block.to_rcstring(),
        Err(RuntimeError::UndefinedConversion { into: Kind::String, kind: Kind::Function })
    );
    assert_eq!(
        variable("x").to_number(),
        Err(RuntimeError::UndefinedConversion { into: Kind::Number, kind: Kind::Variable })
    );
}

#[test]
fn try_add_adds_numbers_and_joins_texts() {
    assert_eq!(num(2).try_add(&num(3)), Ok(num(5)));
    assert_eq!(num(2).try_add(&text("3")), Ok(num(5)));
    assert_eq!(num(2).try_add(&Value::Boolean(true)), Ok(num(3)));
    assert_eq!(num(2).try_add(&Value::Null), Ok(num(2)));
    assert_eq!(num(i64::MAX).try_add(&num(1)), Ok(num(i64::MIN)));
    assert_eq!(text("a").try_add(&text("b")), Ok(text("ab")));
    assert_eq!(text("a").try_add(&num(12)), Ok(text("a12")));
    assert_eq!(text("a").try_add(&Value::Null), Ok(text("anull")));
    assert_eq!(text("a").try_add(&Value::Boolean(false)), Ok(text("afalse")));
}

#[test]
fn try_add_rejects_other_left_sides() {
    assert_eq!(
        Value::Null.try_add(&num(1)),
        Err(RuntimeError::InvalidOperand { func: '+', operand: Kind::Null })
    );
    assert_eq!(
        Value::Boolean(true).try_add(&num(1)),
        Err(RuntimeError::InvalidOperand { func: '+', operand: Kind::Boolean })
    );
    assert_eq!(
        variable("x").try_add(&num(1)),
        Err(RuntimeError::InvalidOperand { func: '+', operand: Kind::Variable })
    );
    assert_eq!(
        num(1).try_add(&variable("x")),
        Err(RuntimeError::UndefinedConversion { into: Kind::Number, kind: Kind::Variable })
    );
    assert_eq!(
        text("a").try_add(&call('R', vec![])),
        Err(RuntimeError::UndefinedConversion { into: Kind::String, kind: Kind::Function })
    );
}

#[test]
fn try_sub_subtracts_numbers() {
    assert_eq!(num(2).try_sub(&num(3)), Ok(num(-1)));
    assert_eq!(num(2).try_sub(&text("5")), Ok(num(-3)));
    assert_eq!(num(i64::MIN).try_sub(&num(1)), Ok(num(i64::MAX)));
    assert_eq!(
        text("a").try_sub(&num(1)),
        Err(RuntimeError::InvalidOperand { func: '-', operand: Kind::String })
    );
}

#[test]
fn try_mul_multiplies_numbers_and_repeats_texts() {
    assert_eq!(num(6).try_mul(&num(7)), Ok(num(42)));
    assert_eq!(num(6).try_mul(&text("-2")), Ok(num(-12)));
    assert_eq!(text("ab").try_mul(&num(3)), Ok(text("ababab")));
    assert_eq!(text("ab").try_mul(&num(0)), Ok(text("")));
    assert_eq!(text("ab").try_mul(&num(-2)), Ok(text("")));
    assert_eq!(text("ab").try_mul(&text("2")), Ok(text("abab")));
    assert_eq!(
        Value::Null.try_mul(&num(1)),
        Err(RuntimeError::InvalidOperand { func: '*', operand: Kind::Null })
    );
}

#[test]
fn try_div_divides_and_rejects_zero() {
    assert_eq!(num(7).try_div(&num(2)), Ok(num(3)));
    assert_eq!(num(-7).try_div(&num(2)), Ok(num(-3)));
    assert_eq!(num(7).try_div(&num(0)), Err(RuntimeError::DivisionByZero { modulo: false }));
    assert_eq!(num(7).try_div(&text("")), Err(RuntimeError::DivisionByZero { modulo: false }));
    assert_eq!(num(7).try_div(&Value::Null), Err(RuntimeError::DivisionByZero { modulo: false }));
    assert_eq!(
        text("7").try_div(&num(2)),
        Err(RuntimeError::InvalidOperand { func: '/', operand: Kind::String })
    );
}

#[test]
fn try_rem_takes_remainder_and_rejects_zero() {
    assert_eq!(num(7).try_rem(&num(2)), Ok(num(1)));
    assert_eq!(num(-7).try_rem(&num(2)), Ok(num(-1)));
    assert_eq!(num(7).try_rem(&num(0)), Err(RuntimeError::DivisionByZero { modulo: true }));
    assert_eq!(
        Value::Boolean(true).try_rem(&num(2)),
        Err(RuntimeError::InvalidOperand { func: '%', operand: Kind::Boolean })
    );
}

#[test]
fn try_pow_raises_numbers() {
    assert_eq!(num(2).try_pow(&num(10)), Ok(num(1024)));
    assert_eq!(num(2).try_pow(&num(-1)), Ok(num(0)));
    assert_eq!(num(-1).try_pow(&num(-3)), Ok(num(-1)));
    assert_eq!(num(5).try_pow(&text("2")), Ok(num(25)));
    assert_eq!(
        text("2").try_pow(&num(2)),
        Err(RuntimeError::InvalidOperand { func: '^', operand: Kind::String })
    );
}

#[test]
fn try_lth_orders_by_the_kind_of_the_left_side() {
    assert_eq!(num(1).try_lth(&num(2)), Ok(true));
    assert_eq!(num(2).try_lth(&num(2)), Ok(false));
    assert_eq!(num(10).try_lth(&text("9")), Ok(false));
    assert_eq!(text("10").try_lth(&num(9)), Ok(true));
    assert_eq!(Value::Boolean(false).try_lth(&Value::Boolean(true)), Ok(true));
    assert_eq!(Value::Boolean(true).try_lth(&Value::Boolean(true)), Ok(false));
    assert_eq!(Value::Boolean(false).try_lth(&num(5)), Ok(true));
    assert_eq!(
        Value::Null.try_lth(&num(5)),
        Err(RuntimeError::InvalidOperand { func: '<', operand: Kind::Null })
    );
}

#[test]
fn try_gth_orders_by_the_kind_of_the_left_side() {
    assert_eq!(num(3).try_gth(&num(2)), Ok(true));
    assert_eq!(num(2).try_gth(&num(2)), Ok(false));
    assert_eq!(text("b").try_gth(&text("a")), Ok(true));
    assert_eq!(text("a").try_gth(&text("a")), Ok(false));
    assert_eq!(Value::Boolean(true).try_gth(&Value::Boolean(false)), Ok(true));
    assert_eq!(Value::Boolean(true).try_gth(&text("x")), Ok(false));
    assert_eq!(
        call('R', vec![]).try_gth(&num(5)),
        Err(RuntimeError::InvalidOperand { func: '>', operand: Kind::Function })
    );
}

#[test]
fn try_eql_is_structural() {
    assert_eq!(num(1).try_eql(&num(1)), Ok(true));
    assert_eq!(num(1).try_eql(&num(2)), Ok(false));
    assert_eq!(num(1).try_eql(&text("1")), Ok(false));
    assert_eq!(text("a").try_eql(&text("a")), Ok(true));
    assert_eq!(Value::Null.try_eql(&Value::Null), Ok(true));
    assert_eq!(Value::Null.try_eql(&Value::Boolean(false)), Ok(false));
    assert_eq!(Value::Boolean(true).try_eql(&Value::Boolean(true)), Ok(true));
    let left = call('+', vec![num(1), call('!', vec![text("a")])]);
    let right = call('+', vec![num(1), call('!', vec![text("a")])]);
    let other = call('+', vec![num(1), call('!', vec![text("b")])]);
    assert!(left.same(&right));
    assert!(!left.same(&other));
    assert!(!left.same(&call('-', vec![num(1), call('!', vec![text("a")])])));
    assert!(left.same(&left.clone()));
}

#[test]
fn variables_are_equal_by_identity() {
    let mut ids = Ids::new();
    let mut env = Environment::new(&mut ids);
    let mut other = Environment::new(&mut ids);
    let x = Value::Variable(env.get("x"));
    let again = Value::Variable(env.get("x"));
    let y = Value::Variable(env.get("y"));
    let foreign = Value::Variable(other.get("x"));
    assert!(x.same(&again));
    assert!(!x.same(&y));
    assert!(!x.same(&foreign));
}

#[test]
fn try_assign_stores_into_the_variable() {
    let mut ids = Ids::new();
    let mut env = Environment::new(&mut ids);
    let handle = env.get("x");
    let target = Value::Variable(handle.clone());
    assert_eq!(target.try_assign(num(10), &mut env), Ok(()));
    assert_eq!(env.fetch(&handle), Some(num(10)));
    assert_eq!(
        num(1).try_assign(num(10), &mut env),
        Err(RuntimeError::InvalidOperand { func: '=', operand: Kind::Number })
    );
    let mut other = Environment::new(&mut ids);
    assert_eq!(
        target.try_assign(num(10), &mut other),
        Err(RuntimeError::UnknownIdentifier { identifier: "x".to_string() })
    );
}

#[test]
fn dump_renders_the_debug_form() {
    assert_eq!(Value::Null.dump(), "Null()");
    assert_eq!(Value::Boolean(true).dump(), "Boolean(true)");
    assert_eq!(Value::Boolean(false).dump(), "Boolean(false)");
    assert_eq!(num(5).dump(), "Number(5)");
    assert_eq!(num(-12).dump(), "Number(-12)");
    assert_eq!(text("a b").dump(), "String(a b)");
    assert_eq!(text("").dump(), "String()");
    assert_eq!(variable("name").dump(), "Variable(name)");
    assert_eq!(call('P', vec![]).dump(), "Function(P, [])");
    assert_eq!(call('!', vec![num(1)]).dump(), "Function(!, [Number(1)])");
    assert_eq!(
        call('+', vec![num(1), call('-', vec![text("x"), Value::Null])]).dump(),
        "Function(+, [Number(1), Function(-, [String(x), Null()])])"
    );
}

#[test]
fn new_function_holds_its_arguments() {
    let add = Function::fetch('+').unwrap();
    match Value::new_function(add, vec![num(1), num(2)]) {
        Value::Function(func, args) => {
            assert_eq!(func, add);
            assert_eq!(args.len(), func.arity());
            assert_eq!(args[0], num(1));
            assert_eq!(args[1], num(2));
        },
        _ => panic!("not a function"),
    }
}

#[test]
fn values_from_plain_values() {
    assert_eq!(Value::from(true), Value::Boolean(true));
    assert_eq!(Value::from(12i64), num(12));
    assert_eq!(Value::from(RcString::new("a").unwrap()), text("a"));
    let mut env = Environment::new(&mut Ids::new());
    let x = env.get("x");
    assert_eq!(Value::from(x.clone()), Value::Variable(x));
}

#[test]
fn runtime_errors_from_other_errors() {
    assert_eq!(
        RuntimeError::from(knightrs::ParseError::NothingToParse),
        RuntimeError::Parse(knightrs::ParseError::NothingToParse)
    );
    let err = knightrs::InvalidChar { chr: '\0', idx: 4 };
    assert_eq!(RuntimeError::from(err), RuntimeError::InvalidString(err));
    assert_eq!(RuntimeError::Io("x".to_string()).clone(), RuntimeError::Io("x".to_string()));
}

#[test]
fn accessors_give_what_the_value_holds() {
    assert_eq!(Value::Boolean(true).as_boolean(), Some(true));
    assert_eq!(num(1).as_boolean(), None);
    assert_eq!(num(-4).as_number(), Some(-4));
    assert_eq!(text("4").as_number(), None);
    assert_eq!(text("4").as_string().map(|text| text.as_str()), Some("4"));
    assert_eq!(num(4).as_string(), None);
    let mut env = Environment::new(&mut Ids::new());
    let x = env.get("x");
    assert_eq!(Value::Variable(x.clone()).as_variable(), Some(&x));
    assert_eq!(Value::Null.as_variable(), None);
}
