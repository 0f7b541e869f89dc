use knightrs::Action;
use knightrs::Environment;
use knightrs::Function;
use knightrs::Ids;
use knightrs::Kind;
use knightrs::ParseError;
use knightrs::RcString;
use knightrs::Request;
use knightrs::RuntimeError;
use knightrs::Value;
use knightrs::function::add;
use knightrs::function::and;
use knightrs::function::assign;
use knightrs::function::block;
use knightrs::function::call;
use knightrs::function::divide;
use knightrs::function::dump;
use knightrs::function::equals;
use knightrs::function::eval;
use knightrs::function::get;
use knightrs::function::greater_than;
use knightrs::function::if_else;
use knightrs::function::length;
use knightrs::function::less_than;
use knightrs::function::modulo;
use knightrs::function::multiply;
use knightrs::function::not;
use knightrs::function::or;
use knightrs::function::output;
use knightrs::function::power;
use knightrs::function::prompt;
use knightrs::function::quit;
use knightrs::function::random;
use knightrs::function::sequence;
use knightrs::function::substitute;
use knightrs::function::subtract;
use knightrs::function::system;
use knightrs::function::while_loop;

fn text(source: &str) -> Value {
    Value::String(RcString::new(source).unwrap())
}

fn num(number: i64) -> Value {
    Value::Number(number)
}

fn node(name: char, args: Vec<Value>) -> Value {
    Value::new_function(Function::fetch(name).unwrap(), args)
}

fn write(text: &str, flush: bool) -> Action {
    Action::Request(Request::Write { text: text.to_string(), flush })
}

#[test]
fn fetch_knows_every_function_and_its_arity() {
    let table = [
        ('P', 0),
        ('R', 0),
        ('E', 1),
        ('B', 1),
        ('C', 1),
        ('`', 1),
        ('Q', 1),
        ('!', 1),
        ('L', 1),
        ('D', 1),
        ('O', 1),
        ('+', 2),
        ('-', 2),
        ('*', 2),
        ('/', 2),
        ('%', 2),
        ('^', 2),
        ('?', 2),
        ('<', 2),
        ('>', 2),
        ('&', 2),
        ('|', 2),
        (';', 2),
        ('=', 2),
        ('W', 2),
        ('I', 3),
        ('G', 3),
        ('S', 4),
    ];
    for (name, arity) in table {
        let func = Function::fetch(name).unwrap();
        assert_eq!(func.name(), name);
        assert_eq!(func.arity(), arity);
    }
}

#[test]
fn fetch_knows_no_other_function() {
    for name in ['T', 'F', 'N', 'X', 'a', '0', ' ', '#', '$', '~', '\'', '"', 'é', '\n'] {
        assert_eq!(Function::fetch(name), None);
    }
}

#[test]
fn strict_functions_ask_for_their_arguments_in_order() {
    assert_eq!(add(&[]), Action::Evaluate(0));
    assert_eq!(add(&[num(1)]), Action::Evaluate(1));
    assert_eq!(subtract(&[]), Action::Evaluate(0));
    assert_eq!(multiply(&[num(1)]), Action::Evaluate(1));
    assert_eq!(divide(&[]), Action::Evaluate(0));
    assert_eq!(modulo(&[num(1)]), Action::Evaluate(1));
    assert_eq!(power(&[]), Action::Evaluate(0));
    assert_eq!(equals(&[num(1)]), Action::Evaluate(1));
    assert_eq!(less_than(&[]), Action::Evaluate(0));
    assert_eq!(greater_than(&[num(1)]), Action::Evaluate(1));
    assert_eq!(get(&[]), Action::Evaluate(0));
    assert_eq!(get(&[text("a")]), Action::Evaluate(1));
    assert_eq!(get(&[text("a"), num(0)]), Action::Evaluate(2));
    assert_eq!(substitute(&[text("a"), num(0), num(0)]), Action::Evaluate(3));
    assert_eq!(not(&[]), Action::Evaluate(0));
    assert_eq!(length(&[]), Action::Evaluate(0));
    assert_eq!(quit(&[]), Action::Evaluate(0));
}

#[test]
fn arithmetic_functions_compute_once_both_sides_are_there() {
    assert_eq!(add(&[num(2), num(3)]), Action::Return(num(5)));
    assert_eq!(add(&[text("a"), text("b")]), Action::Return(text("ab")));
    assert_eq!(subtract(&[num(2), num(3)]), Action::Return(num(-1)));
    assert_eq!(multiply(&[num(2), num(3)]), Action::Return(num(6)));
    assert_eq!(multiply(&[text("ab"), num(2)]), Action::Return(text("abab")));
    assert_eq!(divide(&[num(7), num(2)]), Action::Return(num(3)));
    assert_eq!(modulo(&[num(7), num(2)]), Action::Return(num(1)));
    assert_eq!(power(&[num(2), num(5)]), Action::Return(num(32)));
}

#[test]
fn division_by_zero_is_raised() {
    assert_eq!(
        divide(&[num(7), num(0)]),
        Action::Raise(RuntimeError::DivisionByZero { modulo: false })
    );
    assert_eq!(
        modulo(&[num(7), num(0)]),
        Action::Raise(RuntimeError::DivisionByZero { modulo: true })
    );
}

#[test]
fn invalid_operands_are_raised() {
    assert_eq!(
        add(&[Value::Null, num(0)]),
        Action::Raise(RuntimeError::InvalidOperand { func: '+', operand: Kind::Null })
    );
    assert_eq!(
        less_than(&[Value::Null, num(0)]),
        Action::Raise(RuntimeError::InvalidOperand { func: '<', operand: Kind::Null })
    );
    assert_eq!(
        greater_than(&[node('R', vec![]), num(0)]),
        Action::Raise(RuntimeError::InvalidOperand { func: '>', operand: Kind::Function })
    );
}

#[test]
fn comparisons_return_booleans() {
    assert_eq!(equals(&[num(1), num(1)]), Action::Return(Value::Boolean(true)));
    assert_eq!(equals(&[num(1), text("1")]), Action::Return(Value::Boolean(false)));
    assert_eq!(less_than(&[num(1), num(2)]), Action::Return(Value::Boolean(true)));
    assert_eq!(less_than(&[text("b"), text("a")]), Action::Return(Value::Boolean(false)));
    assert_eq!(greater_than(&[num(1), num(2)]), Action::Return(Value::Boolean(false)));
    assert_eq!(greater_than(&[text("b"), text("a")]), Action::Return(Value::Boolean(true)));
}

#[test]
fn not_negates_truth() {
    assert_eq!(not(&[Value::Boolean(true)]), Action::Return(Value::Boolean(false)));
    assert_eq!(not(&[num(0)]), Action::Return(Value::Boolean(true)));
    assert_eq!(not(&[text("")]), Action::Return(Value::Boolean(true)));
    assert_eq!(not(&[text("x")]), Action::Return(Value::Boolean(false)));
    assert_eq!(
        not(&[node('R', vec![])]),
        Action::Raise(RuntimeError::UndefinedConversion {
            into: Kind::Boolean,
            kind: Kind::Function
        })
    );
}

#[test]
fn length_counts_characters_of_the_text() {
    assert_eq!(length(&[text("hello")]), Action::Return(num(5)));
    assert_eq!(length(&[text("")]), Action::Return(num(0)));
    assert_eq!(length(&[num(-100)]), Action::Return(num(4)));
    assert_eq!(length(&[Value::Null]), Action::Return(num(4)));
    assert_eq!(length(&[Value::Boolean(false)]), Action::Return(num(5)));
}

#[test]
fn quit_raises_the_exit_status() {
    assert_eq!(quit(&[num(42)]), Action::Raise(RuntimeError::Quit(42)));
    assert_eq!(quit(&[text("3")]), Action::Raise(RuntimeError::Quit(3)));
    assert_eq!(quit(&[num(-1)]), Action::Raise(RuntimeError::Quit(-1)));
    assert_eq!(quit(&[num(4294967296 + 7)]), Action::Raise(RuntimeError::Quit(7)));
    assert!(RuntimeError::Quit(0).is_quit());
    assert!(!RuntimeError::DivisionByZero { modulo: false }.is_quit());
}

#[test]
fn block_returns_its_argument_unevaluated() {
    let body = node('+', vec![num(1), num(2)]);
    assert_eq!(block(&[body.clone()]), Action::Return(body));
}

#[test]
fn call_evaluates_what_its_argument_gave() {
    let body = node('+', vec![num(1), num(2)]);
    assert_eq!(call(&[]), Action::Evaluate(0));
    assert_eq!(call(&[body.clone()]), Action::Tail(body));
    assert_eq!(call(&[num(5)]), Action::Tail(num(5)));
}

#[test]
fn and_short_circuits_on_a_false_left_side() {
    let args = [Value::Boolean(false), node('Q', vec![num(1)])];
    assert_eq!(and(&args, &[]), Action::Evaluate(0));
    assert_eq!(and(&args, &[Value::Boolean(false)]), Action::Return(Value::Boolean(false)));
    assert_eq!(and(&args, &[num(0)]), Action::Return(num(0)));
    assert_eq!(and(&args, &[text("")]), Action::Return(text("")));
    assert_eq!(and(&args, &[Value::Null]), Action::Return(Value::Null));
    assert_eq!(and(&args, &[num(5)]), Action::Tail(node('Q', vec![num(1)])));
}

#[test]
fn or_short_circuits_on_a_true_left_side() {
    let args = [Value::Boolean(false), node('Q', vec![num(1)])];
    assert_eq!(or(&args, &[]), Action::Evaluate(0));
    assert_eq!(or(&args, &[num(5)]), Action::Return(num(5)));
    assert_eq!(or(&args, &[text("x")]), Action::Return(text("x")));
    assert_eq!(or(&args, &[num(0)]), Action::Tail(node('Q', vec![num(1)])));
}

#[test]
fn sequence_goes_on_with_the_right_side() {
    let args = [num(1), num(2)];
    assert_eq!(sequence(&args, &[]), Action::Evaluate(0));
    assert_eq!(sequence(&args, &[num(1)]), Action::Tail(num(2)));
}

#[test]
fn if_else_picks_one_branch() {
    let args = [Value::Boolean(true), num(1), num(2)];
    assert_eq!(if_else(&args, &[]), Action::Evaluate(0));
    assert_eq!(if_else(&args, &[Value::Boolean(true)]), Action::Tail(num(1)));
    assert_eq!(if_else(&args, &[num(0)]), Action::Tail(num(2)));
    assert_eq!(
        if_else(&args, &[node('R', vec![])]),
        Action::Raise(RuntimeError::UndefinedConversion {
            into: Kind::Boolean,
            kind: Kind::Function
        })
    );
}

#[test]
fn while_loop_repeats_while_the_condition_holds() {
    assert_eq!(while_loop(&[]), Action::Evaluate(0));
    assert_eq!(while_loop(&[num(1)]), Action::Evaluate(1));
    assert_eq!(while_loop(&[num(0)]), Action::Return(Value::Null));
    assert_eq!(while_loop(&[num(1), text("body")]), Action::Again);
}

#[test]
fn assign_stores_the_value_and_returns_it() {
    let mut env = Environment::new(&mut Ids::new());
    let x = env.get("x");
    let args = [Value::Variable(x.clone()), num(10)];
    assert_eq!(assign(&args, &[], &mut env), Action::Evaluate(1));
    assert_eq!(env.fetch(&x), None);
    assert_eq!(assign(&args, &[num(10)], &mut env), Action::Return(num(10)));
    assert_eq!(env.fetch(&x), Some(num(10)));
}

#[test]
fn assign_rejects_anything_but_a_variable() {
    let mut env = Environment::new(&mut Ids::new());
    let args = [num(1), node('Q', vec![num(1)])];
    assert_eq!(
        assign(&args, &[], &mut env),
        Action::Raise(RuntimeError::InvalidOperand { func: '=', operand: Kind::Number })
    );
    let text_target = [text("x"), num(1)];
    assert_eq!(
        assign(&text_target, &[num(1)], &mut env),
        Action::Raise(RuntimeError::InvalidOperand { func: '=', operand: Kind::String })
    );
}

#[test]
fn get_extracts_a_clamped_substring() {
    assert_eq!(get(&[text("abc"), num(1), num(10)]), Action::Return(text("bc")));
    assert_eq!(get(&[text("abc"), num(0), num(2)]), Action::Return(text("ab")));
    assert_eq!(get(&[text("abc"), num(5), num(2)]), Action::Return(text("")));
    assert_eq!(get(&[num(12345), num(1), num(3)]), Action::Return(text("234")));
    assert_eq!(get(&[text("abc"), text("1"), text("1")]), Action::Return(text("b")));
}

#[test]
fn get_raises_the_first_failed_conversion() {
    let blk = node('R', vec![]);
    assert_eq!(
        get(&[blk.clone(), blk.clone(), blk.clone()]),
        Action::Raise(RuntimeError::UndefinedConversion { into: Kind::String, kind: Kind::Function })
    );
    assert_eq!(
        get(&[text("a"), blk.clone(), blk.clone()]),
        Action::Raise(RuntimeError::UndefinedConversion { into: Kind::Number, kind: Kind::Function })
    );
}

#[test]
fn substitute_replaces_a_range() {
    assert_eq!(
        substitute(&[text("abc"), num(1), num(1), text("XY")]),
        Action::Return(text("aXYc"))
    );
    assert_eq!(
        substitute(&[text("abc"), num(0), num(0), num(7)]),
        Action::Return(text("7abc"))
    );
    assert_eq!(
        substitute(&[text("abc"), num(1), num(99), text("")]),
        Action::Return(text("a"))
    );
}

#[test]
fn prompt_asks_for_a_line_and_returns_it() {
    assert_eq!(prompt(&[]), Action::Request(Request::ReadLine));
    assert_eq!(prompt(&[text("line\n")]), Action::Return(text("line\n")));
}

#[test]
fn random_returns_a_number() {
    for _ in 0..16 {
        match random() {
            Action::Return(Value::Number(_)) => {},
            other => panic!("{:?}", other),
        }
    }
}

#[test]
fn system_asks_for_the_command_and_returns_its_output() {
    assert_eq!(system(&[]), Action::Evaluate(0));
    assert_eq!(
        system(&[text("echo hi")]),
        Action::Request(Request::Shell { command: "echo hi".to_string() })
    );
    assert_eq!(system(&[num(12)]), Action::Request(Request::Shell { command: "12".to_string() }));
    assert_eq!(system(&[text("echo hi"), text("hi\n")]), Action::Return(text("hi\n")));
}

#[test]
fn output_writes_text_and_newline_or_flushes_after_backslash() {
    assert_eq!(output(&[]), Action::Evaluate(0));
    assert_eq!(output(&[text("hello")]), write("hello\n", false));
    assert_eq!(output(&[text("")]), write("\n", false));
    assert_eq!(output(&[num(12)]), write("12\n", false));
    assert_eq!(output(&[text("hello\\")]), write("hello", true));
    assert_eq!(output(&[text("\\")]), write("", true));
    assert_eq!(output(&[text("a\\\\")]), write("a\\", true));
    assert_eq!(output(&[text("a\\b")]), write("a\\b\n", false));
    assert_eq!(output(&[text("hello"), Value::Null]), Action::Return(Value::Null));
}

#[test]
fn dump_writes_the_debug_form_and_returns_the_value() {
    assert_eq!(dump(&[]), Action::Evaluate(0));
    assert_eq!(dump(&[num(5)]), write("Number(5)\n", false));
    assert_eq!(dump(&[text("a")]), write("String(a)\n", false));
    assert_eq!(dump(&[num(5), Value::Null]), Action::Return(num(5)));
}

#[test]
fn eval_parses_the_text_and_goes_on_with_the_program() {
    let mut env = Environment::new(&mut Ids::new());
    assert_eq!(eval(&[], &mut env), Action::Evaluate(0));
    assert_eq!(
        eval(&[text("+ 1 2")], &mut env),
        Action::Tail(node('+', vec![num(1), num(2)]))
    );
    assert_eq!(eval(&[num(5)], &mut env), Action::Tail(num(5)));
    assert_eq!(eval(&[text("x")], &mut env), Action::Tail(Value::Variable(env.get("x"))));
    assert_eq!(
        eval(&[text("")], &mut env),
        Action::Raise(RuntimeError::Parse(ParseError::NothingToParse))
    );
    assert_eq!(
        eval(&[text("$")], &mut env),
        Action::Raise(RuntimeError::Parse(ParseError::UnknownTokenStart { chr: '$', line: 1 }))
    );
}

#[test]
fn run_dispatches_by_name() {
    let mut env = Environment::new(&mut Ids::new());
    let plus = Function::fetch('+').unwrap();
    let args = [num(2), num(3)];
    assert_eq!(plus.run(&args, &[], &mut env), Action::Evaluate(0));
    assert_eq!(plus.run(&args, &[num(2)], &mut env), Action::Evaluate(1));
    assert_eq!(plus.run(&args, &[num(2), num(3)], &mut env), Action::Return(num(5)));
    let block = Function::fetch('B').unwrap();
    assert_eq!(block.run(&[num(7)], &[], &mut env), Action::Return(num(7)));
    let substitute = Function::fetch('S').unwrap();
    assert_eq!(
        substitute.run(
            &[Value::Null, Value::Null, Value::Null, Value::Null],
            &[text("abc"), num(1), num(1), text("XY")],
            &mut env
        ),
        Action::Return(text("aXYc"))
    );
}

#[test]
fn run_refuses_a_call_with_the_wrong_number_of_arguments() {
    let mut env = Environment::new(&mut Ids::new());
    let plus = Function::fetch('+').unwrap();
    assert_eq!(
        plus.run(&[num(2)], &[], &mut env),
        Action::Raise(RuntimeError::InvalidOperand { func: '+', operand: Kind::Function })
    );
    let block = Function::fetch('B').unwrap();
    assert_eq!(
        block.run(&[], &[], &mut env),
        Action::Raise(RuntimeError::InvalidOperand { func: 'B', operand: Kind::Function })
    );
}
