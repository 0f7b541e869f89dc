use knightrs::Environment;
use knightrs::Function;
use knightrs::Ids;
use knightrs::InvalidChar;
use knightrs::ParseError;
use knightrs::RcString;
use knightrs::Stream;
use knightrs::Value;
use knightrs::stream::chars_of;

fn parse(source: &str) -> Result<Value, ParseError> {
    let mut env = Environment::new(&mut Ids::new());
    Value::parse_str(source, &mut env)
}

fn text(source: &str) -> Value {
    Value::String(RcString::new(source).unwrap())
}

fn call(name: char, args: Vec<Value>) -> Value {
    Value::new_function(Function::fetch(name).unwrap(), args)
}

#[test]
fn chars_of_lists_the_characters() {
    assert_eq!(chars_of("a b"), vec!['a', ' ', 'b']);
    assert_eq!(chars_of(""), Vec::<char>::new());
    assert_eq!(chars_of("é!"), vec!['é', '!']);
}

#[test]
fn digits_parse_to_their_decimal_value() {
    assert_eq!(parse("0"), Ok(Value::Number(0)));
    assert_eq!(parse("7"), Ok(Value::Number(7)));
    assert_eq!(parse("12345"), Ok(Value::Number(12345)));
    assert_eq!(parse("007"), Ok(Value::Number(7)));
    assert_eq!(parse("9223372036854775807"), Ok(Value::Number(i64::MAX)));
}

#[test]
fn number_literals_wrap() {
    assert_eq!(parse("9223372036854775808"), Ok(Value::Number(i64::MIN)));
    assert_eq!(parse("18446744073709551616"), Ok(Value::Number(0)));
}

#[test]
fn number_literal_ends_at_first_non_digit() {
    let mut env = Environment::new(&mut Ids::new());
    let mut stream = Stream::new(chars_of("12ab"));
    assert_eq!(stream.parse(&mut env), Ok(Value::Number(12)));
    assert_eq!(stream.position(), 2);
    assert_eq!(stream.peek(), Some('a'));
}

#[test]
fn no_sign_is_accepted_in_front_of_a_number() {
    assert_eq!(
        parse("-5"),
        Err(ParseError::MissingFunctionArgument { func: '-', number: 1, line: 1 })
    );
    assert_eq!(parse("- 0 5"), Ok(call('-', vec![Value::Number(0), Value::Number(5)])));
}

#[test]
fn whitespace_and_brackets_are_skipped() {
    assert_eq!(parse("  \t\r\n 5"), Ok(Value::Number(5)));
    assert_eq!(parse("(){}[]:5"), Ok(Value::Number(5)));
    assert_eq!(
        parse("(+ [1] {2})"),
        Ok(call('+', vec![Value::Number(1), Value::Number(2)]))
    );
}

#[test]
fn comments_run_to_the_end_of_the_line() {
    assert_eq!(parse("# nothing here\n5"), Ok(Value::Number(5)));
    assert_eq!(parse("# one\n  # two\n\n7 # three"), Ok(Value::Number(7)));
    assert_eq!(parse("# only a comment"), Err(ParseError::NothingToParse));
    assert_eq!(parse("#\n"), Err(ParseError::NothingToParse));
}

#[test]
fn nothing_to_parse_at_end_of_stream() {
    assert_eq!(parse(""), Err(ParseError::NothingToParse));
    assert_eq!(parse("   \n\t"), Err(ParseError::NothingToParse));
    assert_eq!(parse("()"), Err(ParseError::NothingToParse));
}

#[test]
fn variables_are_interned_in_the_environment() {
    let mut env = Environment::new(&mut Ids::new());
    let parsed = Value::parse_str("foo_1", &mut env).unwrap();
    let handle = env.get("foo_1");
    assert_eq!(parsed, Value::Variable(handle.clone()));
    assert_eq!(handle.name(), "foo_1");
    assert_eq!(env.len(), 1);
    let underscore = Value::parse_str("_x9 rest", &mut env).unwrap();
    assert_eq!(underscore, Value::Variable(env.get("_x9")));
    assert_eq!(env.len(), 2);
}

#[test]
fn variable_name_ends_at_upper_case() {
    let mut env = Environment::new(&mut Ids::new());
    let mut stream = Stream::new(chars_of("abcDEF"));
    let parsed = stream.parse(&mut env).unwrap();
    assert_eq!(parsed, Value::Variable(env.get("abc")));
    assert_eq!(stream.position(), 3);
}

#[test]
fn booleans_and_null_parse_as_words() {
    assert_eq!(parse("T"), Ok(Value::Boolean(true)));
    assert_eq!(parse("F"), Ok(Value::Boolean(false)));
    assert_eq!(parse("N"), Ok(Value::Null));
    assert_eq!(parse("TRUE"), Ok(Value::Boolean(true)));
    assert_eq!(parse("FALSE"), Ok(Value::Boolean(false)));
    assert_eq!(parse("NULL"), Ok(Value::Null));
    assert_eq!(parse("TR_UE"), Ok(Value::Boolean(true)));
}

#[test]
fn word_literal_swallows_its_trailing_run() {
    let mut env = Environment::new(&mut Ids::new());
    let mut stream = Stream::new(chars_of("TRUE_x 3"));
    assert_eq!(stream.parse(&mut env), Ok(Value::Boolean(true)));
    assert_eq!(stream.position(), 5);
    assert_eq!(stream.parse(&mut env), Ok(Value::Variable(env.get("x"))));
    assert_eq!(stream.parse(&mut env), Ok(Value::Number(3)));
    assert_eq!(stream.parse(&mut env), Err(ParseError::NothingToParse));
}

#[test]
fn strings_are_taken_raw_between_quotes() {
    assert_eq!(parse("'abc'"), Ok(text("abc")));
    assert_eq!(parse("\"abc\""), Ok(text("abc")));
    assert_eq!(parse("''"), Ok(text("")));
    assert_eq!(parse("'say \"hi\"'"), Ok(text("say \"hi\"")));
    assert_eq!(parse("\"it's\""), Ok(text("it's")));
    assert_eq!(parse("'a\\nb'"), Ok(text("a\\nb")));
    assert_eq!(parse("'two\nlines'"), Ok(text("two\nlines")));
    assert_eq!(parse("'# no comment'"), Ok(text("# no comment")));
}

#[test]
fn unterminated_quote_reports_the_line_it_started_on() {
    assert_eq!(parse("'abc"), Err(ParseError::UnterminatedQuote { line: 1 }));
    assert_eq!(parse("\n\n\"abc\nmore\n"), Err(ParseError::UnterminatedQuote { line: 3 }));
    assert_eq!(parse("'abc\""), Err(ParseError::UnterminatedQuote { line: 1 }));
}

#[test]
fn invalid_string_reports_line_and_character() {
    assert_eq!(
        parse("'ab\x01c'"),
        Err(ParseError::InvalidString { line: 1, err: InvalidChar { chr: '\x01', idx: 2 } })
    );
    assert_eq!(
        parse("\n 'é'"),
        Err(ParseError::InvalidString { line: 2, err: InvalidChar { chr: 'é', idx: 0 } })
    );
}

#[test]
fn unknown_token_start_reports_char_and_line() {
    assert_eq!(parse("$"), Err(ParseError::UnknownTokenStart { chr: '$', line: 1 }));
    assert_eq!(parse("\n\n  @"), Err(ParseError::UnknownTokenStart { chr: '@', line: 3 }));
    assert_eq!(parse("X"), Err(ParseError::UnknownTokenStart { chr: 'X', line: 1 }));
    assert_eq!(parse("é"), Err(ParseError::UnknownTokenStart { chr: 'é', line: 1 }));
    assert_eq!(parse("+ 1 ~"), Err(ParseError::UnknownTokenStart { chr: '~', line: 1 }));
}

#[test]
fn functions_take_their_arity_of_arguments() {
    assert_eq!(parse("P"), Ok(call('P', vec![])));
    assert_eq!(parse("R"), Ok(call('R', vec![])));
    assert_eq!(parse("! T"), Ok(call('!', vec![Value::Boolean(true)])));
    assert_eq!(parse("+ 1 2"), Ok(call('+', vec![Value::Number(1), Value::Number(2)])));
    assert_eq!(
        parse("I T 1 2"),
        Ok(call('I', vec![Value::Boolean(true), Value::Number(1), Value::Number(2)]))
    );
    assert_eq!(
        parse("S 'abc' 1 1 'XY'"),
        Ok(call('S', vec![text("abc"), Value::Number(1), Value::Number(1), text("XY")]))
    );
}

#[test]
fn functions_nest() {
    assert_eq!(
        parse("+ * 2 3 - 4 1"),
        Ok(call(
            '+',
            vec![
                call('*', vec![Value::Number(2), Value::Number(3)]),
                call('-', vec![Value::Number(4), Value::Number(1)]),
            ]
        ))
    );
}

#[test]
fn keyword_functions_swallow_their_trailing_run() {
    assert_eq!(parse("OUTPUT 5"), Ok(call('O', vec![Value::Number(5)])));
    assert_eq!(parse("LENGTH'abc'"), Ok(call('L', vec![text("abc")])));
    assert_eq!(
        parse("IF TRUE 1 2"),
        Ok(call('I', vec![Value::Boolean(true), Value::Number(1), Value::Number(2)]))
    );
    assert_eq!(parse("+1 2"), Ok(call('+', vec![Value::Number(1), Value::Number(2)])));
}

#[test]
fn missing_function_argument_names_function_index_and_line() {
    assert_eq!(
        parse("+ 1"),
        Err(ParseError::MissingFunctionArgument { func: '+', number: 1, line: 1 })
    );
    assert_eq!(
        parse("+"),
        Err(ParseError::MissingFunctionArgument { func: '+', number: 0, line: 1 })
    );
    assert_eq!(
        parse("\n\nI T 1\n\n"),
        Err(ParseError::MissingFunctionArgument { func: 'I', number: 2, line: 3 })
    );
    assert_eq!(
        parse("OUTPUT # nothing\n"),
        Err(ParseError::MissingFunctionArgument { func: 'O', number: 0, line: 1 })
    );
}

#[test]
fn missing_argument_of_inner_function_is_not_rewritten() {
    assert_eq!(
        parse("+ 1\n- 2"),
        Err(ParseError::MissingFunctionArgument { func: '-', number: 1, line: 2 })
    );
    assert_eq!(
        parse("; ! \n"),
        Err(ParseError::MissingFunctionArgument { func: '!', number: 0, line: 1 })
    );
}

#[test]
fn other_errors_of_arguments_pass_unchanged() {
    assert_eq!(parse("+ 1 'abc"), Err(ParseError::UnterminatedQuote { line: 1 }));
    assert_eq!(parse("+ $ 1"), Err(ParseError::UnknownTokenStart { chr: '$', line: 1 }));
}

#[test]
fn variables_of_a_failed_parse_stay_interned() {
    let mut env = Environment::new(&mut Ids::new());
    assert_eq!(
        Value::parse_str("+ x", &mut env),
        Err(ParseError::MissingFunctionArgument { func: '+', number: 1, line: 1 })
    );
    assert_eq!(env.len(), 1);
}

#[test]
fn parse_reads_one_expression_at_a_time() {
    let mut env = Environment::new(&mut Ids::new());
    let mut stream = Stream::new(chars_of("+ 1 2 'next' x"));
    assert_eq!(
        stream.parse(&mut env),
        Ok(call('+', vec![Value::Number(1), Value::Number(2)]))
    );
    assert_eq!(stream.position(), 5);
    assert_eq!(stream.parse(&mut env), Ok(text("next")));
    assert_eq!(stream.parse(&mut env), Ok(Value::Variable(env.get("x"))));
    assert_eq!(stream.parse(&mut env), Err(ParseError::NothingToParse));
}

#[test]
fn parse_takes_characters() {
    let mut env = Environment::new(&mut Ids::new());
    assert_eq!(Value::parse(vec!['!', ' ', 'F'], &mut env), Ok(call('!', vec![Value::Boolean(false)])));
    assert_eq!(Value::parse(Vec::new(), &mut env), Err(ParseError::NothingToParse));
}

#[test]
fn stream_next_peek_prev_and_rewind() {
    let mut stream = Stream::new(chars_of("a\nb"));
    assert_eq!(stream.prev(), None);
    assert_eq!(stream.peek(), Some('a'));
    assert_eq!(stream.line(), 1);
    assert_eq!(stream.next(), Some('a'));
    assert_eq!(stream.prev(), Some('a'));
    assert_eq!(stream.next(), Some('\n'));
    assert_eq!(stream.line(), 2);
    assert_eq!(stream.position(), 2);
    stream.rewind();
    assert_eq!(stream.line(), 1);
    assert_eq!(stream.peek(), Some('\n'));
    assert_eq!(stream.next(), Some('\n'));
    assert_eq!(stream.next(), Some('b'));
    assert_eq!(stream.next(), None);
    assert_eq!(stream.peek(), None);
    assert_eq!(stream.next(), None);
    assert_eq!(stream.prev(), Some('b'));
    assert_eq!(stream.line(), 2);
}

#[test]
fn stream_try_readers_leave_other_tokens_alone() {
    let mut env = Environment::new(&mut Ids::new());
    let mut stream = Stream::new(chars_of("12 ab 'cd' T N # c\nX"));
    assert!(!stream.try_whitespace());
    assert!(!stream.try_comment());
    assert_eq!(stream.try_boolean(), None);
    assert!(!stream.try_null());
    assert_eq!(stream.try_variable(&mut env), None);
    assert_eq!(stream.try_string(), None);
    assert_eq!(stream.try_number(), Some(12));
    assert_eq!(stream.try_number(), None);
    assert!(stream.try_whitespace());
    assert_eq!(stream.try_variable(&mut env), Some(env.get("ab")));
    assert!(stream.try_whitespace());
    assert_eq!(stream.try_string(), Some(Ok(RcString::new("cd").unwrap())));
    assert!(stream.try_whitespace());
    assert_eq!(stream.try_boolean(), Some(true));
    assert!(stream.try_whitespace());
    assert!(stream.try_null());
    assert!(stream.try_whitespace());
    assert!(stream.try_comment());
    assert_eq!(stream.line(), 2);
    assert_eq!(stream.peek(), Some('X'));
    stream.skip_blank();
    assert_eq!(stream.peek(), Some('X'));
}

#[test]
fn stream_unchecked_readers_read_their_token() {
    let mut env = Environment::new(&mut Ids::new());
    let mut stream = Stream::new(chars_of("  #x\n  77name\"s\"FALSE NULL_"));
    stream.whitespace_unchecked();
    stream.comment_unchecked();
    stream.skip_blank();
    assert_eq!(stream.number_unchecked(), 77);
    assert_eq!(stream.variable_unchecked(&mut env), env.get("name"));
    assert_eq!(stream.string_unchecked(), Ok(RcString::new("s").unwrap()));
    assert!(!stream.boolean_unchecked());
    stream.whitespace_unchecked();
    stream.null_unchecked();
    assert_eq!(stream.peek(), None);
}

#[test]
fn stream_strip_word_skips_upper_case_and_underscores() {
    let mut stream = Stream::new(chars_of("UTPUT_Xy"));
    stream.strip_word();
    assert_eq!(stream.peek(), Some('y'));
    stream.strip_word();
    assert_eq!(stream.peek(), Some('y'));
}

#[test]
fn stream_function_reads_the_arguments() {
    let mut env = Environment::new(&mut Ids::new());
    let mut stream = Stream::new(chars_of("OUTPUT 1"));
    assert_eq!(stream.next(), Some('O'));
    let func = Function::fetch('O').unwrap();
    assert_eq!(stream.function(func, &mut env), Ok(call('O', vec![Value::Number(1)])));
    let mut short = Stream::new(chars_of("\n+ 1"));
    assert_eq!(short.next(), Some('\n'));
    assert_eq!(short.next(), Some('+'));
    assert_eq!(
        short.function(Function::fetch('+').unwrap(), &mut env),
        Err(ParseError::MissingFunctionArgument { func: '+', number: 1, line: 2 })
    );
}

#[test]
fn stream_can_rewind_once_after_a_read() {
    let mut stream = Stream::new(chars_of("ab\nc"));
    assert!(!stream.can_rewind());
    assert_eq!(stream.next(), Some('a'));
    assert!(stream.can_rewind());
    stream.rewind();
    assert!(!stream.can_rewind());
    assert_eq!(stream.next(), Some('a'));
    assert_eq!(stream.next(), Some('b'));
    assert_eq!(stream.peek(), Some('\n'));
    assert!(!stream.can_rewind());
    assert_eq!(stream.next(), Some('\n'));
    assert_eq!(stream.line(), 2);
    stream.rewind();
    assert_eq!(stream.line(), 1);
    assert_eq!(stream.next(), Some('\n'));
    assert_eq!(stream.next(), Some('c'));
    assert!(stream.can_rewind());
    assert_eq!(stream.next(), None);
    assert!(!stream.can_rewind());
    let mut tokens = Stream::new(chars_of("12 x"));
    assert_eq!(tokens.next(), Some('1'));
    tokens.strip_word();
    assert!(!tokens.can_rewind());
    assert_eq!(tokens.next(), Some('2'));
    assert_eq!(tokens.try_number(), None);
    assert!(!tokens.can_rewind());
}
