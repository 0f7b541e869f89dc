//! The functions within Knight.

use crate::environment::Environment;
use crate::environment::EnvironmentView;
use crate::error::RuntimeError;
use crate::error::RuntimeErrorView;
use crate::machine::Request;
use crate::machine::RequestView;
use crate::number::count_number;
use crate::number::exit_code;
use crate::number::spec_exit_code;
use crate::number::wrap;
use crate::rcstring::spec_substitute;
use crate::rcstring::spec_substring;
use crate::stream::spec_parse;
use crate::support::random_number;
use crate::value::Kind;
use crate::value::Value;
use crate::value::ValueView;
use crate::value::spec_dump;
use crate::value::views;
use vstd::prelude::*;

verus! {

/// What a function wants done next. A function is run again and again while
/// its call is evaluated, each time with the values that it has asked for so
/// far, and each time it says how to go on.
#[derive(Debug, PartialEq, Eq)]
pub enum Action {
    /// Evaluate the argument of this index, and run the function again with
    /// its value added to the values.
    Evaluate(usize),
    /// The call is as good as this value: evaluate it in place of the call.
    Tail(Value),
    /// The call is done; this is its value.
    Return(Value),
    /// The call fails, and with it the whole evaluation.
    Raise(RuntimeError),
    /// Ask the host, and run the function again with the host's answer added
    /// to the values.
    Request(Request),
    /// Evaluate the call again from its start.
    Again,
}

/// What an [`Action`] says, over the views of what it holds.
pub enum ActionView {
    Evaluate(nat),
    Tail(ValueView),
    Return(ValueView),
    Raise(RuntimeErrorView),
    Request(RequestView),
    Again,
}

impl View for Action {
    type V = ActionView;

    open spec fn view(&self) -> ActionView {
        match self {
            Action::Evaluate(index) => ActionView::Evaluate(*index as nat),
            Action::Tail(value) => ActionView::Tail(value@),
            Action::Return(value) => ActionView::Return(value@),
            Action::Raise(err) => ActionView::Raise(err@),
            Action::Request(request) => ActionView::Request(request@),
            Action::Again => ActionView::Again,
        }
    }
}

/// The end of a call that has computed `res`.
pub open spec fn finish(res: Result<ValueView, RuntimeErrorView>) -> ActionView {
    match res {
        Ok(value) => ActionView::Return(value),
        Err(err) => ActionView::Raise(err),
    }
}

/// The end of a call that has tested `res`.
pub open spec fn finish_test(res: Result<bool, RuntimeErrorView>) -> ActionView {
    match res {
        Ok(boolean) => ActionView::Return(ValueView::Boolean(boolean)),
        Err(err) => ActionView::Raise(err),
    }
}

/// A function that evaluates its first `arity` arguments in order before it
/// does anything else: the next argument while one is left, then `ready`.
pub open spec fn strict(done: Seq<ValueView>, arity: nat, ready: ActionView) -> ActionView {
    if done.len() < arity {
        ActionView::Evaluate(done.len())
    } else {
        ready
    }
}

/// What is written for a text that is put out: the text and a line feed, or,
/// for a text that ends in a backslash, the text without the backslash, to
/// be flushed at once.
pub open spec fn output_text(text: Seq<char>) -> (Seq<char>, bool) {
    if text.len() > 0 && text.last() == '\\' {
        (text.drop_last(), true)
    } else {
        (text.push('\n'), false)
    }
}

/// `P`: asks for a line of input and returns it.
pub open spec fn prompt_action(done: Seq<ValueView>) -> ActionView {
    if done.len() == 0 {
        ActionView::Request(RequestView::ReadLine)
    } else {
        ActionView::Return(done[0])
    }
}

/// `E`: evaluates its argument to a text, parses the text as a program, and
/// evaluates that in place of the call. The environment interns the
/// variables of the program.
pub open spec fn eval_action(done: Seq<ValueView>, env: EnvironmentView) -> (
    ActionView,
    EnvironmentView,
) {
    if done.len() == 0 {
        (ActionView::Evaluate(0), env)
    } else {
        match done[0].to_text() {
            Err(err) => (ActionView::Raise(err), env),
            Ok(text) => {
                let parsed = spec_parse(text, 0, env);
                (
                    match parsed.result {
                        Ok(value) => ActionView::Tail(value),
                        Err(err) => ActionView::Raise(RuntimeErrorView::Parse(err)),
                    },
                    parsed.env,
                )
            },
        }
    }
}

/// `B`: returns its argument as it stands, unevaluated.
pub open spec fn block_action(args: Seq<ValueView>) -> ActionView {
    ActionView::Return(args[0])
}

/// `C`: evaluates its argument, and then what that gave, in place of the
/// call.
pub open spec fn call_action(done: Seq<ValueView>) -> ActionView {
    strict(done, 1, ActionView::Tail(done[0]))
}

/// `` ` ``: evaluates its argument to a text, asks the host to run it as a
/// shell command, and returns what the command put out.
pub open spec fn system_action(done: Seq<ValueView>) -> ActionView {
    if done.len() == 0 {
        ActionView::Evaluate(0)
    } else if done.len() == 1 {
        match done[0].to_text() {
            Ok(command) => ActionView::Request(RequestView::Shell { command }),
            Err(err) => ActionView::Raise(err),
        }
    } else {
        ActionView::Return(done[1])
    }
}

/// `Q`: evaluates its argument to a number and ends the program with that
/// exit status.
pub open spec fn quit_action(done: Seq<ValueView>) -> ActionView {
    strict(
        done,
        1,
        match done[0].to_number() {
            Ok(number) => ActionView::Raise(
                RuntimeErrorView::Quit(spec_exit_code(number) as i32),
            ),
            Err(err) => ActionView::Raise(err),
        },
    )
}

/// `!`: the negation of the truth of its argument.
pub open spec fn not_action(done: Seq<ValueView>) -> ActionView {
    strict(
        done,
        1,
        match done[0].to_boolean() {
            Ok(boolean) => ActionView::Return(ValueView::Boolean(!boolean)),
            Err(err) => ActionView::Raise(err),
        },
    )
}

/// `L`: the number of characters of the text of its argument.
pub open spec fn length_action(done: Seq<ValueView>) -> ActionView {
    strict(
        done,
        1,
        match done[0].to_text() {
            Ok(text) => ActionView::Return(ValueView::Number(wrap(text.len() as int))),
            Err(err) => ActionView::Raise(err),
        },
    )
}

/// `D`: evaluates its argument, has its debug form written on a line of its
/// own, and returns the value.
pub open spec fn dump_action(done: Seq<ValueView>) -> ActionView {
    if done.len() == 0 {
        ActionView::Evaluate(0)
    } else if done.len() == 1 {
        ActionView::Request(
            RequestView::Write { text: spec_dump(done[0]).push('\n'), flush: false },
        )
    } else {
        ActionView::Return(done[0])
    }
}

/// `O`: evaluates its argument to a text, has it written (see
/// [`output_text`]), and returns null.
pub open spec fn output_action(done: Seq<ValueView>) -> ActionView {
    if done.len() == 0 {
        ActionView::Evaluate(0)
    } else if done.len() == 1 {
        match done[0].to_text() {
            Ok(text) => ActionView::Request(
                RequestView::Write { text: output_text(text).0, flush: output_text(text).1 },
            ),
            Err(err) => ActionView::Raise(err),
        }
    } else {
        ActionView::Return(ValueView::Null)
    }
}

/// `+`: evaluates both sides, then adds; see [`ValueView::plus`].
pub open spec fn add_action(done: Seq<ValueView>) -> ActionView {
    strict(done, 2, finish(done[0].plus(done[1])))
}

/// `-`: evaluates both sides, then subtracts; see [`ValueView::minus`].
pub open spec fn subtract_action(done: Seq<ValueView>) -> ActionView {
    strict(done, 2, finish(done[0].minus(done[1])))
}

/// `*`: evaluates both sides, then multiplies; see [`ValueView::times`].
pub open spec fn multiply_action(done: Seq<ValueView>) -> ActionView {
    strict(done, 2, finish(done[0].times(done[1])))
}

/// `/`: evaluates both sides, then divides; see [`ValueView::divided_by`].
pub open spec fn divide_action(done: Seq<ValueView>) -> ActionView {
    strict(done, 2, finish(done[0].divided_by(done[1])))
}

/// `%`: evaluates both sides, then takes the remainder; see
/// [`ValueView::modulo`].
pub open spec fn modulo_action(done: Seq<ValueView>) -> ActionView {
    strict(done, 2, finish(done[0].modulo(done[1])))
}

/// `^`: evaluates both sides, then raises to the power; see
/// [`ValueView::raised_to`].
pub open spec fn power_action(done: Seq<ValueView>) -> ActionView {
    strict(done, 2, finish(done[0].raised_to(done[1])))
}

/// `?`: evaluates both sides, and tells whether the two values are the same.
pub open spec fn equals_action(done: Seq<ValueView>) -> ActionView {
    strict(done, 2, ActionView::Return(ValueView::Boolean(done[0] == done[1])))
}

/// `<`: evaluates both sides, then compares; see [`ValueView::less_than`].
pub open spec fn less_than_action(done: Seq<ValueView>) -> ActionView {
    strict(done, 2, finish_test(done[0].less_than(done[1])))
}

/// `>`: evaluates both sides, then compares; see
/// [`ValueView::greater_than`].
pub open spec fn greater_than_action(done: Seq<ValueView>) -> ActionView {
    strict(done, 2, finish_test(done[0].greater_than(done[1])))
}

/// `&`: evaluates its left side; if that is false, it is the value of the
/// call, and the right side is never evaluated; else the right side is
/// evaluated in place of the call.
pub open spec fn and_action(args: Seq<ValueView>, done: Seq<ValueView>) -> ActionView {
    strict(
        done,
        1,
        match done[0].to_boolean() {
            Ok(true) => ActionView::Tail(args[1]),
            Ok(false) => ActionView::Return(done[0]),
            Err(err) => ActionView::Raise(err),
        },
    )
}

/// `|`: evaluates its left side; if that is true, it is the value of the
/// call, and the right side is never evaluated; else the right side is
/// evaluated in place of the call.
pub open spec fn or_action(args: Seq<ValueView>, done: Seq<ValueView>) -> ActionView {
    strict(
        done,
        1,
        match done[0].to_boolean() {
            Ok(true) => ActionView::Return(done[0]),
            Ok(false) => ActionView::Tail(args[1]),
            Err(err) => ActionView::Raise(err),
        },
    )
}

/// `;`: evaluates its left side, and then its right side in place of the
/// call.
pub open spec fn sequence_action(args: Seq<ValueView>, done: Seq<ValueView>) -> ActionView {
    strict(done, 1, ActionView::Tail(args[1]))
}

/// `=`: its left side must be a variable, which is not evaluated; evaluates
/// its right side once, assigns the value to the variable, and returns the
/// value.
pub open spec fn assign_action(
    args: Seq<ValueView>,
    done: Seq<ValueView>,
    env: EnvironmentView,
) -> (ActionView, EnvironmentView) {
    if !(args[0] is Variable) {
        (
            ActionView::Raise(
                RuntimeErrorView::InvalidOperand { func: '=', operand: args[0].kind() },
            ),
            env,
        )
    } else if done.len() == 0 {
        (ActionView::Evaluate(1), env)
    } else {
        let (res, env) = args[0].assigned(done[0], env);
        (
            match res {
                Ok(()) => ActionView::Return(done[0]),
                Err(err) => ActionView::Raise(err),
            },
            env,
        )
    }
}

/// `W`: evaluates its left side; while that is true, evaluates its right
/// side and starts again; once it is false, returns null.
pub open spec fn while_action(done: Seq<ValueView>) -> ActionView {
    if done.len() == 0 {
        ActionView::Evaluate(0)
    } else if done.len() == 1 {
        match done[0].to_boolean() {
            Ok(true) => ActionView::Evaluate(1),
            Ok(false) => ActionView::Return(ValueView::Null),
            Err(err) => ActionView::Raise(err),
        }
    } else {
        ActionView::Again
    }
}

/// `I`: evaluates its condition, and then exactly one of its two branches
/// in place of the call.
pub open spec fn if_action(args: Seq<ValueView>, done: Seq<ValueView>) -> ActionView {
    strict(
        done,
        1,
        match done[0].to_boolean() {
            Ok(true) => ActionView::Tail(args[1]),
            Ok(false) => ActionView::Tail(args[2]),
            Err(err) => ActionView::Raise(err),
        },
    )
}

/// `G`: evaluates a text, a start and a count, and returns that part of the
/// text; see [`spec_substring`].
pub open spec fn get_action(done: Seq<ValueView>) -> ActionView {
    strict(
        done,
        3,
        match (done[0].to_text(), done[1].to_number(), done[2].to_number()) {
            (Err(err), _, _) => ActionView::Raise(err),
            (_, Err(err), _) => ActionView::Raise(err),
            (_, _, Err(err)) => ActionView::Raise(err),
            (Ok(text), Ok(start), Ok(count)) => ActionView::Return(
                ValueView::String(spec_substring(text, start, count)),
            ),
        },
    )
}

/// `S`: evaluates a text, a start, a count and a replacement, and returns
/// the text with that part replaced; see [`spec_substitute`].
pub open spec fn substitute_action(done: Seq<ValueView>) -> ActionView {
    strict(
        done,
        4,
        match (done[0].to_text(), done[1].to_number(), done[2].to_number(), done[3].to_text()) {
            (Err(err), _, _, _) => ActionView::Raise(err),
            (_, Err(err), _, _) => ActionView::Raise(err),
            (_, _, Err(err), _) => ActionView::Raise(err),
            (_, _, _, Err(err)) => ActionView::Raise(err),
            (Ok(text), Ok(start), Ok(count), Ok(replacement)) => ActionView::Return(
                ValueView::String(spec_substitute(text, start, count, replacement)),
            ),
        },
    )
}

/// How many arguments the function named `name` takes, if there is such a
/// function.
pub open spec fn arity_of(name: char) -> Option<nat> {
    if name == 'P' || name == 'R' {
        Some(0)
    } else if name == 'E' || name == 'B' || name == 'C' || name == '`' || name == 'Q' || name == '!'
        || name == 'L' || name == 'D' || name == 'O' {
        Some(1)
    } else if name == '+' || name == '-' || name == '*' || name == '/' || name == '%' || name == '^'
        || name == '?' || name == '<' || name == '>' || name == '&' || name == '|' || name == ';'
        || name == '=' || name == 'W' {
        Some(2)
    } else if name == 'I' || name == 'G' {
        Some(3)
    } else if name == 'S' {
        Some(4)
    } else {
        None
    }
}

/// The type that represents functions themselves (eg `PROMPT`, `+`, `=`, etc.)
/// within Knight.
///
/// Note that [`Function`]s cannot be created directly: you must
/// [`fetch`](Function::fetch) them. A function's arity is that of its name.
///
/// The set of functions is closed: it is the table that [`arity_of`] lists,
/// and no function can be added to it or changed. So a call that has been
/// parsed means the same for as long as it lives.
#[derive(Debug, Clone, Copy, PartialEq, Eq)]
pub struct Function {
    name: char,
    arity: usize,
}

impl View for Function {
    type V = char;

    /// A function is known by its name. Its arity is no part of its view:
    /// it is the arity of the name (see [`Function::arity`]).
    closed spec fn view(&self) -> char {
        self.name
    }
}

impl Function {
    /// The arity that a function holds is the one of its name.
    #[verifier::type_invariant]
    pub closed spec fn is_registered(&self) -> bool {
        arity_of(self.name) == Some(self.arity as nat)
    }

    /// Gets the function associated with the given `name`, returning `None`
    /// if no such function exists.
    pub fn fetch(name: char) -> (res: Option<Self>)
        ensures
            res is Some <==> arity_of(name) is Some,
            res matches Some(func) ==> func@ == name,
    {
        match name {
            'P' | 'R' => Some(Function { name, arity: 0 }),
            'E' | 'B' | 'C' | '`' | 'Q' | '!' | 'L' | 'D' | 'O' => Some(Function { name, arity: 1 }),
            '+' | '-' | '*' | '/' | '%' | '^' | '?' | '<' | '>' | '&' | '|' | ';' | '=' | 'W' => {
                Some(Function { name, arity: 2 })
            },
            'I' | 'G' => Some(Function { name, arity: 3 }),
            'S' => Some(Function { name, arity: 4 }),
            _ => None,
        }
    }

    /// Gets the arity of this function.
    pub fn arity(&self) -> (res: usize)
        ensures
            arity_of(self@) == Some(res as nat),
    {
        proof {
            use_type_invariant(self);
        }
        self.arity
    }

    /// Gets the name of the function.
    pub fn name(&self) -> (res: char)
        ensures
            res == self@,
    {
        self.name
    }
}

/// What the function named `name` wants done next in a call with the
/// arguments `args`, once the values `done` have been handed to it, and what
/// the environment is then. `draw` is the number that chance gives to `R`.
///
/// A call whose arguments are not as many as the function takes cannot be
/// run.
pub open spec fn run_action(
    name: char,
    args: Seq<ValueView>,
    done: Seq<ValueView>,
    env: EnvironmentView,
    draw: int,
) -> (ActionView, EnvironmentView) {
    if arity_of(name) != Some(args.len()) {
        (
            ActionView::Raise(
                RuntimeErrorView::InvalidOperand { func: name, operand: Kind::Function },
            ),
            env,
        )
    } else if name == 'P' {
        (prompt_action(done), env)
    } else if name == 'R' {
        (ActionView::Return(ValueView::Number(draw)), env)
    } else if name == 'E' {
        eval_action(done, env)
    } else if name == 'B' {
        (block_action(args), env)
    } else if name == 'C' {
        (call_action(done), env)
    } else if name == '`' {
        (system_action(done), env)
    } else if name == 'Q' {
        (quit_action(done), env)
    } else if name == '!' {
        (not_action(done), env)
    } else if name == 'L' {
        (length_action(done), env)
    } else if name == 'D' {
        (dump_action(done), env)
    } else if name == 'O' {
        (output_action(done), env)
    } else if name == '+' {
        (add_action(done), env)
    } else if name == '-' {
        (subtract_action(done), env)
    } else if name == '*' {
        (multiply_action(done), env)
    } else if name == '/' {
        (divide_action(done), env)
    } else if name == '%' {
        (modulo_action(done), env)
    } else if name == '^' {
        (power_action(done), env)
    } else if name == '?' {
        (equals_action(done), env)
    } else if name == '<' {
        (less_than_action(done), env)
    } else if name == '>' {
        (greater_than_action(done), env)
    } else if name == '&' {
        (and_action(args, done), env)
    } else if name == '|' {
        (or_action(args, done), env)
    } else if name == ';' {
        (sequence_action(args, done), env)
    } else if name == '=' {
        assign_action(args, done, env)
    } else if name == 'W' {
        (while_action(done), env)
    } else if name == 'I' {
        (if_action(args, done), env)
    } else if name == 'G' {
        (get_action(done), env)
    } else {
        (substitute_action(done), env)
    }
}

/// `&` with a false left side and `|` with a true left side return the left
/// side at once: the right side is not asked for, whatever it is.
pub proof fn lemma_short_circuit(args: Seq<ValueView>, done: Seq<ValueView>)
    requires
        done.len() >= 1,
    ensures
        done[0].to_boolean() == Ok::<bool, RuntimeErrorView>(false) ==> and_action(args, done)
            == ActionView::Return(done[0]),
        done[0].to_boolean() == Ok::<bool, RuntimeErrorView>(true) ==> or_action(args, done)
            == ActionView::Return(done[0]),
{
}

/// Chance matters to `R` alone: every other function says the same whatever
/// number is drawn.
pub proof fn lemma_draw_matters_to_random_only(
    name: char,
    args: Seq<ValueView>,
    done: Seq<ValueView>,
    env: EnvironmentView,
    draw: int,
    other: int,
)
    requires
        name != 'R',
    ensures
        run_action(name, args, done, env, draw) == run_action(name, args, done, env, other),
{
}

/// A function asks only for arguments that its call has.
pub proof fn lemma_run_action_index(
    name: char,
    args: Seq<ValueView>,
    done: Seq<ValueView>,
    env: EnvironmentView,
    draw: int,
)
    ensures
        run_action(name, args, done, env, draw).0 matches ActionView::Evaluate(index) ==> index
            < args.len(),
{
}

/// The action that ends a call that has computed `res`.
fn finished(res: Result<Value, RuntimeError>) -> (action: Action)
    ensures
        action@ == finish(crate::value::outcome(res)),
{
    match res {
        Ok(value) => Action::Return(value),
        Err(err) => Action::Raise(err),
    }
}

/// The action that ends a call that has tested `res`.
fn tested(res: Result<bool, RuntimeError>) -> (action: Action)
    ensures
        action@ == finish_test(crate::value::verdict(res)),
{
    match res {
        Ok(boolean) => Action::Return(Value::Boolean(boolean)),
        Err(err) => Action::Raise(err),
    }
}

/// `P`: reads one line from the input.
pub fn prompt(done: &[Value]) -> (action: Action)
    ensures
        action@ == prompt_action(views(done@)),
{
    if done.len() == 0 {
        Action::Request(Request::ReadLine)
    } else {
        Action::Return(done[0].clone())
    }
}

/// `R`: a random number.
pub fn random() -> (action: Action)
    ensures
        action@ matches ActionView::Return(ValueView::Number(number)) && i64::MIN <= number
            <= i64::MAX,
{
    Action::Return(Value::Number(random_number()))
}

/// `E`: evaluates its argument to a text and runs the text as a program.
pub fn eval(done: &[Value], env: &mut Environment) -> (action: Action)
    ensures
        (action@, final(env)@) == eval_action(views(done@), old(env)@),
{
    if done.len() == 0 {
        return Action::Evaluate(0);
    }
    match done[0].to_rcstring() {
        Err(err) => Action::Raise(err),
        Ok(text) => match Value::parse_str(text.as_str(), env) {
            Ok(value) => Action::Tail(value),
            Err(err) => Action::Raise(RuntimeError::Parse(err)),
        },
    }
}

/// `B`: returns its argument unevaluated.
pub fn block(args: &[Value]) -> (action: Action)
    requires
        args@.len() == 1,
    ensures
        action@ == block_action(views(args@)),
{
    Action::Return(args[0].clone())
}

/// `C`: evaluates its argument, and then what that gave.
pub fn call(done: &[Value]) -> (action: Action)
    ensures
        action@ == call_action(views(done@)),
{
    if done.len() == 0 {
        Action::Evaluate(0)
    } else {
        Action::Tail(done[0].clone())
    }
}

/// `` ` ``: runs its argument as a shell command and returns its output.
pub fn system(done: &[Value]) -> (action: Action)
    ensures
        action@ == system_action(views(done@)),
{
    if done.len() == 0 {
        Action::Evaluate(0)
    } else if done.len() == 1 {
        match done[0].to_rcstring() {
            Ok(command) => Action::Request(
                Request::Shell { command: String::from_str(command.as_str()) },
            ),
            Err(err) => Action::Raise(err),
        }
    } else {
        Action::Return(done[1].clone())
    }
}

/// `Q`: ends the program with the exit status that its argument gives.
pub fn quit(done: &[Value]) -> (action: Action)
    ensures
        action@ == quit_action(views(done@)),
{
    if done.len() == 0 {
        Action::Evaluate(0)
    } else {
        match done[0].to_number() {
            Ok(number) => Action::Raise(RuntimeError::Quit(exit_code(number))),
            Err(err) => Action::Raise(err),
        }
    }
}

/// `!`: logical negation.
pub fn not(done: &[Value]) -> (action: Action)
    ensures
        action@ == not_action(views(done@)),
{
    if done.len() == 0 {
        Action::Evaluate(0)
    } else {
        match done[0].to_boolean() {
            Ok(boolean) => Action::Return(Value::Boolean(!boolean)),
            Err(err) => Action::Raise(err),
        }
    }
}

/// `L`: the length of a text.
pub fn length(done: &[Value]) -> (action: Action)
    ensures
        action@ == length_action(views(done@)),
{
    if done.len() == 0 {
        Action::Evaluate(0)
    } else {
        match done[0].to_rcstring() {
            Ok(text) => Action::Return(Value::Number(count_number(text.len()))),
            Err(err) => Action::Raise(err),
        }
    }
}

/// `D`: writes the debug form of a value and returns the value.
pub fn dump(done: &[Value]) -> (action: Action)
    ensures
        action@ == dump_action(views(done@)),
{
    if done.len() == 0 {
        Action::Evaluate(0)
    } else if done.len() == 1 {
        let mut text = done[0].dump();
        text.push('\n');
        Action::Request(Request::Write { text, flush: false })
    } else {
        Action::Return(done[0].clone())
    }
}

/// `O`: writes a text.
pub fn output(done: &[Value]) -> (action: Action)
    ensures
        action@ == output_action(views(done@)),
{
    if done.len() == 0 {
        Action::Evaluate(0)
    } else if done.len() == 1 {
        match done[0].to_rcstring() {
            Ok(text) => {
                let len = text.len();
                if len > 0 && text.char_at(len - 1) == '\\' {
                    let kept = String::from_str(text.as_str().substring_ascii(0, len - 1));
                    Action::Request(Request::Write { text: kept, flush: true })
                } else {
                    let mut line = String::from_str(text.as_str());
                    line.push('\n');
                    Action::Request(Request::Write { text: line, flush: false })
                }
            },
            Err(err) => Action::Raise(err),
        }
    } else {
        Action::Return(Value::Null)
    }
}

/// `+`: addition, or concatenation.
pub fn add(done: &[Value]) -> (action: Action)
    ensures
        action@ == add_action(views(done@)),
{
    if done.len() < 2 {
        Action::Evaluate(done.len())
    } else {
        finished(done[0].try_add(&done[1]))
    }
}

/// `-`: subtraction.
pub fn subtract(done: &[Value]) -> (action: Action)
    ensures
        action@ == subtract_action(views(done@)),
{
    if done.len() < 2 {
        Action::Evaluate(done.len())
    } else {
        finished(done[0].try_sub(&done[1]))
    }
}

/// `*`: multiplication, or repetition.
pub fn multiply(done: &[Value]) -> (action: Action)
    ensures
        action@ == multiply_action(views(done@)),
{
    if done.len() < 2 {
        Action::Evaluate(done.len())
    } else {
        finished(done[0].try_mul(&done[1]))
    }
}

/// `/`: division.
pub fn divide(done: &[Value]) -> (action: Action)
    ensures
        action@ == divide_action(views(done@)),
{
    if done.len() < 2 {
        Action::Evaluate(done.len())
    } else {
        finished(done[0].try_div(&done[1]))
    }
}

/// `%`: remainder.
pub fn modulo(done: &[Value]) -> (action: Action)
    ensures
        action@ == modulo_action(views(done@)),
{
    if done.len() < 2 {
        Action::Evaluate(done.len())
    } else {
        finished(done[0].try_rem(&done[1]))
    }
}

/// `^`: exponentiation.
pub fn power(done: &[Value]) -> (action: Action)
    ensures
        action@ == power_action(views(done@)),
{
    if done.len() < 2 {
        Action::Evaluate(done.len())
    } else {
        finished(done[0].try_pow(&done[1]))
    }
}

/// `?`: equality.
pub fn equals(done: &[Value]) -> (action: Action)
    ensures
        action@ == equals_action(views(done@)),
{
    if done.len() < 2 {
        Action::Evaluate(done.len())
    } else {
        Action::Return(Value::Boolean(done[0].same(&done[1])))
    }
}

/// `<`: less than.
pub fn less_than(done: &[Value]) -> (action: Action)
    ensures
        action@ == less_than_action(views(done@)),
{
    if done.len() < 2 {
        Action::Evaluate(done.len())
    } else {
        tested(done[0].try_lth(&done[1]))
    }
}

/// `>`: greater than.
pub fn greater_than(done: &[Value]) -> (action: Action)
    ensures
        action@ == greater_than_action(views(done@)),
{
    if done.len() < 2 {
        Action::Evaluate(done.len())
    } else {
        tested(done[0].try_gth(&done[1]))
    }
}

/// `&`: the left side if it is false, else the right side.
pub fn and(args: &[Value], done: &[Value]) -> (action: Action)
    requires
        args@.len() == 2,
    ensures
        action@ == and_action(views(args@), views(done@)),
{
    if done.len() == 0 {
        Action::Evaluate(0)
    } else {
        match done[0].to_boolean() {
            Ok(true) => Action::Tail(args[1].clone()),
            Ok(false) => Action::Return(done[0].clone()),
            Err(err) => Action::Raise(err),
        }
    }
}

/// `|`: the left side if it is true, else the right side.
pub fn or(args: &[Value], done: &[Value]) -> (action: Action)
    requires
        args@.len() == 2,
    ensures
        action@ == or_action(views(args@), views(done@)),
{
    if done.len() == 0 {
        Action::Evaluate(0)
    } else {
        match done[0].to_boolean() {
            Ok(true) => Action::Return(done[0].clone()),
            Ok(false) => Action::Tail(args[1].clone()),
            Err(err) => Action::Raise(err),
        }
    }
}

/// `;`: the left side, then the right side.
pub fn sequence(args: &[Value], done: &[Value]) -> (action: Action)
    requires
        args@.len() == 2,
    ensures
        action@ == sequence_action(views(args@), views(done@)),
{
    if done.len() == 0 {
        Action::Evaluate(0)
    } else {
        Action::Tail(args[1].clone())
    }
}

/// `=`: assignment to a variable.
pub fn assign(args: &[Value], done: &[Value], env: &mut Environment) -> (action: Action)
    requires
        args@.len() == 2,
    ensures
        (action@, final(env)@) == assign_action(views(args@), views(done@), old(env)@),
{
    if !args[0].is_variable() {
        Action::Raise(RuntimeError::InvalidOperand { func: '=', operand: args[0].kind() })
    } else if done.len() == 0 {
        Action::Evaluate(1)
    } else {
        match args[0].try_assign(done[0].clone(), env) {
            Ok(()) => Action::Return(done[0].clone()),
            Err(err) => Action::Raise(err),
        }
    }
}

/// `W`: the loop.
pub fn while_loop(done: &[Value]) -> (action: Action)
    ensures
        action@ == while_action(views(done@)),
{
    if done.len() == 0 {
        Action::Evaluate(0)
    } else if done.len() == 1 {
        match done[0].to_boolean() {
            Ok(true) => Action::Evaluate(1),
            Ok(false) => Action::Return(Value::Null),
            Err(err) => Action::Raise(err),
        }
    } else {
        Action::Again
    }
}

/// `I`: the choice between two branches.
pub fn if_else(args: &[Value], done: &[Value]) -> (action: Action)
    requires
        args@.len() == 3,
    ensures
        action@ == if_action(views(args@), views(done@)),
{
    if done.len() == 0 {
        Action::Evaluate(0)
    } else {
        match done[0].to_boolean() {
            Ok(true) => Action::Tail(args[1].clone()),
            Ok(false) => Action::Tail(args[2].clone()),
            Err(err) => Action::Raise(err),
        }
    }
}

/// `G`: a part of a text.
pub fn get(done: &[Value]) -> (action: Action)
    ensures
        action@ == get_action(views(done@)),
{
    if done.len() < 3 {
        return Action::Evaluate(done.len());
    }
    let text = match done[0].to_rcstring() {
        Ok(text) => text,
        Err(err) => {
            return Action::Raise(err);
        },
    };
    let start = match done[1].to_number() {
        Ok(start) => start,
        Err(err) => {
            return Action::Raise(err);
        },
    };
    let count = match done[2].to_number() {
        Ok(count) => count,
        Err(err) => {
            return Action::Raise(err);
        },
    };
    Action::Return(Value::String(text.substring(start, count)))
}

/// `S`: a text with a part of it replaced.
pub fn substitute(done: &[Value]) -> (action: Action)
    ensures
        action@ == substitute_action(views(done@)),
{
    if done.len() < 4 {
        return Action::Evaluate(done.len());
    }
    let text = match done[0].to_rcstring() {
        Ok(text) => text,
        Err(err) => {
            return Action::Raise(err);
        },
    };
    let start = match done[1].to_number() {
        Ok(start) => start,
        Err(err) => {
            return Action::Raise(err);
        },
    };
    let count = match done[2].to_number() {
        Ok(count) => count,
        Err(err) => {
            return Action::Raise(err);
        },
    };
    let replacement = match done[3].to_rcstring() {
        Ok(replacement) => replacement,
        Err(err) => {
            return Action::Raise(err);
        },
    };
    Action::Return(Value::String(text.substitute(start, count, &replacement)))
}

impl Function {
    /// Runs the function in a call with the arguments `args`, which are not
    /// evaluated, and the values `done` that the function has asked for so
    /// far; the function says how to go on.
    ///
    /// It is for the function alone to decide which of its arguments are
    /// evaluated, how often and in what order.
    pub fn run(&self, args: &[Value], done: &[Value], env: &mut Environment) -> (action: Action)
        ensures
            exists|draw: i64| #[trigger]
                run_action(self@, views(args@), views(done@), old(env)@, draw as int) == (
                    action@,
                    final(env)@,
                ),
            action@ matches ActionView::Evaluate(index) ==> index < args@.len(),
    {
        proof {
            use_type_invariant(self);
        }
        let ghost before = env@;
        let ghost mut draw: i64 = 0;
        let action = if args.len() != self.arity {
            Action::Raise(RuntimeError::InvalidOperand { func: self.name, operand: Kind::Function })
        } else {
            match self.name {
                'P' => prompt(done),
                'R' => {
                    let action = random();
                    proof {
                        draw = action@->Return_0->Number_0 as i64;
                    }
                    action
                },
                'E' => eval(done, env),
                'B' => block(args),
                'C' => call(done),
                '`' => system(done),
                'Q' => quit(done),
                '!' => not(done),
                'L' => length(done),
                'D' => dump(done),
                'O' => output(done),
                '+' => self::add(done),
                '-' => subtract(done),
                '*' => multiply(done),
                '/' => divide(done),
                '%' => modulo(done),
                '^' => power(done),
                '?' => equals(done),
                '<' => less_than(done),
                '>' => greater_than(done),
                '&' => and(args, done),
                '|' => or(args, done),
                ';' => sequence(args, done),
                '=' => assign(args, done, env),
                'W' => while_loop(done),
                'I' => if_else(args, done),
                'G' => get(done),
                _ => substitute(done),
            }
        };
        proof {
            assert(run_action(self@, views(args@), views(done@), before, draw as int) == (
                action@,
                env@,
            ));
            lemma_run_action_index(self@, views(args@), views(done@), before, draw as int);
        }
        action
    }
}


} // verus!
