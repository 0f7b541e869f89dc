//! Running Knight code, one step at a time.
//!
//! A [`Machine`] evaluates a value in steps. Each step is a function of the
//! machine and the environment, which [`spec_step`] states. Whatever a
//! program needs from the world outside (a line of input, output, a shell
//! command), the machine asks of its host with a [`Request`], and goes on
//! when the host has answered with an [`Event`]. So the machine itself never
//! waits and never fails to return: loops and recursion of the program are
//! steps of the machine, and a host decides how many steps it runs.

use crate::environment::Environment;
use crate::environment::EnvironmentView;
use crate::environment::lemma_assign;
use crate::environment::variable::VariableView;
use crate::error::ParseError;
use crate::error::RuntimeError;
use crate::error::RuntimeErrorView;
use crate::function::Action;
use crate::function::ActionView;
use crate::function::Function;
use crate::function::arity_of;
use crate::function::lemma_run_action_index;
use crate::function::run_action;
use crate::rcstring::RcString;
use crate::number::spec_exit_code;
use crate::rcstring::valid_text;
use crate::scan::invalid_char;
use crate::scan::lemma_invalid_char;
use crate::stream::lemma_parse_keeps_wf;
use crate::stream::lemma_parse_well_formed;
use crate::value::Value;
use crate::value::ValueView;
use crate::value::lemma_view_function;
use crate::value::views;
use std::rc::Rc;
use vstd::prelude::*;

verus! {

/// What a running program asks of its host.
#[derive(Debug, PartialEq, Eq)]
pub enum Request {
    /// Read one line from the input, with its line feed if it has one, and
    /// answer with the line as an [`Event::Text`]; at the end of the input,
    /// with the empty text.
    ReadLine,
    /// Write `text` to the output as it stands, flush the output if `flush`
    /// is set, and answer with [`Event::Done`].
    Write { text: String, flush: bool },
    /// Run `command` in a shell and answer with what it wrote to its
    /// standard output, as an [`Event::Text`].
    Shell { command: String },
}

/// What a [`Request`] says, over plain sequences.
pub enum RequestView {
    ReadLine,
    Write { text: Seq<char>, flush: bool },
    Shell { command: Seq<char> },
}

impl View for Request {
    type V = RequestView;

    open spec fn view(&self) -> RequestView {
        match self {
            Request::ReadLine => RequestView::ReadLine,
            Request::Write { text, flush } => RequestView::Write { text: text@, flush: *flush },
            Request::Shell { command } => RequestView::Shell { command: command@ },
        }
    }
}

impl Clone for Request {
    fn clone(&self) -> (res: Self)
        ensures
            res@ == self@,
    {
        match self {
            Request::ReadLine => Request::ReadLine,
            Request::Write { text, flush } => Request::Write { text: text.clone(), flush: *flush },
            Request::Shell { command } => Request::Shell { command: command.clone() },
        }
    }
}

/// What a host answers to a [`Request`].
#[derive(Debug, PartialEq, Eq)]
pub enum Event {
    /// The text that was asked for: a line of input, or the output of a
    /// command.
    Text(String),
    /// What was asked has been done.
    Done,
    /// What was asked could not be done; the message says why.
    Failed(String),
}

/// What an [`Event`] says, over plain sequences.
pub enum EventView {
    Text(Seq<char>),
    Done,
    Failed(Seq<char>),
}

impl View for Event {
    type V = EventView;

    open spec fn view(&self) -> EventView {
        match self {
            Event::Text(text) => EventView::Text(text@),
            Event::Done => EventView::Done,
            Event::Failed(message) => EventView::Failed(message@),
        }
    }
}

/// What a machine is about to do.
#[derive(Debug, PartialEq, Eq)]
enum Control {
    /// Evaluate this value.
    Evaluate(Value),
    /// Hand this value to the call that waits for it, or, if none does, end
    /// with it.
    Return(Value),
    /// End with this error.
    Raise(RuntimeError),
    /// Wait for the host's answer to this request.
    Await(Request),
}

/// What a [`Control`] says, over the views of what it holds.
pub enum ControlView {
    Evaluate(ValueView),
    Return(ValueView),
    Raise(RuntimeErrorView),
    Await(RequestView),
}

impl View for Control {
    type V = ControlView;

    closed spec fn view(&self) -> ControlView {
        match self {
            Control::Evaluate(value) => ControlView::Evaluate(value@),
            Control::Return(value) => ControlView::Return(value@),
            Control::Raise(err) => ControlView::Raise(err@),
            Control::Await(request) => ControlView::Await(request@),
        }
    }
}

/// A call that is being evaluated: its function, its arguments, and the
/// values that the function has asked for so far.
#[derive(Debug, PartialEq, Eq)]
struct Frame {
    func: Function,
    args: Rc<Vec<Value>>,
    done: Vec<Value>,
}

/// What a [`Frame`] is, over the views of what it holds.
pub struct FrameView {
    pub func: char,
    pub args: Seq<ValueView>,
    pub done: Seq<ValueView>,
}

impl View for Frame {
    type V = FrameView;

    closed spec fn view(&self) -> FrameView {
        FrameView { func: self.func@, args: views(self.args@), done: views(self.done@) }
    }
}

/// A value that is being evaluated: what is to be done next, and the calls
/// that wait for it, the innermost last.
#[derive(Debug, PartialEq, Eq)]
pub struct Machine {
    control: Control,
    stack: Vec<Frame>,
}

/// What a [`Machine`] is, over the views of what it holds.
pub struct MachineView {
    pub control: ControlView,
    pub stack: Seq<FrameView>,
}

/// The views of a stack of calls.
spec fn frames(stack: Seq<Frame>) -> Seq<FrameView> {
    Seq::new(stack.len(), |i: int| stack[i]@)
}

impl View for Machine {
    type V = MachineView;

    closed spec fn view(&self) -> MachineView {
        MachineView { control: self.control@, stack: frames(self.stack@) }
    }
}

/// How far a machine has come.
#[derive(Debug, PartialEq, Eq)]
pub enum Status {
    /// There are steps left to take.
    Running,
    /// The machine waits for its host to answer this request.
    Waiting(Request),
    /// The evaluation is over, and this is its value.
    Finished(Value),
    /// The evaluation has ended early with this error, which may be the
    /// program's wish to quit.
    Failed(RuntimeError),
}

/// What a [`Status`] says, over the views of what it holds.
pub enum StatusView {
    Running,
    Waiting(RequestView),
    Finished(ValueView),
    Failed(RuntimeErrorView),
}

impl View for Status {
    type V = StatusView;

    open spec fn view(&self) -> StatusView {
        match self {
            Status::Running => StatusView::Running,
            Status::Waiting(request) => StatusView::Waiting(request@),
            Status::Finished(value) => StatusView::Finished(value@),
            Status::Failed(err) => StatusView::Failed(err@),
        }
    }
}

/// The machine that is about to evaluate `value`.
pub open spec fn start(value: ValueView) -> MachineView {
    MachineView { control: ControlView::Evaluate(value), stack: Seq::empty() }
}

/// How far the machine `machine` has come: it has finished when a value is
/// returned and no call waits for it, it has failed as soon as an error is
/// raised, however many calls wait, and it waits while a request is open.
pub open spec fn spec_status(machine: MachineView) -> StatusView {
    match machine.control {
        ControlView::Evaluate(_) => StatusView::Running,
        ControlView::Return(value) => if machine.stack.len() == 0 {
            StatusView::Finished(value)
        } else {
            StatusView::Running
        },
        ControlView::Raise(err) => StatusView::Failed(err),
        ControlView::Await(request) => StatusView::Waiting(request),
    }
}

/// The machine after the function of its innermost call, the last of
/// `stack`, has been run and has said how to go on.
pub open spec fn enter(stack: Seq<FrameView>, env: EnvironmentView, draw: int) -> (
    MachineView,
    EnvironmentView,
)
    recommends
        stack.len() > 0,
{
    let top = stack.last();
    let (action, env) = run_action(top.func, top.args, top.done, env, draw);
    (
        match action {
            ActionView::Evaluate(index) => MachineView {
                control: ControlView::Evaluate(top.args[index as int]),
                stack,
            },
            ActionView::Tail(value) => MachineView {
                control: ControlView::Evaluate(value),
                stack: stack.drop_last(),
            },
            ActionView::Return(value) => MachineView {
                control: ControlView::Return(value),
                stack: stack.drop_last(),
            },
            ActionView::Raise(err) => MachineView { control: ControlView::Raise(err), stack },
            ActionView::Request(request) => MachineView {
                control: ControlView::Await(request),
                stack,
            },
            ActionView::Again => MachineView {
                control: ControlView::Evaluate(ValueView::Function(top.func, top.args)),
                stack: stack.drop_last(),
            },
        },
        env,
    )
}

/// One step of a machine.
///
/// A literal evaluates to itself. A variable evaluates to the value that it
/// holds, and fails if it holds none. A call is entered: its function is run
/// with the arguments unevaluated, and decides what is evaluated. A value
/// that is returned goes to the innermost call that waits, whose function is
/// run again with it. A machine that has finished, has failed or waits for
/// its host stays as it is.
pub open spec fn spec_step(machine: MachineView, env: EnvironmentView, draw: int) -> (
    MachineView,
    EnvironmentView,
) {
    match machine.control {
        ControlView::Evaluate(value) => match value {
            ValueView::Variable(variable) => (
                MachineView {
                    control: match env.fetch(variable) {
                        Some(value) => ControlView::Return(value),
                        None => ControlView::Raise(
                            RuntimeErrorView::UnknownIdentifier { identifier: variable.name },
                        ),
                    },
                    stack: machine.stack,
                },
                env,
            ),
            ValueView::Function(func, args) => enter(
                machine.stack.push(FrameView { func, args, done: Seq::empty() }),
                env,
                draw,
            ),
            _ => (MachineView { control: ControlView::Return(value), stack: machine.stack }, env),
        },
        ControlView::Return(value) => if machine.stack.len() == 0 {
            (machine, env)
        } else {
            let top = machine.stack.last();
            enter(
                machine.stack.drop_last().push(
                    FrameView { func: top.func, args: top.args, done: top.done.push(value) },
                ),
                env,
                draw,
            )
        },
        _ => (machine, env),
    }
}

/// What a host's answer is to the program: a text is a value if all its
/// characters are legal, and an error if not; a deed that was done is null;
/// a failure of the host is an error.
pub open spec fn answer(event: EventView) -> ControlView {
    match event {
        EventView::Text(text) => if valid_text(text) {
            ControlView::Return(ValueView::String(text))
        } else {
            ControlView::Raise(RuntimeErrorView::InvalidString(invalid_char(text)))
        },
        EventView::Done => ControlView::Return(ValueView::Null),
        EventView::Failed(message) => ControlView::Raise(RuntimeErrorView::Io(message)),
    }
}

/// The machine after its host has answered: a machine that waits goes on
/// with the answer, and any other machine stays as it is.
pub open spec fn spec_supply(machine: MachineView, event: EventView) -> MachineView {
    match machine.control {
        ControlView::Await(_) => MachineView { control: answer(event), stack: machine.stack },
        _ => machine,
    }
}

/// The machine and the environment after at most `budget` steps: steps are
/// taken while any are left to take. Each step is given one of `draws` in
/// turn (and 0 once they are used up).
pub open spec fn spec_run(
    machine: MachineView,
    env: EnvironmentView,
    budget: nat,
    draws: Seq<int>,
) -> (MachineView, EnvironmentView)
    decreases budget,
{
    if budget == 0 || !(spec_status(machine) is Running) {
        (machine, env)
    } else if draws.len() == 0 {
        let (machine, env) = spec_step(machine, env, 0);
        spec_run(machine, env, (budget - 1) as nat, draws)
    } else {
        let (machine, env) = spec_step(machine, env, draws[0]);
        spec_run(machine, env, (budget - 1) as nat, draws.drop_first())
    }
}

/// An error passes every call that waits unchanged: a machine that has
/// raised an error has failed with that error, whatever its stack holds, and
/// neither steps nor answers change it.
pub proof fn lemma_raise_is_final(
    machine: MachineView,
    env: EnvironmentView,
    budget: nat,
    draws: Seq<int>,
    event: EventView,
)
    requires
        machine.control is Raise,
    ensures
        spec_status(machine) == StatusView::Failed(machine.control->Raise_0),
        spec_run(machine, env, budget, draws) == (machine, env),
        spec_supply(machine, event) == machine,
{
}

/// An error that a function raises is the error of the whole evaluation at
/// the very next step, however deep the call lies.
pub proof fn lemma_raise_reaches_top(
    stack: Seq<FrameView>,
    env: EnvironmentView,
    draw: int,
    err: RuntimeErrorView,
)
    requires
        stack.len() > 0,
        run_action(stack.last().func, stack.last().args, stack.last().done, env, draw).0
            == ActionView::Raise(err),
    ensures
        spec_status(enter(stack, env, draw).0) == StatusView::Failed(err),
{
}

/// Whether `name` is one of the functions that evaluate both their
/// arguments and then compute: the arithmetic and the comparisons.
pub open spec fn is_binary_operator(name: char) -> bool {
    name == '+' || name == '-' || name == '*' || name == '/' || name == '%' || name == '^' || name
        == '?' || name == '<' || name == '>'
}

/// What a binary operator computes from the values of its two sides.
pub open spec fn compute(name: char, lhs: ValueView, rhs: ValueView) -> Result<
    ValueView,
    RuntimeErrorView,
> {
    if name == '+' {
        lhs.plus(rhs)
    } else if name == '-' {
        lhs.minus(rhs)
    } else if name == '*' {
        lhs.times(rhs)
    } else if name == '/' {
        lhs.divided_by(rhs)
    } else if name == '%' {
        lhs.modulo(rhs)
    } else if name == '^' {
        lhs.raised_to(rhs)
    } else if name == '?' {
        Ok(ValueView::Boolean(lhs == rhs))
    } else if name == '<' {
        match lhs.less_than(rhs) {
            Ok(boolean) => Ok(ValueView::Boolean(boolean)),
            Err(err) => Err(err),
        }
    } else {
        match lhs.greater_than(rhs) {
            Ok(boolean) => Ok(ValueView::Boolean(boolean)),
            Err(err) => Err(err),
        }
    }
}

/// How far an evaluation has come that has computed `res`.
pub open spec fn ended(res: Result<ValueView, RuntimeErrorView>) -> StatusView {
    match res {
        Ok(value) => StatusView::Finished(value),
        Err(err) => StatusView::Failed(err),
    }
}

/// A binary operator between two literals is evaluated in five steps: the
/// machine then has finished with what the operator computes from the two
/// literals (the sum for `+`, and so on), or has failed with the operator's
/// error (division by zero, an operand of the wrong kind). The environment
/// is as it was.
pub proof fn lemma_binary_on_literals(
    name: char,
    lhs: ValueView,
    rhs: ValueView,
    env: EnvironmentView,
    budget: nat,
    draws: Seq<int>,
)
    requires
        is_binary_operator(name),
        lhs.is_literal(),
        rhs.is_literal(),
        budget >= 5,
    ensures
        spec_status(
            spec_run(start(ValueView::Function(name, seq![lhs, rhs])), env, budget, draws).0,
        ) == ended(compute(name, lhs, rhs)),
        spec_run(start(ValueView::Function(name, seq![lhs, rhs])), env, budget, draws).1 == env,
{
    let args = seq![lhs, rhs];
    let base = Seq::<FrameView>::empty();
    let d0 = draws;
    let d1 = rest_of(d0);
    let d2 = rest_of(d1);
    let d3 = rest_of(d2);
    let d4 = rest_of(d3);
    let d5 = rest_of(d4);
    // The call is entered, and asks for its left side.
    let m0 = start(ValueView::Function(name, args));
    let f0 = FrameView { func: name, args, done: Seq::empty() };
    let m1 = MachineView { control: ControlView::Evaluate(lhs), stack: seq![f0] };
    assert(base.push(f0) =~= seq![f0]);
    assert(spec_step(m0, env, first_of(d0)) == (m1, env));
    // The left side is a literal.
    let m2 = MachineView { control: ControlView::Return(lhs), stack: seq![f0] };
    assert(spec_step(m1, env, first_of(d1)) == (m2, env));
    // The call takes it and asks for its right side.
    let f1 = FrameView { func: name, args, done: seq![lhs] };
    let m3 = MachineView { control: ControlView::Evaluate(rhs), stack: seq![f1] };
    assert(seq![f0].drop_last().push(f1) =~= seq![f1]);
    assert(Seq::<ValueView>::empty().push(lhs) =~= seq![lhs]);
    assert(spec_step(m2, env, first_of(d2)) == (m3, env));
    // The right side is a literal.
    let m4 = MachineView { control: ControlView::Return(rhs), stack: seq![f1] };
    assert(spec_step(m3, env, first_of(d3)) == (m4, env));
    // The call takes it and computes.
    let f2 = FrameView { func: name, args, done: seq![lhs, rhs] };
    assert(run_action(name, args, seq![lhs, rhs], env, first_of(d4)) == (
        crate::function::finish(compute(name, lhs, rhs)),
        env,
    ));
    assert(seq![f1].drop_last().push(f2) =~= seq![f2]);
    assert(seq![lhs].push(rhs) =~= seq![lhs, rhs]);
    assert(seq![f2].drop_last() =~= base);
    let m5 = spec_step(m4, env, first_of(d4)).0;
    assert(spec_step(m4, env, first_of(d4)).1 == env);
    assert(spec_status(m5) == ended(compute(name, lhs, rhs)));
    // Nothing is left to do.
    lemma_run_unfolds(m0, env, budget, d0);
    lemma_run_unfolds(m1, env, (budget - 1) as nat, d1);
    lemma_run_unfolds(m2, env, (budget - 2) as nat, d2);
    lemma_run_unfolds(m3, env, (budget - 3) as nat, d3);
    lemma_run_unfolds(m4, env, (budget - 4) as nat, d4);
    lemma_run_unfolds(m5, env, (budget - 5) as nat, d5);
}

/// The number that the next step is given.
pub open spec fn first_of(draws: Seq<int>) -> int {
    if draws.len() == 0 {
        0
    } else {
        draws[0]
    }
}

/// The numbers that the steps after the next are given.
pub open spec fn rest_of(draws: Seq<int>) -> Seq<int> {
    if draws.len() == 0 {
        draws
    } else {
        draws.drop_first()
    }
}

/// Running is taking a step and running on, while steps are left to take.
pub proof fn lemma_run_unfolds(
    machine: MachineView,
    env: EnvironmentView,
    budget: nat,
    draws: Seq<int>,
)
    ensures
        spec_run(machine, env, budget, draws) == if budget == 0 || !(spec_status(machine)
            is Running) {
            (machine, env)
        } else {
            spec_run(
                spec_step(machine, env, first_of(draws)).0,
                spec_step(machine, env, first_of(draws)).1,
                (budget - 1) as nat,
                rest_of(draws),
            )
        },
{
}

/// The machine and the environment after exactly `count` steps, each of
/// which is given one of `draws` in turn.
pub open spec fn spec_steps(
    machine: MachineView,
    env: EnvironmentView,
    count: nat,
    draws: Seq<int>,
) -> (MachineView, EnvironmentView)
    decreases count,
{
    if count == 0 {
        (machine, env)
    } else {
        let (machine, env) = spec_step(machine, env, first_of(draws));
        spec_steps(machine, env, (count - 1) as nat, rest_of(draws))
    }
}

/// The numbers that are left of `draws` after `count` steps.
pub open spec fn later(draws: Seq<int>, count: nat) -> Seq<int>
    decreases count,
{
    if count == 0 {
        draws
    } else {
        later(rest_of(draws), (count - 1) as nat)
    }
}

/// Steps can be taken in two goes.
pub proof fn lemma_steps_add(
    machine: MachineView,
    env: EnvironmentView,
    first: nat,
    second: nat,
    draws: Seq<int>,
)
    ensures
        spec_steps(machine, env, first + second, draws) == spec_steps(
            spec_steps(machine, env, first, draws).0,
            spec_steps(machine, env, first, draws).1,
            second,
            later(draws, first),
        ),
        later(draws, first + second) == later(later(draws, first), second),
    decreases first,
{
    if first > 0 {
        let (next, after) = spec_step(machine, env, first_of(draws));
        lemma_steps_add(next, after, (first - 1) as nat, second, rest_of(draws));
    }
}

/// A machine that has no step left to take stays as it is, however many
/// steps it is asked to take.
pub proof fn lemma_steps_at_rest(
    machine: MachineView,
    env: EnvironmentView,
    count: nat,
    draws: Seq<int>,
)
    requires
        !(spec_status(machine) is Running),
    ensures
        spec_steps(machine, env, count, draws) == (machine, env),
    decreases count,
{
    if count > 0 {
        lemma_steps_at_rest(machine, env, (count - 1) as nat, rest_of(draws));
    }
}

/// Running for a budget is taking as many steps: the steps that a machine at
/// rest is asked to take change nothing.
pub proof fn lemma_run_is_steps(
    machine: MachineView,
    env: EnvironmentView,
    budget: nat,
    draws: Seq<int>,
)
    ensures
        spec_run(machine, env, budget, draws) == spec_steps(machine, env, budget, draws),
    decreases budget,
{
    if budget > 0 {
        if spec_status(machine) is Running {
            let (next, after) = spec_step(machine, env, first_of(draws));
            lemma_run_is_steps(next, after, (budget - 1) as nat, rest_of(draws));
        } else {
            lemma_steps_at_rest(machine, env, budget, draws);
        }
    }
}

/// Whether `value` evaluates to `result` in exactly `count` steps, which
/// leave the environment `env` as `after`.
pub open spec fn evaluates(
    value: ValueView,
    env: EnvironmentView,
    count: nat,
    draws: Seq<int>,
    result: ValueView,
    after: EnvironmentView,
) -> bool {
    &&& spec_steps(start(value), env, count, draws) == (
        MachineView { control: ControlView::Return(result), stack: Seq::empty() },
        after,
    )
    &&& forall|fewer: nat|
        fewer < count ==> spec_status(#[trigger] spec_steps(start(value), env, fewer, draws).0)
            is Running
}

/// The machine `machine` with the calls `base` waiting below its own.
pub open spec fn lift(machine: MachineView, base: Seq<FrameView>) -> MachineView {
    MachineView { control: machine.control, stack: base + machine.stack }
}

/// A step does not look at the calls that wait below: a machine that has a
/// step to take takes the same step whatever waits below its own calls.
pub proof fn lemma_step_lifted(
    machine: MachineView,
    base: Seq<FrameView>,
    env: EnvironmentView,
    draw: int,
)
    requires
        spec_status(machine) is Running,
    ensures
        spec_step(lift(machine, base), env, draw) == (
            lift(spec_step(machine, env, draw).0, base),
            spec_step(machine, env, draw).1,
        ),
{
    let lifted = lift(machine, base);
    match machine.control {
        ControlView::Evaluate(value) => match value {
            ValueView::Variable(variable) => {},
            ValueView::Function(func, args) => {
                let frame = FrameView { func, args, done: Seq::empty() };
                assert(lifted.stack.push(frame) =~= base + machine.stack.push(frame));
                lemma_enter_lifted(machine.stack.push(frame), base, env, draw);
            },
            _ => {},
        },
        ControlView::Return(value) => {
            let top = machine.stack.last();
            assert(lifted.stack.last() == top);
            let frame = FrameView { func: top.func, args: top.args, done: top.done.push(value) };
            assert(lifted.stack.drop_last().push(frame) =~= base + machine.stack.drop_last().push(
                frame,
            ));
            lemma_enter_lifted(machine.stack.drop_last().push(frame), base, env, draw);
        },
        _ => {},
    }
}

/// Entering the innermost call does not look at the calls that wait below.
proof fn lemma_enter_lifted(
    stack: Seq<FrameView>,
    base: Seq<FrameView>,
    env: EnvironmentView,
    draw: int,
)
    requires
        stack.len() > 0,
    ensures
        enter(base + stack, env, draw) == (
            lift(enter(stack, env, draw).0, base),
            enter(stack, env, draw).1,
        ),
{
    assert((base + stack).last() == stack.last());
    assert((base + stack).drop_last() =~= base + stack.drop_last());
}

/// Steps do not look at the calls that wait below, as long as the machine
/// has steps of its own to take.
pub proof fn lemma_steps_lifted(
    machine: MachineView,
    base: Seq<FrameView>,
    env: EnvironmentView,
    count: nat,
    draws: Seq<int>,
)
    requires
        forall|fewer: nat|
            fewer < count ==> spec_status(#[trigger] spec_steps(machine, env, fewer, draws).0)
                is Running,
    ensures
        spec_steps(lift(machine, base), env, count, draws) == (
            lift(spec_steps(machine, env, count, draws).0, base),
            spec_steps(machine, env, count, draws).1,
        ),
    decreases count,
{
    if count > 0 {
        assert(spec_steps(machine, env, 0, draws).0 == machine);
        lemma_step_lifted(machine, base, env, first_of(draws));
        let (next, after) = spec_step(machine, env, first_of(draws));
        assert forall|fewer: nat| fewer < count - 1 implies spec_status(
            #[trigger] spec_steps(next, after, fewer, rest_of(draws)).0,
        ) is Running by {
            assert(spec_steps(machine, env, fewer + 1, draws) == spec_steps(
                next,
                after,
                fewer,
                rest_of(draws),
            ));
        }
        lemma_steps_lifted(next, base, after, (count - 1) as nat, rest_of(draws));
    } else {
        assert(base + machine.stack =~= lift(machine, base).stack);
    }
}

/// A binary operator evaluates its left side, then its right side, and then
/// computes: if the left side evaluates to `left` and, in the environment
/// that this leaves, the right side evaluates to `right`, then the call has
/// the value (or the error) that the operator computes from `left` and
/// `right`, after three steps more than its sides take, and leaves the
/// environment as its sides leave it.
pub proof fn lemma_binary_operator(
    name: char,
    lhs: ValueView,
    rhs: ValueView,
    env: EnvironmentView,
    draws: Seq<int>,
    left_steps: nat,
    left: ValueView,
    middle: EnvironmentView,
    right_steps: nat,
    right: ValueView,
    after: EnvironmentView,
)
    requires
        is_binary_operator(name),
        evaluates(lhs, env, left_steps, later(draws, 1), left, middle),
        evaluates(rhs, middle, right_steps, later(draws, left_steps + 2), right, after),
    ensures
        spec_status(
            spec_steps(
                start(ValueView::Function(name, seq![lhs, rhs])),
                env,
                left_steps + right_steps + 3,
                draws,
            ).0,
        ) == ended(compute(name, left, right)),
        spec_steps(
            start(ValueView::Function(name, seq![lhs, rhs])),
            env,
            left_steps + right_steps + 3,
            draws,
        ).1 == after,
{
    let args = seq![lhs, rhs];
    let base = Seq::<FrameView>::empty();
    let whole = start(ValueView::Function(name, args));
    // One step enters the call, which asks for its left side.
    let f0 = FrameView { func: name, args, done: Seq::empty() };
    let m1 = lift(start(lhs), seq![f0]);
    assert(base.push(f0) =~= seq![f0]);
    assert(seq![f0] + Seq::<FrameView>::empty() =~= seq![f0]);
    assert(spec_step(whole, env, first_of(draws)) == (m1, env));
    assert(spec_steps(whole, env, 1, draws) == (m1, env)) by {
        reveal_with_fuel(spec_steps, 2);
    }
    assert(later(draws, 1) == rest_of(draws)) by {
        reveal_with_fuel(later, 2);
    }
    // The left side is evaluated above the call.
    lemma_steps_lifted(start(lhs), seq![f0], env, left_steps, later(draws, 1));
    let m2 = MachineView { control: ControlView::Return(left), stack: seq![f0] };
    assert(spec_steps(m1, env, left_steps, later(draws, 1)) == (m2, middle));
    lemma_steps_add(whole, env, 1, left_steps, draws);
    assert(spec_steps(whole, env, 1 + left_steps, draws) == (m2, middle));
    // One step hands its value to the call, which asks for its right side.
    let f1 = FrameView { func: name, args, done: seq![left] };
    let m3 = lift(start(rhs), seq![f1]);
    assert(seq![f0].drop_last().push(f1) =~= seq![f1]);
    assert(Seq::<ValueView>::empty().push(left) =~= seq![left]);
    assert(seq![f1] + Seq::<FrameView>::empty() =~= seq![f1]);
    let d2 = later(draws, 1 + left_steps);
    assert(spec_step(m2, middle, first_of(d2)) == (m3, middle));
    assert(spec_steps(m2, middle, 1, d2) == (m3, middle)) by {
        reveal_with_fuel(spec_steps, 2);
    }
    lemma_steps_add(whole, env, 1 + left_steps, 1, draws);
    assert(spec_steps(whole, env, left_steps + 2, draws) == (m3, middle));
    // The right side is evaluated above the call.
    lemma_steps_lifted(start(rhs), seq![f1], middle, right_steps, later(draws, left_steps + 2));
    let m4 = MachineView { control: ControlView::Return(right), stack: seq![f1] };
    assert(spec_steps(m3, middle, right_steps, later(draws, left_steps + 2)) == (m4, after));
    lemma_steps_add(whole, env, left_steps + 2, right_steps, draws);
    assert(spec_steps(whole, env, left_steps + 2 + right_steps, draws) == (m4, after));
    // One step hands its value to the call, which computes.
    let f2 = FrameView { func: name, args, done: seq![left, right] };
    let d4 = later(draws, left_steps + 2 + right_steps);
    assert(run_action(name, args, seq![left, right], after, first_of(d4)) == (
        crate::function::finish(compute(name, left, right)),
        after,
    ));
    assert(seq![f1].drop_last().push(f2) =~= seq![f2]);
    assert(seq![left].push(right) =~= seq![left, right]);
    assert(seq![f2].drop_last() =~= base);
    let m5 = spec_step(m4, after, first_of(d4)).0;
    assert(spec_step(m4, after, first_of(d4)).1 == after);
    assert(spec_status(m5) == ended(compute(name, left, right)));
    assert(spec_steps(m4, after, 1, d4) == (m5, after)) by {
        reveal_with_fuel(spec_steps, 2);
    }
    lemma_steps_add(whole, env, left_steps + 2 + right_steps, 1, draws);
}

/// An error passes every call that waits: if the evaluation of a value
/// raises an error, then so does, at the same step, that evaluation with any
/// calls waiting below it, and the machine has then failed with that very
/// error.
pub proof fn lemma_error_passes_calls(
    value: ValueView,
    base: Seq<FrameView>,
    env: EnvironmentView,
    count: nat,
    draws: Seq<int>,
    err: RuntimeErrorView,
)
    requires
        spec_steps(start(value), env, count, draws).0.control == ControlView::Raise(err),
        forall|fewer: nat|
            fewer < count ==> spec_status(#[trigger] spec_steps(start(value), env, fewer, draws).0)
                is Running,
    ensures
        spec_status(spec_steps(lift(start(value), base), env, count, draws).0)
            == StatusView::Failed(err),
        forall|more: nat|
            spec_status(
                #[trigger] spec_steps(lift(start(value), base), env, count + more, draws).0,
            ) == StatusView::Failed(err),
{
    lemma_steps_lifted(start(value), base, env, count, draws);
    let (failed, after) = spec_steps(lift(start(value), base), env, count, draws);
    assert forall|more: nat|
        spec_status(#[trigger] spec_steps(lift(start(value), base), env, count + more, draws).0)
            == StatusView::Failed(err) by {
        lemma_steps_add(lift(start(value), base), env, count, more, draws);
        lemma_steps_at_rest(failed, after, more, later(draws, count));
    }
}

/// `&` does not evaluate its right side when its left side is false, and `|`
/// does not when its left side is true: if the left side evaluates to such a
/// value, the call has that value two steps later, whatever the right side
/// is, and leaves the environment as the left side leaves it.
pub proof fn lemma_short_circuits(
    name: char,
    lhs: ValueView,
    rhs: ValueView,
    env: EnvironmentView,
    draws: Seq<int>,
    left_steps: nat,
    left: ValueView,
    after: EnvironmentView,
)
    requires
        name == '&' || name == '|',
        evaluates(lhs, env, left_steps, later(draws, 1), left, after),
        left.to_boolean() == Ok::<bool, RuntimeErrorView>(name == '|'),
    ensures
        spec_steps(start(ValueView::Function(name, seq![lhs, rhs])), env, left_steps + 2, draws)
            == (MachineView { control: ControlView::Return(left), stack: Seq::empty() }, after),
{
    let args = seq![lhs, rhs];
    let base = Seq::<FrameView>::empty();
    let whole = start(ValueView::Function(name, args));
    let f0 = FrameView { func: name, args, done: Seq::empty() };
    let m1 = lift(start(lhs), seq![f0]);
    assert(base.push(f0) =~= seq![f0]);
    assert(seq![f0] + Seq::<FrameView>::empty() =~= seq![f0]);
    assert(spec_step(whole, env, first_of(draws)) == (m1, env));
    assert(spec_steps(whole, env, 1, draws) == (m1, env)) by {
        reveal_with_fuel(spec_steps, 2);
    }
    lemma_steps_lifted(start(lhs), seq![f0], env, left_steps, later(draws, 1));
    let m2 = MachineView { control: ControlView::Return(left), stack: seq![f0] };
    assert(spec_steps(m1, env, left_steps, later(draws, 1)) == (m2, after));
    lemma_steps_add(whole, env, 1, left_steps, draws);
    let f1 = FrameView { func: name, args, done: seq![left] };
    let m3 = MachineView { control: ControlView::Return(left), stack: base };
    assert(seq![f0].drop_last().push(f1) =~= seq![f1]);
    assert(Seq::<ValueView>::empty().push(left) =~= seq![left]);
    assert(seq![f1].drop_last() =~= base);
    let d2 = later(draws, 1 + left_steps);
    assert(spec_step(m2, after, first_of(d2)) == (m3, after));
    assert(spec_steps(m2, after, 1, d2) == (m3, after)) by {
        reveal_with_fuel(spec_steps, 2);
    }
    lemma_steps_add(whole, env, 1 + left_steps, 1, draws);
}

/// What is assigned is what is read: if the right side of `=` evaluates to a
/// value and the environment then owns the variable on the left, the call
/// has that value two steps later and has assigned it; and from then on, the
/// variable evaluates to that value in one step.
pub proof fn lemma_assign_and_reread(
    variable: VariableView,
    rhs: ValueView,
    env: EnvironmentView,
    draws: Seq<int>,
    steps: nat,
    value: ValueView,
    after: EnvironmentView,
    draw: int,
)
    requires
        evaluates(rhs, env, steps, later(draws, 1), value, after),
        after.owns(variable),
    ensures
        spec_steps(
            start(ValueView::Function('=', seq![ValueView::Variable(variable), rhs])),
            env,
            steps + 2,
            draws,
        ) == (
            MachineView { control: ControlView::Return(value), stack: Seq::empty() },
            after.assign(variable, value),
        ),
        spec_step(start(ValueView::Variable(variable)), after.assign(variable, value), draw) == (
            MachineView { control: ControlView::Return(value), stack: Seq::empty() },
            after.assign(variable, value),
        ),
{
    let args = seq![ValueView::Variable(variable), rhs];
    let base = Seq::<FrameView>::empty();
    let whole = start(ValueView::Function('=', args));
    let f0 = FrameView { func: '=', args, done: Seq::empty() };
    let m1 = lift(start(rhs), seq![f0]);
    assert(base.push(f0) =~= seq![f0]);
    assert(seq![f0] + Seq::<FrameView>::empty() =~= seq![f0]);
    assert(spec_step(whole, env, first_of(draws)) == (m1, env));
    assert(spec_steps(whole, env, 1, draws) == (m1, env)) by {
        reveal_with_fuel(spec_steps, 2);
    }
    lemma_steps_lifted(start(rhs), seq![f0], env, steps, later(draws, 1));
    let m2 = MachineView { control: ControlView::Return(value), stack: seq![f0] };
    assert(spec_steps(m1, env, steps, later(draws, 1)) == (m2, after));
    lemma_steps_add(whole, env, 1, steps, draws);
    let f1 = FrameView { func: '=', args, done: seq![value] };
    let m3 = MachineView { control: ControlView::Return(value), stack: base };
    let assigned = after.assign(variable, value);
    assert(seq![f0].drop_last().push(f1) =~= seq![f1]);
    assert(Seq::<ValueView>::empty().push(value) =~= seq![value]);
    assert(seq![f1].drop_last() =~= base);
    let d2 = later(draws, 1 + steps);
    assert(spec_step(m2, after, first_of(d2)) == (m3, assigned));
    assert(spec_steps(m2, after, 1, d2) == (m3, assigned)) by {
        reveal_with_fuel(spec_steps, 2);
    }
    lemma_steps_add(whole, env, 1 + steps, 1, draws);
    assert(assigned.owns(variable));
    assert(assigned.fetch(variable) == Some(value));
}

/// The exit status that the next step of the machine quits with, if it
/// does: the machine is handing a value to a call of `Q`, and the value that
/// this call has asked for gives a number.
pub open spec fn quits(machine: MachineView) -> Option<i32> {
    match machine.control {
        ControlView::Return(value) => if machine.stack.len() > 0 && machine.stack.last().func
            == 'Q' && machine.stack.last().args.len() == 1 {
            match machine.stack.last().done.push(value)[0].to_number() {
                Ok(number) => Some(spec_exit_code(number) as i32),
                Err(_) => None,
            }
        } else {
            None
        },
        _ => None,
    }
}

/// The exit status of the first `Q` that the machine reaches a number for
/// within `count` steps, if it reaches one before it comes to rest.
pub open spec fn quits_within(
    machine: MachineView,
    env: EnvironmentView,
    count: nat,
    draws: Seq<int>,
) -> Option<i32>
    decreases count,
{
    if count == 0 || !(spec_status(machine) is Running) {
        None
    } else if quits(machine) is Some {
        quits(machine)
    } else {
        let (machine, env) = spec_step(machine, env, first_of(draws));
        quits_within(machine, env, (count - 1) as nat, rest_of(draws))
    }
}

/// A step ends in the wish to quit exactly when it hands `Q` its number, and
/// the exit status is that number's: no other function and no failure gives
/// a `Quit`, and `Q` with a number gives nothing else.
pub proof fn lemma_step_quits(machine: MachineView, env: EnvironmentView, draw: int, code: i32)
    requires
        spec_status(machine) is Running,
    ensures
        spec_step(machine, env, draw).0.control == ControlView::Raise(RuntimeErrorView::Quit(code))
            <==> quits(machine) == Some(code),
{
    match machine.control {
        ControlView::Evaluate(value) => match value {
            ValueView::Function(func, args) => {
                let frame = FrameView { func, args, done: Seq::empty() };
                lemma_enter_quits(machine.stack.push(frame), env, draw, code);
            },
            _ => {},
        },
        ControlView::Return(value) => {
            let top = machine.stack.last();
            let frame = FrameView { func: top.func, args: top.args, done: top.done.push(value) };
            lemma_enter_quits(machine.stack.drop_last().push(frame), env, draw, code);
        },
        _ => {},
    }
}

/// Of all functions, `Q` alone raises the wish to quit, and it does so when
/// the value that it asked for gives a number.
proof fn lemma_enter_quits(stack: Seq<FrameView>, env: EnvironmentView, draw: int, code: i32)
    requires
        stack.len() > 0,
    ensures
        enter(stack, env, draw).0.control == ControlView::Raise(RuntimeErrorView::Quit(code)) <==> {
            let top = stack.last();
            &&& top.func == 'Q'
            &&& top.args.len() == 1
            &&& top.done.len() > 0
            &&& top.done[0].to_number() matches Ok(number)
            &&& code == spec_exit_code(number) as i32
        },
{
}

/// A run ends in the wish to quit exactly when it reaches a `Q` with a
/// number, and the exit status is that number's. So a program that quits is
/// never taken for one that failed, nor one that failed for one that quits:
/// a machine that has not failed yet has, after `budget` steps, failed with
/// `Quit(code)` if and only if, within these steps, it came to hand `Q` a
/// number whose exit status is `code`.
pub proof fn lemma_run_quits(
    machine: MachineView,
    env: EnvironmentView,
    budget: nat,
    draws: Seq<int>,
    code: i32,
)
    requires
        !(machine.control is Raise),
    ensures
        spec_status(spec_run(machine, env, budget, draws).0) == StatusView::Failed(
            RuntimeErrorView::Quit(code),
        ) <==> quits_within(machine, env, budget, draws) == Some(code),
    decreases budget,
{
    lemma_run_unfolds(machine, env, budget, draws);
    if budget > 0 && spec_status(machine) is Running {
        let (next, after) = spec_step(machine, env, first_of(draws));
        let left = (budget - 1) as nat;
        assert(spec_run(machine, env, budget, draws) == spec_run(next, after, left, rest_of(draws)));
        if quits(machine) is Some {
            // The step quits, and nothing follows.
            let status = quits(machine)->Some_0;
            lemma_step_quits(machine, env, first_of(draws), status);
            lemma_raise_is_final(next, after, left, rest_of(draws), EventView::Done);
            assert(quits_within(machine, env, budget, draws) == Some(status));
            assert(spec_status(next) == StatusView::Failed(RuntimeErrorView::Quit(status)));
        } else {
            // The step does not quit: what follows decides.
            lemma_step_quits(machine, env, first_of(draws), code);
            assert(quits_within(machine, env, budget, draws) == quits_within(
                next,
                after,
                left,
                rest_of(draws),
            ));
            if next.control is Raise {
                lemma_raise_is_final(next, after, left, rest_of(draws), EventView::Done);
                assert(quits_within(next, after, left, rest_of(draws)) is None);
            } else {
                lemma_run_quits(next, after, left, rest_of(draws), code);
            }
        }
    } else {
        assert(quits_within(machine, env, budget, draws) is None);
    }
}

/// Whether the next step of the machine runs the function `R`, which draws
/// a number.
pub open spec fn draws(machine: MachineView) -> bool {
    match machine.control {
        ControlView::Evaluate(ValueView::Function(func, _)) => func == 'R',
        ControlView::Return(_) => machine.stack.len() > 0 && machine.stack.last().func == 'R',
        _ => false,
    }
}

/// Chance matters to a step only if the step runs `R`: every other step is
/// the same whatever number is drawn.
pub proof fn lemma_step_without_draw(
    machine: MachineView,
    env: EnvironmentView,
    draw: int,
    other: int,
)
    requires
        !draws(machine),
    ensures
        spec_step(machine, env, draw) == spec_step(machine, env, other),
{
}

/// Whether every one of `values` is well formed.
pub open spec fn all_well_formed(values: Seq<ValueView>) -> bool {
    forall|i: int| 0 <= i < values.len() ==> (#[trigger] values[i]).well_formed()
}

impl FrameView {
    /// Whether the call has as many arguments as its function takes, and
    /// holds well-formed values only.
    pub open spec fn well_formed(self) -> bool {
        &&& arity_of(self.func) == Some(self.args.len())
        &&& all_well_formed(self.args)
        &&& all_well_formed(self.done)
    }
}

/// Whether a machine and its environment are in good order: the names of the
/// environment are distinct, and every call (in the machine or held by a
/// variable) has as many arguments as its function takes.
pub open spec fn sound(machine: MachineView, env: EnvironmentView) -> bool {
    &&& env.wf()
    &&& env.holds_well_formed()
    &&& forall|i: int| 0 <= i < machine.stack.len() ==> (#[trigger] machine.stack[i]).well_formed()
    &&& match machine.control {
        ControlView::Evaluate(value) => value.well_formed(),
        ControlView::Return(value) => value.well_formed(),
        _ => true,
    }
}

/// What a function says keeps good order: the value that it returns or
/// wants evaluated is well formed, and so is what the environment then
/// holds.
pub proof fn lemma_action_sound(
    name: char,
    args: Seq<ValueView>,
    done: Seq<ValueView>,
    env: EnvironmentView,
    draw: int,
)
    requires
        env.wf(),
        env.holds_well_formed(),
        all_well_formed(args),
        all_well_formed(done),
    ensures
        run_action(name, args, done, env, draw).1.wf(),
        run_action(name, args, done, env, draw).1.holds_well_formed(),
        run_action(name, args, done, env, draw).0 matches ActionView::Return(value)
            ==> value.well_formed(),
        run_action(name, args, done, env, draw).0 matches ActionView::Tail(value)
            ==> value.well_formed(),
{
    if arity_of(name) == Some(args.len()) {
        if name == 'E' && done.len() > 0 {
            if let Ok(text) = done[0].to_text() {
                lemma_parse_keeps_wf(text, 0, env);
                lemma_parse_well_formed(text, 0, env);
            }
        } else if name == '=' && args[0] is Variable && done.len() > 0 {
            lemma_assign(env, args[0]->Variable_0, done[0]);
            assert(done[0].well_formed());
        } else if name == 'B' {
            assert(args[0].well_formed());
        } else if name == '&' || name == '|' || name == ';' || name == 'I' {
            assert(args[1].well_formed());
            if name == 'I' {
                assert(args[2].well_formed());
            }
            if done.len() > 0 {
                assert(done[0].well_formed());
            }
        } else if done.len() > 0 {
            assert(done[0].well_formed());
            if done.len() > 1 {
                assert(done[1].well_formed());
            }
        }
    }
}

/// A step keeps good order.
pub proof fn lemma_step_sound(machine: MachineView, env: EnvironmentView, draw: int)
    requires
        sound(machine, env),
    ensures
        sound(spec_step(machine, env, draw).0, spec_step(machine, env, draw).1),
{
    match machine.control {
        ControlView::Evaluate(value) => match value {
            ValueView::Variable(variable) => {
                if env.owns(variable) {
                    assert(env.slots[variable.slot as int].value matches Some(held)
                        ==> held.well_formed());
                }
            },
            ValueView::Function(func, args) => {
                if arity_of(func) == Some(args.len()) {
                    let frame = FrameView { func, args, done: Seq::empty() };
                    lemma_enter_sound(machine.stack.push(frame), env, draw);
                }
            },
            _ => {},
        },
        ControlView::Return(value) => {
            if machine.stack.len() > 0 {
                let top = machine.stack.last();
                assert(top.well_formed());
                let frame = FrameView { func: top.func, args: top.args, done: top.done.push(value) };
                assert(frame.well_formed());
                lemma_enter_sound(machine.stack.drop_last().push(frame), env, draw);
            }
        },
        _ => {},
    }
}

/// Entering the innermost call keeps good order.
proof fn lemma_enter_sound(stack: Seq<FrameView>, env: EnvironmentView, draw: int)
    requires
        stack.len() > 0,
        env.wf(),
        env.holds_well_formed(),
        forall|i: int| 0 <= i < stack.len() ==> (#[trigger] stack[i]).well_formed(),
    ensures
        sound(enter(stack, env, draw).0, enter(stack, env, draw).1),
{
    let top = stack.last();
    assert(top.well_formed());
    lemma_action_sound(top.func, top.args, top.done, env, draw);
    lemma_run_action_index(top.func, top.args, top.done, env, draw);
    let action = run_action(top.func, top.args, top.done, env, draw).0;
    match action {
        ActionView::Evaluate(index) => {
            assert(top.args[index as int].well_formed());
        },
        _ => {},
    }
}

/// A host's answer keeps good order.
pub proof fn lemma_supply_sound(machine: MachineView, env: EnvironmentView, event: EventView)
    requires
        sound(machine, env),
    ensures
        sound(spec_supply(machine, event), env),
{
}

/// Running keeps good order.
pub proof fn lemma_run_sound(
    machine: MachineView,
    env: EnvironmentView,
    budget: nat,
    draws: Seq<int>,
)
    requires
        sound(machine, env),
    ensures
        sound(spec_run(machine, env, budget, draws).0, spec_run(machine, env, budget, draws).1),
    decreases budget,
{
    if budget > 0 && spec_status(machine) is Running {
        if draws.len() == 0 {
            lemma_step_sound(machine, env, 0);
            let (next, after) = spec_step(machine, env, 0);
            lemma_run_sound(next, after, (budget - 1) as nat, draws);
        } else {
            lemma_step_sound(machine, env, draws[0]);
            let (next, after) = spec_step(machine, env, draws[0]);
            lemma_run_sound(next, after, (budget - 1) as nat, draws.drop_first());
        }
    }
}

impl Frame {
    /// The frame of a call that has just been entered.
    fn new(func: Function, args: Rc<Vec<Value>>) -> (res: Frame)
        ensures
            res@ == (FrameView { func: func@, args: views(args@), done: Seq::empty() }),
    {
        let res = Frame { func, args, done: Vec::new() };
        proof {
            assert(views(res.done@) =~= Seq::<ValueView>::empty());
        }
        res
    }

    /// Adds a value to the values that the function has asked for.
    fn push(self, value: Value) -> (res: Frame)
        ensures
            res@ == (FrameView {
                func: self@.func,
                args: self@.args,
                done: self@.done.push(value@),
            }),
    {
        let Frame { func, args, mut done } = self;
        let ghost before = done@;
        done.push(value);
        proof {
            assert(views(done@) =~= views(before).push(value@));
        }
        Frame { func, args, done }
    }
}

impl Machine {
    /// The machine that is about to evaluate `value`.
    pub fn new(value: Value) -> (res: Machine)
        ensures
            res@ == start(value@),
    {
        let res = Machine { control: Control::Evaluate(value), stack: Vec::new() };
        proof {
            assert(frames(res.stack@) =~= Seq::<FrameView>::empty());
        }
        res
    }

    /// The machine that has failed with `err` before it took a step.
    pub fn failed(err: RuntimeError) -> (res: Machine)
        ensures
            res@ == (MachineView { control: ControlView::Raise(err@), stack: Seq::empty() }),
    {
        let res = Machine { control: Control::Raise(err), stack: Vec::new() };
        proof {
            assert(frames(res.stack@) =~= Seq::<FrameView>::empty());
        }
        res
    }

    /// How far the machine has come.
    pub fn status(&self) -> (res: Status)
        ensures
            res@ == spec_status(self@),
    {
        match &self.control {
            Control::Evaluate(_) => Status::Running,
            Control::Return(value) => if self.stack.len() == 0 {
                Status::Finished(value.clone())
            } else {
                Status::Running
            },
            Control::Raise(err) => Status::Failed(err.clone()),
            Control::Await(request) => Status::Waiting(request.clone()),
        }
    }

    /// Whether there are steps left to take.
    pub fn is_running(&self) -> (res: bool)
        ensures
            res == (spec_status(self@) is Running),
    {
        match &self.control {
            Control::Evaluate(_) => true,
            Control::Return(_) => self.stack.len() > 0,
            _ => false,
        }
    }

    /// How many calls are being evaluated, one within the other.
    pub fn depth(&self) -> (res: usize)
        ensures
            res == self@.stack.len(),
    {
        self.stack.len()
    }

    /// Runs the function of the innermost call and does what it says.
    fn enter(stack: Vec<Frame>, env: &mut Environment) -> (res: Machine)
        requires
            stack@.len() > 0,
        ensures
            exists|draw: i64| #[trigger]
                enter(frames(stack@), old(env)@, draw as int) == (res@, final(env)@),
    {
        let mut stack = stack;
        let ghost before = frames(stack@);
        let ghost env0 = env@;
        let last = stack.len() - 1;
        let action = stack[last].func.run(
            stack[last].args.as_slice(),
            stack[last].done.as_slice(),
            env,
        );
        let ghost draw = choose|draw: i64| #[trigger]
            run_action(
                before.last().func,
                before.last().args,
                before.last().done,
                env0,
                draw as int,
            ) == (action@, env@);
        let res = match action {
            Action::Evaluate(index) => {
                let value = stack[last].args[index].clone();
                Machine { control: Control::Evaluate(value), stack }
            },
            Action::Tail(value) => {
                stack.pop();
                Machine { control: Control::Evaluate(value), stack }
            },
            Action::Return(value) => {
                stack.pop();
                Machine { control: Control::Return(value), stack }
            },
            Action::Raise(err) => Machine { control: Control::Raise(err), stack },
            Action::Request(request) => Machine { control: Control::Await(request), stack },
            Action::Again => {
                let frame = stack.pop().unwrap();
                proof {
                    lemma_view_function(frame.func, frame.args);
                }
                Machine { control: Control::Evaluate(Value::Function(frame.func, frame.args)), stack }
            },
        };
        proof {
            assert(frames(res.stack@) =~= if action is Evaluate || action is Raise
                || action is Request {
                before
            } else {
                before.drop_last()
            });
            assert(enter(before, env0, draw as int) == (res@, env@));
        }
        res
    }

    /// Takes one step; see [`spec_step`].
    pub fn step(self, env: &mut Environment) -> (res: Machine)
        ensures
            exists|draw: i64| #[trigger]
                spec_step(self@, old(env)@, draw as int) == (res@, final(env)@),
    {
        let ghost before = self@;
        let ghost env0 = env@;
        let Machine { control, mut stack } = self;
        let ghost frames0 = frames(stack@);
        match control {
            Control::Evaluate(value) => match value {
                Value::Variable(variable) => {
                    let control = match env.fetch(&variable) {
                        Some(value) => Control::Return(value),
                        None => Control::Raise(
                            RuntimeError::UnknownIdentifier {
                                identifier: String::from_str(variable.name()),
                            },
                        ),
                    };
                    let res = Machine { control, stack };
                    proof {
                        assert(spec_step(before, env0, 0) == (res@, env@));
                    }
                    res
                },
                Value::Function(func, args) => {
                    proof {
                        lemma_view_function(func, args);
                    }
                    let frame = Frame::new(func, args);
                    stack.push(frame);
                    proof {
                        assert(frames(stack@) =~= frames0.push(frame@));
                    }
                    let ghost entered = frames(stack@);
                    let res = Machine::enter(stack, env);
                    proof {
                        let draw = choose|draw: i64| #[trigger]
                            enter(entered, env0, draw as int) == (res@, env@);
                        assert(spec_step(before, env0, draw as int) == (res@, env@));
                    }
                    res
                },
                other => {
                    let res = Machine { control: Control::Return(other), stack };
                    proof {
                        assert(spec_step(before, env0, 0) == (res@, env@));
                    }
                    res
                },
            },
            Control::Return(value) => match stack.pop() {
                None => {
                    let res = Machine { control: Control::Return(value), stack };
                    proof {
                        assert(frames(stack@) =~= frames0);
                        assert(spec_step(before, env0, 0) == (res@, env@));
                    }
                    res
                },
                Some(frame) => {
                    let ghost rest = frames(stack@);
                    let ghost top = frame@;
                    proof {
                        assert(rest =~= frames0.drop_last());
                        assert(top == frames0.last());
                    }
                    let frame = frame.push(value);
                    stack.push(frame);
                    proof {
                        assert(frames(stack@) =~= rest.push(frame@));
                    }
                    let ghost entered = frames(stack@);
                    let res = Machine::enter(stack, env);
                    proof {
                        let draw = choose|draw: i64| #[trigger]
                            enter(entered, env0, draw as int) == (res@, env@);
                        assert(spec_step(before, env0, draw as int) == (res@, env@));
                    }
                    res
                },
            },
            other => {
                let res = Machine { control: other, stack };
                proof {
                    assert(spec_step(before, env0, 0) == (res@, env@));
                }
                res
            },
        }
    }

    /// Hands the host's answer to a machine that waits for it; see
    /// [`spec_supply`].
    pub fn supply(self, event: Event) -> (res: Machine)
        ensures
            res@ == spec_supply(self@, event@),
    {
        let Machine { control, stack } = self;
        match control {
            Control::Await(_) => {
                let control = match event {
                    Event::Text(text) => match RcString::new(text.as_str()) {
                        Ok(text) => Control::Return(Value::String(text)),
                        Err(err) => {
                            proof {
                                lemma_invalid_char(text@, err);
                            }
                            Control::Raise(RuntimeError::InvalidString(err))
                        },
                    },
                    Event::Done => Control::Return(Value::Null),
                    Event::Failed(message) => Control::Raise(RuntimeError::Io(message)),
                };
                Machine { control, stack }
            },
            other => Machine { control: other, stack },
        }
    }

    /// Takes steps while there are any to take, but at most `budget`; see
    /// [`spec_run`]. The machine that comes back has finished, has failed,
    /// waits for its host, or has used up the budget and can be run again.
    pub fn run(self, env: &mut Environment, budget: u64) -> (res: Machine)
        ensures
            exists|draws: Seq<int>| #[trigger]
                spec_run(self@, old(env)@, budget as nat, draws) == (res@, final(env)@),
    {
        let mut machine = self;
        let mut left = budget;
        let ghost mut taken: Seq<int> = Seq::empty();
        proof {
            assert forall|rest: Seq<int>| taken + rest == rest by {
                assert(taken + rest =~= rest);
            }
        }
        while left > 0 && machine.is_running()
            invariant
                forall|rest: Seq<int>| #[trigger]
                    spec_run(self@, old(env)@, budget as nat, taken + rest) == spec_run(
                        machine@,
                        env@,
                        left as nat,
                        rest,
                    ),
            decreases left,
        {
            let ghost before = machine@;
            let ghost env0 = env@;
            machine = machine.step(env);
            left = left - 1;
            proof {
                let draw = choose|draw: i64| #[trigger]
                    spec_step(before, env0, draw as int) == (machine@, env@);
                let longer = taken.push(draw as int);
                assert forall|rest: Seq<int>| #[trigger]
                    spec_run(self@, old(env)@, budget as nat, longer + rest) == spec_run(
                        machine@,
                        env@,
                        left as nat,
                        rest,
                    ) by {
                    let more = seq![draw as int] + rest;
                    assert(longer + rest =~= taken + more);
                    assert(more.drop_first() =~= rest);
                    assert(spec_run(before, env0, (left + 1) as nat, more) == spec_run(
                        machine@,
                        env@,
                        left as nat,
                        rest,
                    ));
                }
                taken = longer;
            }
        }
        proof {
            assert(taken + Seq::<int>::empty() =~= taken);
            assert(spec_run(self@, old(env)@, budget as nat, taken) == (machine@, env@));
        }
        machine
    }
}


/// The machine that is about to run what was parsed: it evaluates the value,
/// or has failed with the error of the parser.
pub open spec fn loaded(parsed: Result<ValueView, ParseError>) -> MachineView {
    match parsed {
        Ok(value) => start(value),
        Err(err) => MachineView {
            control: ControlView::Raise(RuntimeErrorView::Parse(err)),
            stack: Seq::empty(),
        },
    }
}

impl Machine {
    /// The machine that is about to run what was parsed.
    pub fn load(parsed: Result<Value, ParseError>) -> (res: Machine)
        ensures
            res@ == loaded(
                match parsed {
                    Ok(value) => Ok(value@),
                    Err(err) => Err(err),
                },
            ),
    {
        match parsed {
            Ok(value) => Machine::new(value),
            Err(err) => Machine::failed(RuntimeError::Parse(err)),
        }
    }
}

impl Value {
    /// Evaluates the value in `env`, for at most `budget` steps, and gives
    /// the machine as that leaves it; see [`Machine::run`].
    pub fn run(&self, env: &mut Environment, budget: u64) -> (res: Machine)
        ensures
            exists|draws: Seq<int>| #[trigger]
                spec_run(start(self@), old(env)@, budget as nat, draws) == (res@, final(env)@),
    {
        Machine::new(self.clone()).run(env, budget)
    }
}


} // verus!
