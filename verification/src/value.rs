//! The values of Knight: literals, variables, and unevaluated function calls.

use crate::decimal::decimal_text;
use crate::decimal::number_to_text;
use crate::decimal::spec_to_number;
use crate::decimal::text_to_number;
use crate::environment::variable::Variable;
use crate::environment::variable::VariableView;
use crate::error::RuntimeError;
use crate::error::RuntimeErrorView;
use crate::function::Function;
use crate::environment::Environment;
use crate::environment::EnvironmentView;
use crate::number::difference;
use crate::number::power;
use crate::number::product;
use crate::number::quotient;
use crate::number::remainder;
use crate::number::spec_power;
use crate::number::spec_quotient;
use crate::number::spec_remainder;
use crate::number::sum;
use crate::number::wrap;
use crate::number::Number;
use crate::rcstring::spec_less;
use crate::rcstring::spec_repeat;
use crate::support::share;
use crate::rcstring::RcString;
use std::rc::Rc;
use vstd::prelude::*;

verus! {

/// The kinds of values.
#[derive(Debug, Clone, Copy, PartialEq, Eq, Structural)]
pub enum Kind {
    Null,
    Boolean,
    Number,
    String,
    Variable,
    Function,
}

impl Kind {
    /// The name of the kind, as it is written in the debug form of a value.
    pub open spec fn spec_name(self) -> Seq<char> {
        match self {
            Kind::Null => "Null"@,
            Kind::Boolean => "Boolean"@,
            Kind::Number => "Number"@,
            Kind::String => "String"@,
            Kind::Variable => "Variable"@,
            Kind::Function => "Function"@,
        }
    }

    /// The name of the kind.
    pub fn name(self) -> (res: &'static str)
        ensures
            res@ == self.spec_name(),
    {
        match self {
            Kind::Null => "Null",
            Kind::Boolean => "Boolean",
            Kind::Number => "Number",
            Kind::String => "String",
            Kind::Variable => "Variable",
            Kind::Function => "Function",
        }
    }
}

/// A value within Knight: a literal, a variable, or a function call that has
/// not been evaluated, which holds its arguments unevaluated.
#[derive(Debug, PartialEq, Eq)]
pub enum Value {
    Null,
    Boolean(bool),
    Number(Number),
    String(RcString),
    Variable(Variable),
    Function(Function, Rc<Vec<Value>>),
}

/// What a [`Value`] is, over mathematical integers and sequences.
pub enum ValueView {
    Null,
    Boolean(bool),
    Number(int),
    String(Seq<char>),
    Variable(VariableView),
    /// A call of the function of that name with these arguments.
    Function(char, Seq<ValueView>),
}

/// The views of a sequence of values.
pub open spec fn views(values: Seq<Value>) -> Seq<ValueView> {
    Seq::new(values.len(), |i: int| values[i]@)
}

/// The view of the result of a fallible operation on values.
pub open spec fn outcome(res: Result<Value, RuntimeError>) -> Result<ValueView, RuntimeErrorView> {
    match res {
        Ok(value) => Ok(value@),
        Err(err) => Err(err@),
    }
}

/// What `value` is; see [`ValueView`].
pub open spec fn view_of(value: Value) -> ValueView
    decreases value,
{
    match value {
        Value::Null => ValueView::Null,
        Value::Boolean(boolean) => ValueView::Boolean(boolean),
        Value::Number(number) => ValueView::Number(number as int),
        Value::String(text) => ValueView::String(text@),
        Value::Variable(variable) => ValueView::Variable(variable@),
        Value::Function(func, args) => ValueView::Function(
            func@,
            Seq::new(
                args@.len(),
                |i: int|
                    if 0 <= i < args@.len() {
                        view_of(args@[i])
                    } else {
                        ValueView::Null
                    },
            ),
        ),
    }
}

impl View for Value {
    type V = ValueView;

    open spec fn view(&self) -> ValueView {
        view_of(*self)
    }
}

/// The view of a call holds the views of its arguments.
pub proof fn lemma_view_function(func: Function, args: Rc<Vec<Value>>)
    ensures
        Value::Function(func, args)@ == ValueView::Function(func@, views(args@)),
{
    assert(Value::Function(func, args)@->Function_1 =~= views(args@));
}

impl Clone for Value {
    /// A copy of the value that shares its text and its arguments with the
    /// value that it was made from.
    fn clone(&self) -> (res: Self)
        ensures
            res == *self,
    {
        match self {
            Value::Null => Value::Null,
            Value::Boolean(boolean) => Value::Boolean(*boolean),
            Value::Number(number) => Value::Number(*number),
            Value::String(text) => Value::String(text.clone()),
            Value::Variable(variable) => Value::Variable(variable.clone()),
            Value::Function(func, args) => Value::Function(*func, share(args)),
        }
    }
}

impl Default for Value {
    fn default() -> (res: Self)
        ensures
            res@ == ValueView::Null,
    {
        Value::Null
    }
}

impl From<bool> for Value {
    fn from(boolean: bool) -> (res: Self) {
        Value::Boolean(boolean)
    }
}

impl vstd::std_specs::convert::FromSpecImpl<bool> for Value {
    open spec fn obeys_from_spec() -> bool {
        true
    }

    open spec fn from_spec(boolean: bool) -> Self {
        Value::Boolean(boolean)
    }
}

impl From<Number> for Value {
    fn from(number: Number) -> (res: Self) {
        Value::Number(number)
    }
}

impl vstd::std_specs::convert::FromSpecImpl<Number> for Value {
    open spec fn obeys_from_spec() -> bool {
        true
    }

    open spec fn from_spec(number: Number) -> Self {
        Value::Number(number)
    }
}

impl From<RcString> for Value {
    fn from(text: RcString) -> (res: Self) {
        Value::String(text)
    }
}

impl vstd::std_specs::convert::FromSpecImpl<RcString> for Value {
    open spec fn obeys_from_spec() -> bool {
        true
    }

    open spec fn from_spec(text: RcString) -> Self {
        Value::String(text)
    }
}

impl From<Variable> for Value {
    fn from(variable: Variable) -> (res: Self) {
        Value::Variable(variable)
    }
}

impl vstd::std_specs::convert::FromSpecImpl<Variable> for Value {
    open spec fn obeys_from_spec() -> bool {
        true
    }

    open spec fn from_spec(variable: Variable) -> Self {
        Value::Variable(variable)
    }
}

impl ValueView {
    /// Whether every call in the value has as many arguments as its function
    /// takes.
    pub open spec fn well_formed(self) -> bool
        decreases self,
    {
        match self {
            ValueView::Function(name, args) => {
                &&& crate::function::arity_of(name) == Some(args.len())
                &&& forall|i: int| 0 <= i < args.len() ==> (#[trigger] args[i]).well_formed()
            },
            _ => true,
        }
    }

    /// The kind of the value.
    pub open spec fn kind(self) -> Kind {
        match self {
            ValueView::Null => Kind::Null,
            ValueView::Boolean(_) => Kind::Boolean,
            ValueView::Number(_) => Kind::Number,
            ValueView::String(_) => Kind::String,
            ValueView::Variable(_) => Kind::Variable,
            ValueView::Function(_, _) => Kind::Function,
        }
    }

    /// Whether the value is a literal: neither a variable nor a call.
    pub open spec fn is_literal(self) -> bool {
        !(self is Variable) && !(self is Function)
    }

    /// The truth of a literal: null is false, a number is true unless it is
    /// zero, a text is true unless it is empty.
    pub open spec fn to_boolean(self) -> Result<bool, RuntimeErrorView> {
        match self {
            ValueView::Null => Ok(false),
            ValueView::Boolean(boolean) => Ok(boolean),
            ValueView::Number(number) => Ok(number != 0),
            ValueView::String(text) => Ok(text.len() != 0),
            _ => Err(
                RuntimeErrorView::UndefinedConversion { into: Kind::Boolean, kind: self.kind() },
            ),
        }
    }

    /// The number of a literal: null and false are 0, true is 1, a text is
    /// the number that it denotes.
    pub open spec fn to_number(self) -> Result<int, RuntimeErrorView> {
        match self {
            ValueView::Null => Ok(0),
            ValueView::Boolean(boolean) => Ok(
                if boolean {
                    1
                } else {
                    0
                },
            ),
            ValueView::Number(number) => Ok(number),
            ValueView::String(text) => Ok(spec_to_number(text)),
            _ => Err(
                RuntimeErrorView::UndefinedConversion { into: Kind::Number, kind: self.kind() },
            ),
        }
    }

    /// The text of a literal: `null`, `true`, `false`, a number in decimal
    /// notation, a text itself.
    pub open spec fn to_text(self) -> Result<Seq<char>, RuntimeErrorView> {
        match self {
            ValueView::Null => Ok("null"@),
            ValueView::Boolean(boolean) => Ok(
                if boolean {
                    "true"@
                } else {
                    "false"@
                },
            ),
            ValueView::Number(number) => Ok(decimal_text(number)),
            ValueView::String(text) => Ok(text),
            _ => Err(
                RuntimeErrorView::UndefinedConversion { into: Kind::String, kind: self.kind() },
            ),
        }
    }
}

impl Value {
    /// The kind of the value.
    pub fn kind(&self) -> (res: Kind)
        ensures
            res == self@.kind(),
    {
        match self {
            Value::Null => Kind::Null,
            Value::Boolean(_) => Kind::Boolean,
            Value::Number(_) => Kind::Number,
            Value::String(_) => Kind::String,
            Value::Variable(_) => Kind::Variable,
            Value::Function(_, _) => Kind::Function,
        }
    }

    /// The name of the kind of the value.
    pub fn typename(&self) -> (res: &'static str)
        ensures
            res@ == self@.kind().spec_name(),
    {
        self.kind().name()
    }

    /// Whether the value is null.
    pub fn is_null(&self) -> (res: bool)
        ensures
            res == (self@ is Null),
    {
        match self {
            Value::Null => true,
            _ => false,
        }
    }

    /// Whether the value is a boolean.
    pub fn is_boolean(&self) -> (res: bool)
        ensures
            res == (self@ is Boolean),
    {
        match self {
            Value::Boolean(_) => true,
            _ => false,
        }
    }

    /// Whether the value is a number.
    pub fn is_number(&self) -> (res: bool)
        ensures
            res == (self@ is Number),
    {
        match self {
            Value::Number(_) => true,
            _ => false,
        }
    }

    /// Whether the value is a text.
    pub fn is_string(&self) -> (res: bool)
        ensures
            res == (self@ is String),
    {
        match self {
            Value::String(_) => true,
            _ => false,
        }
    }

    /// Whether the value is a variable.
    pub fn is_variable(&self) -> (res: bool)
        ensures
            res == (self@ is Variable),
    {
        match self {
            Value::Variable(_) => true,
            _ => false,
        }
    }

    /// Whether the value is a function call.
    pub fn is_function(&self) -> (res: bool)
        ensures
            res == (self@ is Function),
    {
        match self {
            Value::Function(_, _) => true,
            _ => false,
        }
    }

    /// The boolean that the value is, if it is one.
    pub fn as_boolean(&self) -> (res: Option<bool>)
        ensures
            res == match self@ {
                ValueView::Boolean(boolean) => Some(boolean),
                _ => None,
            },
    {
        match self {
            Value::Boolean(boolean) => Some(*boolean),
            _ => None,
        }
    }

    /// The number that the value is, if it is one.
    pub fn as_number(&self) -> (res: Option<Number>)
        ensures
            match res {
                Some(number) => self@ == ValueView::Number(number as int),
                None => !(self@ is Number),
            },
    {
        match self {
            Value::Number(number) => Some(*number),
            _ => None,
        }
    }

    /// The text that the value is, if it is one.
    pub fn as_string(&self) -> (res: Option<&RcString>)
        ensures
            match res {
                Some(text) => self@ == ValueView::String(text@),
                None => !(self@ is String),
            },
    {
        match self {
            Value::String(text) => Some(text),
            _ => None,
        }
    }

    /// The variable that the value is, if it is one.
    pub fn as_variable(&self) -> (res: Option<&Variable>)
        ensures
            match res {
                Some(variable) => self@ == ValueView::Variable(variable@),
                None => !(self@ is Variable),
            },
    {
        match self {
            Value::Variable(variable) => Some(variable),
            _ => None,
        }
    }

    /// The value of a variable's handle.
    pub fn new_variable(variable: Variable) -> (res: Self)
        ensures
            res@ == ValueView::Variable(variable@),
    {
        Value::Variable(variable)
    }

    /// The call of `func` with `args`, unevaluated.
    pub fn new_function(func: Function, args: Vec<Value>) -> (res: Self)
        requires
            crate::function::arity_of(func@) == Some(args@.len()),
        ensures
            res@ == ValueView::Function(func@, views(args@)),
    {
        let args = Rc::new(args);
        proof {
            lemma_view_function(func, args);
        }
        Value::Function(func, args)
    }

    /// Converts a literal to a boolean.
    ///
    /// # Errors
    /// A variable or a function call has no truth of its own: it must be
    /// evaluated first.
    pub fn to_boolean(&self) -> (res: Result<bool, RuntimeError>)
        ensures
            match res {
                Ok(boolean) => self@.to_boolean() == Ok::<bool, RuntimeErrorView>(boolean),
                Err(err) => self@.to_boolean() == Err::<bool, RuntimeErrorView>(err@),
            },
    {
        match self {
            Value::Null => Ok(false),
            Value::Boolean(boolean) => Ok(*boolean),
            Value::Number(number) => Ok(*number != 0),
            Value::String(text) => Ok(!text.is_empty()),
            _ => Err(RuntimeError::UndefinedConversion { into: Kind::Boolean, kind: self.kind() }),
        }
    }

    /// Converts a literal to a number.
    ///
    /// # Errors
    /// A variable or a function call has no number of its own: it must be
    /// evaluated first.
    pub fn to_number(&self) -> (res: Result<Number, RuntimeError>)
        ensures
            match res {
                Ok(number) => self@.to_number() == Ok::<int, RuntimeErrorView>(number as int),
                Err(err) => self@.to_number() == Err::<int, RuntimeErrorView>(err@),
            },
    {
        match self {
            Value::Null => Ok(0),
            Value::Boolean(boolean) => Ok(
                if *boolean {
                    1
                } else {
                    0
                },
            ),
            Value::Number(number) => Ok(*number),
            Value::String(text) => Ok(text_to_number(text)),
            _ => Err(RuntimeError::UndefinedConversion { into: Kind::Number, kind: self.kind() }),
        }
    }

    /// Converts a literal to a text.
    ///
    /// # Errors
    /// A variable or a function call has no text of its own: it must be
    /// evaluated first.
    pub fn to_rcstring(&self) -> (res: Result<RcString, RuntimeError>)
        ensures
            match res {
                Ok(text) => self@.to_text() == Ok::<Seq<char>, RuntimeErrorView>(text@),
                Err(err) => self@.to_text() == Err::<Seq<char>, RuntimeErrorView>(err@),
            },
    {
        proof {
            reveal_strlit("null");
            reveal_strlit("true");
            reveal_strlit("false");
        }
        match self {
            Value::Null => Ok(RcString::new_unchecked("null")),
            Value::Boolean(boolean) => Ok(
                if *boolean {
                    RcString::new_unchecked("true")
                } else {
                    RcString::new_unchecked("false")
                },
            ),
            Value::Number(number) => Ok(number_to_text(*number)),
            Value::String(text) => Ok(text.clone()),
            _ => Err(RuntimeError::UndefinedConversion { into: Kind::String, kind: self.kind() }),
        }
    }
}

impl ValueView {
    /// `+`: the wrapped sum of a number and the number of `rhs`, or a text
    /// followed by the text of `rhs`.
    pub open spec fn plus(self, rhs: ValueView) -> Result<ValueView, RuntimeErrorView> {
        match self {
            ValueView::Number(lhs) => match rhs.to_number() {
                Ok(rhs) => Ok(ValueView::Number(wrap(lhs + rhs))),
                Err(err) => Err(err),
            },
            ValueView::String(lhs) => match rhs.to_text() {
                Ok(rhs) => Ok(ValueView::String(lhs + rhs)),
                Err(err) => Err(err),
            },
            _ => Err(RuntimeErrorView::InvalidOperand { func: '+', operand: self.kind() }),
        }
    }

    /// `-`: the wrapped difference of a number and the number of `rhs`.
    pub open spec fn minus(self, rhs: ValueView) -> Result<ValueView, RuntimeErrorView> {
        match self {
            ValueView::Number(lhs) => match rhs.to_number() {
                Ok(rhs) => Ok(ValueView::Number(wrap(lhs - rhs))),
                Err(err) => Err(err),
            },
            _ => Err(RuntimeErrorView::InvalidOperand { func: '-', operand: self.kind() }),
        }
    }

    /// `*`: the wrapped product of a number and the number of `rhs`, or a
    /// text repeated as often as the number of `rhs` says.
    pub open spec fn times(self, rhs: ValueView) -> Result<ValueView, RuntimeErrorView> {
        match self {
            ValueView::Number(lhs) => match rhs.to_number() {
                Ok(rhs) => Ok(ValueView::Number(wrap(lhs * rhs))),
                Err(err) => Err(err),
            },
            ValueView::String(lhs) => match rhs.to_number() {
                Ok(rhs) => Ok(ValueView::String(spec_repeat(lhs, rhs))),
                Err(err) => Err(err),
            },
            _ => Err(RuntimeErrorView::InvalidOperand { func: '*', operand: self.kind() }),
        }
    }

    /// `/`: the quotient of a number and the number of `rhs`, rounded toward
    /// zero; division by zero is an error.
    pub open spec fn divided_by(self, rhs: ValueView) -> Result<ValueView, RuntimeErrorView> {
        match self {
            ValueView::Number(lhs) => match rhs.to_number() {
                Ok(rhs) => if rhs == 0 {
                    Err(RuntimeErrorView::DivisionByZero { modulo: false })
                } else {
                    Ok(ValueView::Number(wrap(spec_quotient(lhs, rhs))))
                },
                Err(err) => Err(err),
            },
            _ => Err(RuntimeErrorView::InvalidOperand { func: '/', operand: self.kind() }),
        }
    }

    /// `%`: what the division of a number by the number of `rhs` leaves;
    /// division by zero is an error.
    pub open spec fn modulo(self, rhs: ValueView) -> Result<ValueView, RuntimeErrorView> {
        match self {
            ValueView::Number(lhs) => match rhs.to_number() {
                Ok(rhs) => if rhs == 0 {
                    Err(RuntimeErrorView::DivisionByZero { modulo: true })
                } else {
                    Ok(ValueView::Number(spec_remainder(lhs, rhs)))
                },
                Err(err) => Err(err),
            },
            _ => Err(RuntimeErrorView::InvalidOperand { func: '%', operand: self.kind() }),
        }
    }

    /// `^`: a number raised to the power of the number of `rhs`.
    pub open spec fn raised_to(self, rhs: ValueView) -> Result<ValueView, RuntimeErrorView> {
        match self {
            ValueView::Number(lhs) => match rhs.to_number() {
                Ok(rhs) => Ok(ValueView::Number(spec_power(lhs, rhs))),
                Err(err) => Err(err),
            },
            _ => Err(RuntimeErrorView::InvalidOperand { func: '^', operand: self.kind() }),
        }
    }

    /// `<`: whether a number is less than the number of `rhs`, a boolean is
    /// false while the truth of `rhs` is true, or a text comes before the
    /// text of `rhs`.
    pub open spec fn less_than(self, rhs: ValueView) -> Result<bool, RuntimeErrorView> {
        match self {
            ValueView::Number(lhs) => match rhs.to_number() {
                Ok(rhs) => Ok(lhs < rhs),
                Err(err) => Err(err),
            },
            ValueView::Boolean(lhs) => match rhs.to_boolean() {
                Ok(rhs) => Ok(!lhs && rhs),
                Err(err) => Err(err),
            },
            ValueView::String(lhs) => match rhs.to_text() {
                Ok(rhs) => Ok(spec_less(lhs, rhs)),
                Err(err) => Err(err),
            },
            _ => Err(RuntimeErrorView::InvalidOperand { func: '<', operand: self.kind() }),
        }
    }

    /// `>`: whether a number is greater than the number of `rhs`, a boolean
    /// is true while the truth of `rhs` is false, or a text comes after the
    /// text of `rhs`.
    pub open spec fn greater_than(self, rhs: ValueView) -> Result<bool, RuntimeErrorView> {
        match self {
            ValueView::Number(lhs) => match rhs.to_number() {
                Ok(rhs) => Ok(lhs > rhs),
                Err(err) => Err(err),
            },
            ValueView::Boolean(lhs) => match rhs.to_boolean() {
                Ok(rhs) => Ok(lhs && !rhs),
                Err(err) => Err(err),
            },
            ValueView::String(lhs) => match rhs.to_text() {
                Ok(rhs) => Ok(spec_less(rhs, lhs)),
                Err(err) => Err(err),
            },
            _ => Err(RuntimeErrorView::InvalidOperand { func: '>', operand: self.kind() }),
        }
    }

    /// `=`: assigns `value` to the variable that this value is. Only a
    /// variable can be assigned to, and only in the environment it belongs to.
    pub open spec fn assigned(self, value: ValueView, env: EnvironmentView) -> (
        Result<(), RuntimeErrorView>,
        EnvironmentView,
    ) {
        match self {
            ValueView::Variable(variable) => if env.owns(variable) {
                (Ok(()), env.assign(variable, value))
            } else {
                (Err(RuntimeErrorView::UnknownIdentifier { identifier: variable.name }), env)
            },
            _ => (Err(RuntimeErrorView::InvalidOperand { func: '=', operand: self.kind() }), env),
        }
    }
}

/// The view of the result of a fallible test on values.
pub open spec fn verdict(res: Result<bool, RuntimeError>) -> Result<bool, RuntimeErrorView> {
    match res {
        Ok(boolean) => Ok(boolean),
        Err(err) => Err(err@),
    }
}

impl Value {
    /// Adds `rhs` to a number, or appends its text to a text.
    ///
    /// # Errors
    /// Any other left side is an invalid operand; a right side that is no
    /// literal cannot be converted.
    pub fn try_add(&self, rhs: &Value) -> (res: Result<Value, RuntimeError>)
        ensures
            outcome(res) == self@.plus(rhs@),
    {
        match self {
            Value::Number(lhs) => match rhs.to_number() {
                Ok(rhs) => Ok(Value::Number(sum(*lhs, rhs))),
                Err(err) => Err(err),
            },
            Value::String(lhs) => match rhs.to_rcstring() {
                Ok(rhs) => Ok(Value::String(lhs.concat(&rhs))),
                Err(err) => Err(err),
            },
            _ => Err(RuntimeError::InvalidOperand { func: '+', operand: self.kind() }),
        }
    }

    /// Subtracts `rhs` from a number.
    ///
    /// # Errors
    /// Any other left side is an invalid operand; a right side that is no
    /// literal cannot be converted.
    pub fn try_sub(&self, rhs: &Value) -> (res: Result<Value, RuntimeError>)
        ensures
            outcome(res) == self@.minus(rhs@),
    {
        match self {
            Value::Number(lhs) => match rhs.to_number() {
                Ok(rhs) => Ok(Value::Number(difference(*lhs, rhs))),
                Err(err) => Err(err),
            },
            _ => Err(RuntimeError::InvalidOperand { func: '-', operand: self.kind() }),
        }
    }

    /// Multiplies a number by `rhs`, or repeats a text `rhs` times.
    ///
    /// # Errors
    /// Any other left side is an invalid operand; a right side that is no
    /// literal cannot be converted.
    pub fn try_mul(&self, rhs: &Value) -> (res: Result<Value, RuntimeError>)
        ensures
            outcome(res) == self@.times(rhs@),
    {
        match self {
            Value::Number(lhs) => match rhs.to_number() {
                Ok(rhs) => Ok(Value::Number(product(*lhs, rhs))),
                Err(err) => Err(err),
            },
            Value::String(lhs) => match rhs.to_number() {
                Ok(rhs) => Ok(Value::String(lhs.repeat(rhs))),
                Err(err) => Err(err),
            },
            _ => Err(RuntimeError::InvalidOperand { func: '*', operand: self.kind() }),
        }
    }

    /// Divides a number by `rhs`, rounding toward zero.
    ///
    /// # Errors
    /// Division by zero; any left side but a number is an invalid operand; a
    /// right side that is no literal cannot be converted.
    pub fn try_div(&self, rhs: &Value) -> (res: Result<Value, RuntimeError>)
        ensures
            outcome(res) == self@.divided_by(rhs@),
    {
        match self {
            Value::Number(lhs) => match rhs.to_number() {
                Ok(rhs) => if rhs == 0 {
                    Err(RuntimeError::DivisionByZero { modulo: false })
                } else {
                    Ok(Value::Number(quotient(*lhs, rhs)))
                },
                Err(err) => Err(err),
            },
            _ => Err(RuntimeError::InvalidOperand { func: '/', operand: self.kind() }),
        }
    }

    /// What dividing a number by `rhs` leaves.
    ///
    /// # Errors
    /// Division by zero; any left side but a number is an invalid operand; a
    /// right side that is no literal cannot be converted.
    pub fn try_rem(&self, rhs: &Value) -> (res: Result<Value, RuntimeError>)
        ensures
            outcome(res) == self@.modulo(rhs@),
    {
        match self {
            Value::Number(lhs) => match rhs.to_number() {
                Ok(rhs) => if rhs == 0 {
                    Err(RuntimeError::DivisionByZero { modulo: true })
                } else {
                    Ok(Value::Number(remainder(*lhs, rhs)))
                },
                Err(err) => Err(err),
            },
            _ => Err(RuntimeError::InvalidOperand { func: '%', operand: self.kind() }),
        }
    }

    /// Raises a number to the power of `rhs`.
    ///
    /// # Errors
    /// Any left side but a number is an invalid operand; a right side that is
    /// no literal cannot be converted.
    pub fn try_pow(&self, rhs: &Value) -> (res: Result<Value, RuntimeError>)
        ensures
            outcome(res) == self@.raised_to(rhs@),
    {
        match self {
            Value::Number(lhs) => match rhs.to_number() {
                Ok(rhs) => Ok(Value::Number(power(*lhs, rhs))),
                Err(err) => Err(err),
            },
            _ => Err(RuntimeError::InvalidOperand { func: '^', operand: self.kind() }),
        }
    }

    /// Whether the value is less than `rhs`, which is converted to the kind
    /// of the value.
    ///
    /// # Errors
    /// A left side that is no number, boolean or text is an invalid operand;
    /// a right side that is no literal cannot be converted.
    pub fn try_lth(&self, rhs: &Value) -> (res: Result<bool, RuntimeError>)
        ensures
            verdict(res) == self@.less_than(rhs@),
    {
        match self {
            Value::Number(lhs) => match rhs.to_number() {
                Ok(rhs) => Ok(*lhs < rhs),
                Err(err) => Err(err),
            },
            Value::Boolean(lhs) => match rhs.to_boolean() {
                Ok(rhs) => Ok(!*lhs && rhs),
                Err(err) => Err(err),
            },
            Value::String(lhs) => match rhs.to_rcstring() {
                Ok(rhs) => Ok(lhs.less_than(&rhs)),
                Err(err) => Err(err),
            },
            _ => Err(RuntimeError::InvalidOperand { func: '<', operand: self.kind() }),
        }
    }

    /// Whether the value is greater than `rhs`, which is converted to the
    /// kind of the value.
    ///
    /// # Errors
    /// A left side that is no number, boolean or text is an invalid operand;
    /// a right side that is no literal cannot be converted.
    pub fn try_gth(&self, rhs: &Value) -> (res: Result<bool, RuntimeError>)
        ensures
            verdict(res) == self@.greater_than(rhs@),
    {
        match self {
            Value::Number(lhs) => match rhs.to_number() {
                Ok(rhs) => Ok(*lhs > rhs),
                Err(err) => Err(err),
            },
            Value::Boolean(lhs) => match rhs.to_boolean() {
                Ok(rhs) => Ok(*lhs && !rhs),
                Err(err) => Err(err),
            },
            Value::String(lhs) => match rhs.to_rcstring() {
                Ok(rhs) => Ok(rhs.less_than(lhs)),
                Err(err) => Err(err),
            },
            _ => Err(RuntimeError::InvalidOperand { func: '>', operand: self.kind() }),
        }
    }

    /// Whether the value and `rhs` are the same value: of the same kind and
    /// with the same content, argument by argument for calls.
    pub fn try_eql(&self, rhs: &Value) -> (res: Result<bool, RuntimeError>)
        ensures
            res matches Ok(same) && same == (self@ == rhs@),
    {
        Ok(self.same(rhs))
    }

    /// Whether the value and `other` are the same value.
    pub fn same(&self, other: &Value) -> (res: bool)
        ensures
            res == (self@ == other@),
        decreases self,
    {
        match (self, other) {
            (Value::Null, Value::Null) => true,
            (Value::Boolean(lhs), Value::Boolean(rhs)) => *lhs == *rhs,
            (Value::Number(lhs), Value::Number(rhs)) => *lhs == *rhs,
            (Value::String(lhs), Value::String(rhs)) => lhs.same(rhs),
            (Value::Variable(lhs), Value::Variable(rhs)) => lhs.same(rhs),
            (Value::Function(lfunc, largs), Value::Function(rfunc, rargs)) => {
                proof {
                    lemma_view_function(*lfunc, *largs);
                    lemma_view_function(*rfunc, *rargs);
                    assert(self@ == ValueView::Function(lfunc@, views(largs@)));
                    assert(other@ == ValueView::Function(rfunc@, views(rargs@)));
                }
                if lfunc.name() != rfunc.name() || largs.len() != rargs.len() {
                    proof {
                        assert(views(largs@).len() == largs@.len());
                        assert(views(rargs@).len() == rargs@.len());
                    }
                    return false;
                }
                let mut index: usize = 0;
                while index < largs.len()
                    invariant
                        index <= largs@.len() == rargs@.len(),
                        lfunc@ == rfunc@,
                        self@ == ValueView::Function(lfunc@, views(largs@)),
                        other@ == ValueView::Function(rfunc@, views(rargs@)),
                        forall|i: int| 0 <= i < index ==> largs@[i]@ == rargs@[i]@,
                        forall|i: int|
                            0 <= i < largs@.len() ==> decreases_to!(self => #[trigger] largs@[i]),
                    decreases largs@.len() - index,
                {
                    if !largs[index].same(&rargs[index]) {
                        proof {
                            assert(views(largs@)[index as int] != views(rargs@)[index as int]);
                        }
                        return false;
                    }
                    index = index + 1;
                }
                proof {
                    assert(views(largs@) =~= views(rargs@));
                }
                true
            },
            _ => false,
        }
    }

    /// Assigns `value` to the variable that this value is.
    ///
    /// # Errors
    /// A value that is no variable is an invalid operand; a variable of
    /// another environment is an unknown identifier here.
    pub fn try_assign(&self, value: Value, env: &mut Environment) -> (res: Result<
        (),
        RuntimeError,
    >)
        ensures
            match res {
                Ok(()) => old(env)@.owns(self@->Variable_0) && self@ is Variable,
                Err(err) => self@.assigned(value@, old(env)@).0 == Err::<(), RuntimeErrorView>(err@),
            },
            final(env)@ == self@.assigned(value@, old(env)@).1,
    {
        match self {
            Value::Variable(variable) => {
                if env.assign(variable, value) {
                    Ok(())
                } else {
                    Err(
                        RuntimeError::UnknownIdentifier {
                            identifier: String::from_str(variable.name()),
                        },
                    )
                }
            },
            _ => Err(RuntimeError::InvalidOperand { func: '=', operand: self.kind() }),
        }
    }
}

/// The debug form of a value: `Null()`, `Boolean(true)`, `Number(5)`,
/// `String(abc)`, `Variable(name)`, and for a call the function's name and
/// the debug forms of its arguments, as in `Function(+, [Number(1), Number(2)])`.
pub open spec fn spec_dump(value: ValueView) -> Seq<char>
    decreases value, 0nat,
{
    match value {
        ValueView::Null => "Null()"@,
        ValueView::Boolean(boolean) => if boolean {
            "Boolean(true)"@
        } else {
            "Boolean(false)"@
        },
        ValueView::Number(number) => "Number("@ + decimal_text(number) + ")"@,
        ValueView::String(text) => "String("@ + text + ")"@,
        ValueView::Variable(variable) => "Variable("@ + variable.name + ")"@,
        ValueView::Function(name, args) => "Function("@.push(name) + ", ["@ + spec_dump_list(
            args,
            args.len(),
        ) + "])"@,
    }
}

/// The debug forms of the first `count` values of `values`, with a comma and
/// a space between each two.
pub open spec fn spec_dump_list(values: Seq<ValueView>, count: nat) -> Seq<char>
    decreases values, count,
{
    if count == 0 || count > values.len() {
        Seq::empty()
    } else if count == 1 {
        spec_dump(values[0])
    } else {
        spec_dump_list(values, (count - 1) as nat) + ", "@ + spec_dump(values[count - 1])
    }
}

impl Value {
    /// The debug form of the value.
    pub fn dump(&self) -> (res: String)
        ensures
            res@ == spec_dump(self@),
        decreases self,
    {
        match self {
            Value::Null => String::from_str("Null()"),
            Value::Boolean(boolean) => if *boolean {
                String::from_str("Boolean(true)")
            } else {
                String::from_str("Boolean(false)")
            },
            Value::Number(number) => {
                let mut out = String::from_str("Number(");
                out.append(number_to_text(*number).as_str());
                out.append(")");
                out
            },
            Value::String(text) => {
                let mut out = String::from_str("String(");
                out.append(text.as_str());
                out.append(")");
                out
            },
            Value::Variable(variable) => {
                let mut out = String::from_str("Variable(");
                out.append(variable.name());
                out.append(")");
                out
            },
            Value::Function(func, args) => {
                proof {
                    lemma_view_function(*func, *args);
                }
                let mut out = String::from_str("Function(");
                out.push(func.name());
                out.append(", [");
                let ghost head = out@;
                let mut index: usize = 0;
                while index < args.len()
                    invariant
                        index <= args@.len(),
                        out@ == head + spec_dump_list(views(args@), index as nat),
                        forall|i: int|
                            0 <= i < args@.len() ==> decreases_to!(self => #[trigger] args@[i]),
                    decreases args@.len() - index,
                {
                    if index > 0 {
                        out.append(", ");
                    }
                    let piece = args[index].dump();
                    out.append(piece.as_str());
                    proof {
                        assert(out@ =~= head + spec_dump_list(views(args@), (index + 1) as nat));
                    }
                    index = index + 1;
                }
                out.append("])");
                out
            },
        }
    }
}

} // verus!
