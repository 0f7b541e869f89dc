//! The ways in which parsing and running Knight code can end early.

use crate::rcstring::InvalidChar;
use crate::value::Kind;
use vstd::prelude::*;

verus! {

/// The error type used to indicate an error whilst parsing Knight source code.
#[derive(Debug, Clone, Copy, PartialEq, Eq, Structural)]
pub enum ParseError {
    /// Indicates that the end of stream was reached before a value could be parsed.
    NothingToParse,
    /// Indicates that an invalid character was encountered.
    UnknownTokenStart {
        /// The invalid character that was encountered.
        chr: char,
        /// The line that the invalid character occurred on.
        line: usize,
    },
    /// A starting quote was found without an associated ending quote.
    UnterminatedQuote {
        /// The line number the string started on.
        line: usize,
    },
    /// A function was parsed, but one of its arguments was not able to be parsed.
    MissingFunctionArgument {
        /// The function whose argument is missing.
        func: char,
        /// The argument number.
        number: usize,
        /// The line number the function started on.
        line: usize,
    },
    /// An invalid character was encountered in a text literal.
    InvalidString {
        /// The line whence the string started.
        line: usize,
        /// The error itself.
        err: InvalidChar,
    },
}

/// An error occurred whilst executing a Knight program.
#[derive(Debug, PartialEq, Eq)]
pub enum RuntimeError {
    /// A division (or modulus) by zero was attempted.
    DivisionByZero {
        /// Whether or not its a modulus error.
        modulo: bool,
    },
    /// An unknown identifier was attempted to be dereferenced.
    UnknownIdentifier {
        /// The identifier at fault.
        identifier: String,
    },
    /// A function was executed with an invalid operand.
    InvalidOperand {
        /// The function that was attempted.
        func: char,
        /// The kind of the operand.
        operand: Kind,
    },
    /// A value was asked for a conversion that its kind does not have.
    UndefinedConversion {
        /// The kind that was asked for.
        into: Kind,
        /// The kind of the value.
        kind: Kind,
    },
    /// Exit with the given status code. This is no failure: the program asked
    /// to end.
    Quit(i32),
    /// An error occurred whilst parsing (i.e. `EVAL` failed).
    Parse(ParseError),
    /// A text from outside the program held an invalid character.
    InvalidString(InvalidChar),
    /// The host could not do what the program asked of it (i.e. `` ` `` or
    /// `PROMPT` failed); the message is the host's.
    Io(String),
}

/// What a [`RuntimeError`] says, over plain sequences.
pub enum RuntimeErrorView {
    DivisionByZero { modulo: bool },
    UnknownIdentifier { identifier: Seq<char> },
    InvalidOperand { func: char, operand: Kind },
    UndefinedConversion { into: Kind, kind: Kind },
    Quit(i32),
    Parse(ParseError),
    InvalidString(InvalidChar),
    Io(Seq<char>),
}

impl View for RuntimeError {
    type V = RuntimeErrorView;

    open spec fn view(&self) -> RuntimeErrorView {
        match self {
            RuntimeError::DivisionByZero { modulo } => RuntimeErrorView::DivisionByZero {
                modulo: *modulo,
            },
            RuntimeError::UnknownIdentifier { identifier } => RuntimeErrorView::UnknownIdentifier {
                identifier: identifier@,
            },
            RuntimeError::InvalidOperand { func, operand } => RuntimeErrorView::InvalidOperand {
                func: *func,
                operand: *operand,
            },
            RuntimeError::UndefinedConversion { into, kind } => {
                RuntimeErrorView::UndefinedConversion { into: *into, kind: *kind }
            },
            RuntimeError::Quit(code) => RuntimeErrorView::Quit(*code),
            RuntimeError::Parse(err) => RuntimeErrorView::Parse(*err),
            RuntimeError::InvalidString(err) => RuntimeErrorView::InvalidString(*err),
            RuntimeError::Io(message) => RuntimeErrorView::Io(message@),
        }
    }
}

impl Clone for RuntimeError {
    fn clone(&self) -> (res: Self)
        ensures
            res@ == self@,
    {
        match self {
            RuntimeError::DivisionByZero { modulo } => RuntimeError::DivisionByZero {
                modulo: *modulo,
            },
            RuntimeError::UnknownIdentifier { identifier } => RuntimeError::UnknownIdentifier {
                identifier: identifier.clone(),
            },
            RuntimeError::InvalidOperand { func, operand } => RuntimeError::InvalidOperand {
                func: *func,
                operand: *operand,
            },
            RuntimeError::UndefinedConversion { into, kind } => RuntimeError::UndefinedConversion {
                into: *into,
                kind: *kind,
            },
            RuntimeError::Quit(code) => RuntimeError::Quit(*code),
            RuntimeError::Parse(err) => RuntimeError::Parse(*err),
            RuntimeError::InvalidString(err) => RuntimeError::InvalidString(*err),
            RuntimeError::Io(message) => RuntimeError::Io(message.clone()),
        }
    }
}

impl From<ParseError> for RuntimeError {
    fn from(err: ParseError) -> (res: Self) {
        RuntimeError::Parse(err)
    }
}

impl vstd::std_specs::convert::FromSpecImpl<ParseError> for RuntimeError {
    open spec fn obeys_from_spec() -> bool {
        true
    }

    open spec fn from_spec(err: ParseError) -> Self {
        RuntimeError::Parse(err)
    }
}

impl From<InvalidChar> for RuntimeError {
    fn from(err: InvalidChar) -> (res: Self) {
        RuntimeError::InvalidString(err)
    }
}

impl vstd::std_specs::convert::FromSpecImpl<InvalidChar> for RuntimeError {
    open spec fn obeys_from_spec() -> bool {
        true
    }

    open spec fn from_spec(err: InvalidChar) -> Self {
        RuntimeError::InvalidString(err)
    }
}

impl RuntimeError {
    /// Whether this is the request to end the program rather than a failure.
    pub fn is_quit(&self) -> (res: bool)
        ensures
            res == (self@ is Quit),
    {
        match self {
            RuntimeError::Quit(_) => true,
            _ => false,
        }
    }
}

} // verus!
