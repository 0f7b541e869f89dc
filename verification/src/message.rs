//! What errors say to the user.
//!
//! Characters and names are written between quotes, with what is not
//! printable ASCII escaped: the usual escapes for tab, carriage return, line
//! feed, the quotes and the backslash, and `\u{..}` with the character's
//! number in hexadecimal for everything else.

use crate::decimal::decimal_text;
use crate::decimal::digits_of;
use crate::decimal::number_to_text;
use crate::decimal::push_digits;
use crate::error::ParseError;
use crate::error::RuntimeError;
use crate::error::RuntimeErrorView;
use crate::rcstring::InvalidChar;
use vstd::prelude::*;

verus! {

/// The hexadecimal digit that stands for `value`.
pub open spec fn hex_char(value: int) -> char {
    if value == 0 {
        '0'
    } else if value == 1 {
        '1'
    } else if value == 2 {
        '2'
    } else if value == 3 {
        '3'
    } else if value == 4 {
        '4'
    } else if value == 5 {
        '5'
    } else if value == 6 {
        '6'
    } else if value == 7 {
        '7'
    } else if value == 8 {
        '8'
    } else if value == 9 {
        '9'
    } else if value == 10 {
        'a'
    } else if value == 11 {
        'b'
    } else if value == 12 {
        'c'
    } else if value == 13 {
        'd'
    } else if value == 14 {
        'e'
    } else {
        'f'
    }
}

/// The hexadecimal digits of a natural number, without leading zeros.
pub open spec fn hex_digits(n: int) -> Seq<char>
    decreases n,
{
    if n < 16 {
        seq![hex_char(n)]
    } else {
        hex_digits(n / 16).push(hex_char(n % 16))
    }
}

/// A character as it is written in a message.
pub open spec fn escaped(chr: char) -> Seq<char> {
    if chr == '\t' {
        seq!['\\', 't']
    } else if chr == '\r' {
        seq!['\\', 'r']
    } else if chr == '\n' {
        seq!['\\', 'n']
    } else if chr == '\'' || chr == '"' || chr == '\\' {
        seq!['\\', chr]
    } else if ' ' <= chr && chr <= '~' {
        seq![chr]
    } else {
        seq!['\\', 'u', '{'] + hex_digits(chr as int) + seq!['}']
    }
}

/// The characters of a text as they are written in a message.
pub open spec fn escaped_text(text: Seq<char>) -> Seq<char>
    decreases text.len(),
{
    if text.len() == 0 {
        Seq::empty()
    } else {
        escaped_text(text.drop_last()) + escaped(text.last())
    }
}

/// A character between single quotes.
pub open spec fn quoted_char(chr: char) -> Seq<char> {
    seq!['\''] + escaped(chr) + seq!['\'']
}

/// A text between double quotes.
pub open spec fn quoted_text(text: Seq<char>) -> Seq<char> {
    seq!['"'] + escaped_text(text) + seq!['"']
}

/// What an [`InvalidChar`] says.
pub open spec fn invalid_char_message(err: InvalidChar) -> Seq<char> {
    "invalid byte "@ + quoted_char(err.chr) + " found at position "@ + digits_of(err.idx as int)
}

/// What a [`ParseError`] says.
pub open spec fn parse_message(err: ParseError) -> Seq<char> {
    match err {
        ParseError::NothingToParse => "a token was expected."@,
        ParseError::UnknownTokenStart { chr, line } => "line "@ + digits_of(line as int)
            + ": unknown token start "@ + quoted_char(chr) + "."@,
        ParseError::UnterminatedQuote { line } => "line "@ + digits_of(line as int)
            + ": unterminated quote encountered."@,
        ParseError::MissingFunctionArgument { func, number, line } => "line "@ + digits_of(
            line as int,
        ) + ": missing argument "@ + digits_of(number as int) + " for function "@ + quoted_char(func)
            + "."@,
        ParseError::InvalidString { line, err } => "line "@ + digits_of(line as int) + ": "@
            + invalid_char_message(err),
    }
}

/// What a [`RuntimeError`] says.
pub open spec fn runtime_message(err: RuntimeErrorView) -> Seq<char> {
    match err {
        RuntimeErrorView::DivisionByZero { modulo } => if modulo {
            "invalid modulo by zero."@
        } else {
            "invalid divide by zero."@
        },
        RuntimeErrorView::UnknownIdentifier { identifier } => "identifier "@ + quoted_text(
            identifier,
        ) + " is undefined."@,
        RuntimeErrorView::InvalidOperand { func, operand } => "invalid operand kind "@
            + quoted_text(operand.spec_name()) + " for function "@ + quoted_char(func) + "."@,
        RuntimeErrorView::UndefinedConversion { into, kind } => "invalid conversion into "@
            + quoted_text(into.spec_name()) + " for kind "@ + quoted_text(kind.spec_name()) + "."@,
        RuntimeErrorView::Quit(code) => "exit with status "@ + decimal_text(code as int),
        RuntimeErrorView::Parse(err) => parse_message(err),
        RuntimeErrorView::InvalidString(err) => invalid_char_message(err),
        RuntimeErrorView::Io(message) => "i/o error: "@ + message,
    }
}

/// The hexadecimal digit of a value below sixteen.
fn hex_digit(value: u32) -> (res: char)
    requires
        value < 16,
    ensures
        res == hex_char(value as int),
{
    if value == 0 {
        '0'
    } else if value == 1 {
        '1'
    } else if value == 2 {
        '2'
    } else if value == 3 {
        '3'
    } else if value == 4 {
        '4'
    } else if value == 5 {
        '5'
    } else if value == 6 {
        '6'
    } else if value == 7 {
        '7'
    } else if value == 8 {
        '8'
    } else if value == 9 {
        '9'
    } else if value == 10 {
        'a'
    } else if value == 11 {
        'b'
    } else if value == 12 {
        'c'
    } else if value == 13 {
        'd'
    } else if value == 14 {
        'e'
    } else {
        'f'
    }
}

/// Writes the hexadecimal digits of `n` at the end of `out`.
fn push_hex(n: u32, out: &mut String)
    ensures
        final(out)@ == old(out)@ + hex_digits(n as int),
    decreases n,
{
    if n >= 16 {
        push_hex(n / 16, out);
    }
    out.push(hex_digit(n % 16));
    proof {
        assert(final(out)@ =~= old(out)@ + hex_digits(n as int));
    }
}

/// Writes a character at the end of `out` as it is written in a message.
pub fn push_escaped(chr: char, out: &mut String)
    ensures
        final(out)@ == old(out)@ + escaped(chr),
{
    if chr == '\t' {
        out.push('\\');
        out.push('t');
    } else if chr == '\r' {
        out.push('\\');
        out.push('r');
    } else if chr == '\n' {
        out.push('\\');
        out.push('n');
    } else if chr == '\'' || chr == '"' || chr == '\\' {
        out.push('\\');
        out.push(chr);
    } else if ' ' <= chr && chr <= '~' {
        out.push(chr);
    } else {
        out.push('\\');
        out.push('u');
        out.push('{');
        push_hex(chr as u32, out);
        out.push('}');
    }
    proof {
        assert(final(out)@ =~= old(out)@ + escaped(chr));
    }
}

/// Writes a character between single quotes at the end of `out`.
pub fn push_quoted_char(chr: char, out: &mut String)
    ensures
        final(out)@ == old(out)@ + quoted_char(chr),
{
    out.push('\'');
    push_escaped(chr, out);
    out.push('\'');
    proof {
        assert(final(out)@ =~= old(out)@ + quoted_char(chr));
    }
}

/// Writes a text between double quotes at the end of `out`.
pub fn push_quoted_text(text: &str, out: &mut String)
    ensures
        final(out)@ == old(out)@ + quoted_text(text@),
{
    out.push('"');
    let ghost head = out@;
    proof {
        assert(text@.take(0) =~= Seq::<char>::empty());
    }
    for chr in it: text.chars()
        invariant
            it.seq() == text@,
            out@ == head + escaped_text(text@.take(it.index() as int)),
    {
        push_escaped(chr, out);
        proof {
            let longer = text@.take(it.index() + 1);
            assert(longer.drop_last() =~= text@.take(it.index() as int));
            assert(longer.last() == chr);
            assert(out@ =~= head + escaped_text(longer));
        }
    }
    proof {
        assert(text@.take(text@.len() as int) =~= text@);
    }
    out.push('"');
    proof {
        assert(final(out)@ =~= old(out)@ + quoted_text(text@));
    }
}

/// Writes a count at the end of `out` in decimal notation.
fn push_count(count: usize, out: &mut String)
    ensures
        final(out)@ == old(out)@ + digits_of(count as int),
{
    push_digits(count as u64, out)
}

impl InvalidChar {
    /// Writes what the error says at the end of `out`.
    fn write(&self, out: &mut String)
        ensures
            final(out)@ == old(out)@ + invalid_char_message(*self),
    {
        out.append("invalid byte ");
        push_quoted_char(self.chr, out);
        out.append(" found at position ");
        push_count(self.idx, out);
        proof {
            assert(final(out)@ =~= old(out)@ + invalid_char_message(*self));
        }
    }

    /// What the error says.
    pub fn message(&self) -> (res: String)
        ensures
            res@ == invalid_char_message(*self),
    {
        let mut out = String::new();
        self.write(&mut out);
        proof {
            assert(out@ =~= invalid_char_message(*self));
        }
        out
    }
}

impl ParseError {
    /// What the error says.
    pub fn message(&self) -> (res: String)
        ensures
            res@ == parse_message(*self),
    {
        let mut out = String::new();
        match self {
            ParseError::NothingToParse => {
                out.append("a token was expected.");
            },
            ParseError::UnknownTokenStart { chr, line } => {
                out.append("line ");
                push_count(*line, &mut out);
                out.append(": unknown token start ");
                push_quoted_char(*chr, &mut out);
                out.append(".");
            },
            ParseError::UnterminatedQuote { line } => {
                out.append("line ");
                push_count(*line, &mut out);
                out.append(": unterminated quote encountered.");
            },
            ParseError::MissingFunctionArgument { func, number, line } => {
                out.append("line ");
                push_count(*line, &mut out);
                out.append(": missing argument ");
                push_count(*number, &mut out);
                out.append(" for function ");
                push_quoted_char(*func, &mut out);
                out.append(".");
            },
            ParseError::InvalidString { line, err } => {
                out.append("line ");
                push_count(*line, &mut out);
                out.append(": ");
                err.write(&mut out);
            },
        }
        proof {
            assert(out@ =~= parse_message(*self));
        }
        out
    }
}

impl RuntimeError {
    /// What the error says.
    pub fn message(&self) -> (res: String)
        ensures
            res@ == runtime_message(self@),
    {
        let mut out = String::new();
        match self {
            RuntimeError::DivisionByZero { modulo } => {
                if *modulo {
                    out.append("invalid modulo by zero.");
                } else {
                    out.append("invalid divide by zero.");
                }
            },
            RuntimeError::UnknownIdentifier { identifier } => {
                out.append("identifier ");
                push_quoted_text(identifier.as_str(), &mut out);
                out.append(" is undefined.");
            },
            RuntimeError::InvalidOperand { func, operand } => {
                out.append("invalid operand kind ");
                push_quoted_text(operand.name(), &mut out);
                out.append(" for function ");
                push_quoted_char(*func, &mut out);
                out.append(".");
            },
            RuntimeError::UndefinedConversion { into, kind } => {
                out.append("invalid conversion into ");
                push_quoted_text(into.name(), &mut out);
                out.append(" for kind ");
                push_quoted_text(kind.name(), &mut out);
                out.append(".");
            },
            RuntimeError::Quit(code) => {
                out.append("exit with status ");
                out.append(number_to_text(*code as i64).as_str());
            },
            RuntimeError::Parse(err) => {
                out.append(err.message().as_str());
            },
            RuntimeError::InvalidString(err) => {
                err.write(&mut out);
            },
            RuntimeError::Io(message) => {
                out.append("i/o error: ");
                out.append(message.as_str());
            },
        }
        proof {
            assert(out@ =~= runtime_message(self@));
        }
        out
    }
}

} // verus!
