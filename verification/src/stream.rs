//! Parsing Knight source code.
//!
//! The parser reads one expression at a time from a [`Stream`] of characters.
//! What it reads is stated by [`spec_parse`], a function of the text, the
//! position in it and the environment, so that everything the executable
//! parser does can be held against it.

use crate::decimal::decimal;
use crate::decimal::digit_number;
use crate::decimal::lemma_decimal_push;
use crate::environment::Environment;
use crate::environment::EnvironmentView;
use crate::environment::lemma_intern;
use crate::environment::variable::Variable;
use crate::environment::variable::VariableView;
use crate::error::ParseError;
use crate::function::Function;
use crate::function::arity_of;
use crate::number::Number;
use crate::number::lemma_wrap;
use crate::number::lemma_wrap_add;
use crate::number::lemma_wrap_mul;
use crate::number::product;
use crate::number::sum;
use crate::number::wrap;
use crate::rcstring::RcString;
use crate::rcstring::valid_text;
use crate::scan::Class;
use crate::scan::find_quote;
use crate::scan::invalid_char;
use crate::scan::is_digit;
use crate::scan::is_whitespace;
use crate::scan::lemma_find_quote;
use crate::scan::lemma_find_quote_step;
use crate::scan::lemma_invalid_char;
use crate::scan::lemma_line_at_next;
use crate::scan::lemma_line_end;
use crate::scan::lemma_run_end;
use crate::scan::lemma_run_end_unique;
use crate::scan::line_at;
use crate::scan::line_end;
use crate::scan::run_end;
use crate::value::Value;
use crate::value::ValueView;
use crate::value::lemma_view_function;
use crate::value::views;
use std::rc::Rc;
use vstd::prelude::*;

verus! {

/// What parsing gives: the value or the error, the position that the stream
/// is left at, and the environment, which has learned the variables that
/// were read.
pub struct Parsed {
    pub result: Result<ValueView, ParseError>,
    pub pos: int,
    pub env: EnvironmentView,
}

/// The number of the line that position `pos` of `text` lies on, counted
/// from 1 and held to the largest number that a machine can count to.
pub open spec fn line_number(text: Seq<char>, pos: int) -> usize {
    if line_at(text, pos) <= usize::MAX {
        line_at(text, pos) as usize
    } else {
        usize::MAX
    }
}

/// A character that starts a variable's name.
pub open spec fn is_name_start(chr: char) -> bool {
    ('a' <= chr && chr <= 'z') || chr == '_'
}

/// An upper-case letter: a function of such a name may be written as a
/// keyword.
pub open spec fn is_upper(chr: char) -> bool {
    'A' <= chr && chr <= 'Z'
}

/// A character that opens and closes a text.
pub open spec fn is_quote(chr: char) -> bool {
    chr == '\'' || chr == '"'
}

/// Where the next token starts: the first position at or after `pos` that is
/// neither white space nor part of a comment, which runs from `#` to the end
/// of its line.
pub open spec fn skip_blank(text: Seq<char>, pos: int) -> int
    decreases text.len() - pos,
{
    if 0 <= pos < text.len() {
        if is_whitespace(text[pos]) {
            skip_blank(text, pos + 1)
        } else if text[pos] == '#' {
            proof {
                lemma_line_end(text, pos);
            }
            skip_blank(text, line_end(text, pos))
        } else {
            pos
        }
    } else {
        pos
    }
}

/// The number literal that starts at `start`: the longest run of digits.
pub open spec fn spec_number(text: Seq<char>, start: int) -> (int, int) {
    let end = run_end(text, start, Class::Digit);
    (wrap(decimal(text.subrange(start, end))), end)
}

/// The text literal that starts with the quote at `start`: everything up to
/// the next quote of the same kind, as it stands.
pub open spec fn spec_string(text: Seq<char>, start: int) -> (Result<Seq<char>, ParseError>, int) {
    let line = line_number(text, start);
    match find_quote(text, start + 1, text[start]) {
        None => (Err(ParseError::UnterminatedQuote { line }), text.len() as int),
        Some(close) => {
            let body = text.subrange(start + 1, close);
            if valid_text(body) {
                (Ok(body), close + 1)
            } else {
                (Err(ParseError::InvalidString { line, err: invalid_char(body) }), close + 1)
            }
        },
    }
}

/// Where the token of the function named `name` at `start` ends: a function
/// with an upper-case name may be followed by more upper-case letters and
/// underscores, which mean nothing.
pub open spec fn after_name(text: Seq<char>, start: int, name: char) -> int {
    if is_upper(name) {
        run_end(text, start + 1, Class::Word)
    } else {
        start + 1
    }
}

/// The next expression of `text` at or after `pos`.
///
/// After white space and comments, the first character decides: a digit
/// starts a number, a lower-case letter or an underscore a variable, `T` and
/// `F` are the booleans and `N` is null, a quote starts a text, and anything
/// else must name a function, whose arguments follow. At the end of the text
/// there is nothing to parse.
pub open spec fn spec_parse(text: Seq<char>, pos: int, env: EnvironmentView) -> Parsed
    decreases text.len() - pos, 0nat,
{
    let start = skip_blank(text, pos);
    if !(0 <= pos <= start < text.len()) {
        Parsed { result: Err(ParseError::NothingToParse), pos: start, env }
    } else {
        let chr = text[start];
        let line = line_number(text, start);
        if is_digit(chr) {
            let (number, end) = spec_number(text, start);
            Parsed { result: Ok(ValueView::Number(number)), pos: end, env }
        } else if is_name_start(chr) {
            let end = run_end(text, start, Class::Name);
            let (variable, env) = env.intern(text.subrange(start, end));
            Parsed { result: Ok(ValueView::Variable(variable)), pos: end, env }
        } else if chr == 'T' || chr == 'F' {
            Parsed {
                result: Ok(ValueView::Boolean(chr == 'T')),
                pos: run_end(text, start + 1, Class::Word),
                env,
            }
        } else if chr == 'N' {
            Parsed { result: Ok(ValueView::Null), pos: run_end(text, start + 1, Class::Word), env }
        } else if is_quote(chr) {
            let (body, end) = spec_string(text, start);
            match body {
                Ok(body) => Parsed { result: Ok(ValueView::String(body)), pos: end, env },
                Err(err) => Parsed { result: Err(err), pos: end, env },
            }
        } else {
            match arity_of(chr) {
                None => Parsed {
                    result: Err(ParseError::UnknownTokenStart { chr, line }),
                    pos: start,
                    env,
                },
                Some(arity) => {
                    proof {
                        lemma_run_end(text, start + 1, Class::Word);
                    }
                    spec_parse_args(
                        text,
                        after_name(text, start, chr),
                        env,
                        chr,
                        line,
                        arity,
                        Seq::empty(),
                    )
                },
            }
        }
    }
}

/// The call of the function `func` whose first arguments, `done`, have been
/// parsed, and whose other arguments follow at `pos`, up to `arity` in all.
///
/// An argument that is missing because the text ends is reported with the
/// function's name, the argument's number and the `line` that the function
/// stands on; any other error of an argument is the error of the call. (The
/// test that an argument does not end before it starts is there for the
/// definition's sake: [`lemma_parse_bounds`] shows that it always holds.)
pub open spec fn spec_parse_args(
    text: Seq<char>,
    pos: int,
    env: EnvironmentView,
    func: char,
    line: usize,
    arity: nat,
    done: Seq<ValueView>,
) -> Parsed
    decreases text.len() - pos, 1 + arity - done.len(),
{
    if done.len() >= arity {
        Parsed { result: Ok(ValueView::Function(func, done)), pos, env }
    } else {
        let arg = spec_parse(text, pos, env);
        match arg.result {
            Ok(value) => if pos <= arg.pos <= text.len() {
                spec_parse_args(text, arg.pos, arg.env, func, line, arity, done.push(value))
            } else {
                arg
            },
            Err(ParseError::NothingToParse) => Parsed {
                result: Err(
                    ParseError::MissingFunctionArgument { func, number: done.len() as usize, line },
                ),
                pos: arg.pos,
                env: arg.env,
            },
            Err(_) => arg,
        }
    }
}

/// The next token starts at or after the position, within the text, and at a
/// character that is neither white space nor the start of a comment.
pub proof fn lemma_skip_blank(text: Seq<char>, pos: int)
    requires
        0 <= pos <= text.len(),
    ensures
        pos <= skip_blank(text, pos) <= text.len(),
        skip_blank(text, pos) < text.len() ==> !is_whitespace(text[skip_blank(text, pos)])
            && text[skip_blank(text, pos)] != '#',
    decreases text.len() - pos,
{
    if pos < text.len() {
        if is_whitespace(text[pos]) {
            lemma_skip_blank(text, pos + 1);
        } else if text[pos] == '#' {
            lemma_line_end(text, pos);
            lemma_skip_blank(text, line_end(text, pos));
        }
    }
}

/// White space that is skipped in one go is white space skipped one by one.
proof fn lemma_skip_blank_run(text: Seq<char>, pos: int)
    requires
        0 <= pos <= text.len(),
    ensures
        skip_blank(text, pos) == skip_blank(text, run_end(text, pos, Class::Whitespace)),
    decreases text.len() - pos,
{
    if pos < text.len() && is_whitespace(text[pos]) {
        lemma_skip_blank_run(text, pos + 1);
    }
}

/// Parsing never moves backward nor past the end of the text, and an
/// expression takes at least one character.
pub proof fn lemma_parse_bounds(text: Seq<char>, pos: int, env: EnvironmentView)
    requires
        0 <= pos <= text.len(),
    ensures
        pos <= spec_parse(text, pos, env).pos <= text.len(),
        spec_parse(text, pos, env).result is Ok ==> pos < spec_parse(text, pos, env).pos,
    decreases text.len() - pos, 0nat,
{
    lemma_skip_blank(text, pos);
    let start = skip_blank(text, pos);
    if start < text.len() {
        let chr = text[start];
        lemma_run_end(text, start, Class::Digit);
        lemma_run_end(text, start, Class::Name);
        lemma_run_end(text, start + 1, Class::Word);
        lemma_find_quote(text, start + 1, chr);
        if !is_digit(chr) && !is_name_start(chr) && chr != 'T' && chr != 'F' && chr != 'N'
            && !is_quote(chr) {
            match arity_of(chr) {
                None => {},
                Some(arity) => {
                    lemma_parse_args_bounds(
                        text,
                        after_name(text, start, chr),
                        env,
                        chr,
                        line_number(text, start),
                        arity,
                        Seq::empty(),
                    );
                },
            }
        }
    }
}

/// Parsing the arguments of a call never moves backward nor past the end of
/// the text.
pub proof fn lemma_parse_args_bounds(
    text: Seq<char>,
    pos: int,
    env: EnvironmentView,
    func: char,
    line: usize,
    arity: nat,
    done: Seq<ValueView>,
)
    requires
        0 <= pos <= text.len(),
    ensures
        pos <= spec_parse_args(text, pos, env, func, line, arity, done).pos <= text.len(),
    decreases text.len() - pos, 1 + arity - done.len(),
{
    if done.len() < arity {
        lemma_parse_bounds(text, pos, env);
        let arg = spec_parse(text, pos, env);
        if arg.result is Ok {
            lemma_parse_args_bounds(
                text,
                arg.pos,
                arg.env,
                func,
                line,
                arity,
                done.push(arg.result->Ok_0),
            );
        }
    }
}

/// Digits denote a natural number.
pub proof fn lemma_decimal_bounds(digits: Seq<char>)
    requires
        forall|i: int| 0 <= i < digits.len() ==> is_digit(#[trigger] digits[i]),
    ensures
        0 <= decimal(digits),
    decreases digits.len(),
{
    if digits.len() > 0 {
        assert forall|i: int| 0 <= i < digits.drop_last().len() implies is_digit(
            #[trigger] digits.drop_last()[i],
        ) by {
            assert(digits.drop_last()[i] == digits[i]);
        }
        lemma_decimal_bounds(digits.drop_last());
        assert(is_digit(digits.last()));
    }
}

/// A text of digits alone parses to the number that the digits denote, as
/// long as that number is one that the number type holds. (A greater one is
/// wrapped, as [`spec_number`] says.) The parser reads the whole text and
/// leaves the environment as it is.
pub proof fn lemma_parse_digits(text: Seq<char>, env: EnvironmentView)
    requires
        text.len() > 0,
        forall|i: int| 0 <= i < text.len() ==> is_digit(#[trigger] text[i]),
        decimal(text) <= i64::MAX,
    ensures
        spec_parse(text, 0, env) == (Parsed {
            result: Ok(ValueView::Number(decimal(text))),
            pos: text.len() as int,
            env,
        }),
{
    assert(is_digit(text[0]));
    assert(skip_blank(text, 0) == 0);
    assert forall|i: int| 0 <= i < text.len() implies Class::Digit.holds(#[trigger] text[i]) by {
        assert(is_digit(text[i]));
    }
    lemma_run_end_unique(text, 0, Class::Digit, text.len() as int);
    assert(text.subrange(0, text.len() as int) =~= text);
    lemma_decimal_bounds(text);
    lemma_wrap(decimal(text));
}

/// Parsing keeps the names of an environment distinct, and it keeps the
/// variables and what they hold: it only adds variables, unassigned.
pub proof fn lemma_parse_keeps_wf(text: Seq<char>, pos: int, env: EnvironmentView)
    requires
        env.wf(),
    ensures
        spec_parse(text, pos, env).env.wf(),
        spec_parse(text, pos, env).env.id == env.id,
        env.holds_well_formed() ==> spec_parse(text, pos, env).env.holds_well_formed(),
        forall|variable: VariableView|
            env.owns(variable) ==> spec_parse(text, pos, env).env.owns(variable) && spec_parse(
                text,
                pos,
                env,
            ).env.fetch(variable) == env.fetch(variable),
    decreases text.len() - pos, 0nat,
{
    let start = skip_blank(text, pos);
    if 0 <= pos <= start < text.len() {
        let chr = text[start];
        if is_digit(chr) {
        } else if is_name_start(chr) {
            lemma_intern(env, text.subrange(start, run_end(text, start, Class::Name)));
        } else if chr == 'T' || chr == 'F' || chr == 'N' || is_quote(chr) {
        } else {
            match arity_of(chr) {
                None => {},
                Some(arity) => {
                    lemma_run_end(text, start + 1, Class::Word);
                    lemma_parse_args_keep_wf(
                        text,
                        after_name(text, start, chr),
                        env,
                        chr,
                        line_number(text, start),
                        arity,
                        Seq::empty(),
                    );
                },
            }
        }
    }
}

/// Parsing the arguments of a call keeps the names of an environment
/// distinct.
pub proof fn lemma_parse_args_keep_wf(
    text: Seq<char>,
    pos: int,
    env: EnvironmentView,
    func: char,
    line: usize,
    arity: nat,
    done: Seq<ValueView>,
)
    requires
        env.wf(),
    ensures
        spec_parse_args(text, pos, env, func, line, arity, done).env.wf(),
        spec_parse_args(text, pos, env, func, line, arity, done).env.id == env.id,
        env.holds_well_formed() ==> spec_parse_args(
            text,
            pos,
            env,
            func,
            line,
            arity,
            done,
        ).env.holds_well_formed(),
        forall|variable: VariableView|
            env.owns(variable) ==> spec_parse_args(text, pos, env, func, line, arity, done).env.owns(
                variable,
            ) && spec_parse_args(text, pos, env, func, line, arity, done).env.fetch(variable)
                == env.fetch(variable),
    decreases text.len() - pos, 1 + arity - done.len(),
{
    if done.len() < arity {
        lemma_parse_keeps_wf(text, pos, env);
        let arg = spec_parse(text, pos, env);
        if arg.result is Ok && pos <= arg.pos <= text.len() {
            lemma_parse_args_keep_wf(
                text,
                arg.pos,
                arg.env,
                func,
                line,
                arity,
                done.push(arg.result->Ok_0),
            );
        }
    }
}

/// What the parser gives is well formed: every call in it has as many
/// arguments as its function takes.
pub proof fn lemma_parse_well_formed(text: Seq<char>, pos: int, env: EnvironmentView)
    ensures
        spec_parse(text, pos, env).result matches Ok(value) ==> value.well_formed(),
    decreases text.len() - pos, 0nat,
{
    let start = skip_blank(text, pos);
    if 0 <= pos <= start < text.len() {
        let chr = text[start];
        if !is_digit(chr) && !is_name_start(chr) && chr != 'T' && chr != 'F' && chr != 'N'
            && !is_quote(chr) {
            match arity_of(chr) {
                None => {},
                Some(arity) => {
                    lemma_run_end(text, start + 1, Class::Word);
                    lemma_parse_args_well_formed(
                        text,
                        after_name(text, start, chr),
                        env,
                        chr,
                        line_number(text, start),
                        arity,
                        Seq::empty(),
                    );
                },
            }
        }
    }
}

/// The call that the parser gives is well formed if the arguments that were
/// parsed before are.
pub proof fn lemma_parse_args_well_formed(
    text: Seq<char>,
    pos: int,
    env: EnvironmentView,
    func: char,
    line: usize,
    arity: nat,
    done: Seq<ValueView>,
)
    requires
        arity_of(func) == Some(arity),
        done.len() <= arity,
        forall|i: int| 0 <= i < done.len() ==> (#[trigger] done[i]).well_formed(),
    ensures
        spec_parse_args(text, pos, env, func, line, arity, done).result matches Ok(value)
            ==> value.well_formed(),
    decreases text.len() - pos, 1 + arity - done.len(),
{
    if done.len() < arity {
        lemma_parse_well_formed(text, pos, env);
        let arg = spec_parse(text, pos, env);
        if arg.result is Ok && pos <= arg.pos <= text.len() {
            lemma_parse_args_well_formed(
                text,
                arg.pos,
                arg.env,
                func,
                line,
                arity,
                done.push(arg.result->Ok_0),
            );
        }
    }
}

/// A stream of characters with a cursor, which counts the lines that it has
/// passed.
#[derive(Debug)]
pub struct Stream {
    chars: Vec<char>,
    pos: usize,
    newlines: usize,
    read: bool,
}

/// What a [`Stream`] is: its text, the position of its cursor, and whether
/// the cursor can move back. The line that the cursor is on is no part of
/// it: it follows from the text and the position (see [`line_number`]).
pub struct StreamView {
    pub chars: Seq<char>,
    pub pos: int,
    /// Whether the last thing that was done with the stream was to read a
    /// character with [`next`](Stream::next). Then, and only then, the
    /// cursor can move back over that character.
    pub read: bool,
}

impl View for Stream {
    type V = StreamView;

    closed spec fn view(&self) -> StreamView {
        StreamView { chars: self.chars@, pos: self.pos as int, read: self.read }
    }
}

/// What the parser returned and left behind, as [`spec_parse`] states it.
pub open spec fn parsed(res: Result<Value, ParseError>, pos: int, env: EnvironmentView) -> Parsed {
    Parsed {
        result: match res {
            Ok(value) => Ok(value@),
            Err(err) => Err(err),
        },
        pos,
        env,
    }
}

/// The characters of `input`, one by one.
pub fn chars_of(input: &str) -> (res: Vec<char>)
    ensures
        res@ == input@,
{
    let mut chars: Vec<char> = Vec::new();
    for chr in it: input.chars()
        invariant
            it.seq() == input@,
            chars@ == input@.take(it.index() as int),
    {
        chars.push(chr);
        assert(chars@ =~= input@.take(it.index() + 1));
    }
    assert(chars@ =~= input@);
    chars
}

impl Stream {
    /// The number of line feeds that the stream holds its cursor to have
    /// passed.
    pub closed spec fn spec_newlines(&self) -> usize {
        self.newlines
    }

    /// The cursor lies within the text, the stream has counted the line
    /// feeds before the cursor, and a character that has just been read lies
    /// before the cursor.
    pub open spec fn wf(&self) -> bool {
        &&& 0 <= self@.pos <= self@.chars.len()
        &&& self.spec_newlines() + 1 == line_at(self@.chars, self@.pos)
        &&& self@.read ==> self@.pos > 0
    }

    /// Whether this is the stream `before` with its cursor at `pos`, after
    /// something else than the reading of one character: the cursor cannot
    /// move back.
    pub open spec fn follows(&self, before: &Stream, pos: int) -> bool {
        &&& self.wf()
        &&& self@.chars == before@.chars
        &&& self@.pos == pos
        &&& !self@.read
    }

    /// The character at the cursor, if the cursor is not at the end.
    pub open spec fn spec_peek(&self) -> Option<char> {
        if 0 <= self@.pos < self@.chars.len() {
            Some(self@.chars[self@.pos])
        } else {
            None
        }
    }

    /// A stream over `chars` with its cursor at the start, on line 1.
    /// Nothing has been read yet.
    pub fn new(chars: Vec<char>) -> (res: Self)
        ensures
            res.wf(),
            res@ == (StreamView { chars: chars@, pos: 0, read: false }),
    {
        proof {
            assert(chars@.take(0) =~= Seq::<char>::empty());
        }
        Stream { chars, pos: 0, newlines: 0, read: false }
    }

    /// The line that the cursor is on, counted from 1.
    pub fn line(&self) -> (res: usize)
        requires
            self.wf(),
        ensures
            res == line_number(self@.chars, self@.pos),
    {
        if self.newlines < usize::MAX {
            self.newlines + 1
        } else {
            usize::MAX
        }
    }

    /// Whether the cursor can move back: whether the last thing that was
    /// done with the stream was to read a character.
    pub fn can_rewind(&self) -> (res: bool)
        ensures
            res == self@.read,
    {
        self.read
    }

    /// The position of the cursor in the text.
    pub fn position(&self) -> (res: usize)
        ensures
            res == self@.pos,
    {
        self.pos
    }

    /// Moves the cursor over one character.
    fn advance(&mut self)
        requires
            old(self).wf(),
            old(self)@.pos < old(self)@.chars.len(),
        ensures
            final(self).follows(old(self), old(self)@.pos + 1),
    {
        proof {
            lemma_line_at_next(self@.chars, self@.pos);
        }
        // The cursor lies before the end, and the end is a `usize`: the
        // cursor can move on.
        let end = self.chars.len();
        let chr = self.chars[self.pos];
        assert(self.pos < end);
        self.pos = self.pos + 1;
        if chr == '\n' {
            self.newlines = self.newlines + 1;
        }
        self.read = false;
    }

    /// Reads the next character, if there is one. After a character has
    /// been read, the cursor can move back over it.
    pub fn next(&mut self) -> (res: Option<char>)
        requires
            old(self).wf(),
        ensures
            res == old(self).spec_peek(),
            final(self).wf(),
            final(self)@ == (StreamView {
                chars: old(self)@.chars,
                pos: if res is Some {
                    old(self)@.pos + 1
                } else {
                    old(self)@.pos
                },
                read: res is Some,
            }),
    {
        if self.pos < self.chars.len() {
            let chr = self.chars[self.pos];
            self.advance();
            self.read = true;
            Some(chr)
        } else {
            self.read = false;
            None
        }
    }

    /// Moves the cursor back over the character that has just been read, so
    /// that it is read again. This can be done once after a read: only one
    /// character is kept to go back to.
    pub fn rewind(&mut self)
        requires
            old(self).wf(),
            old(self)@.read,
        ensures
            final(self).follows(old(self), old(self)@.pos - 1),
    {
        proof {
            lemma_line_at_next(self@.chars, self@.pos - 1);
        }
        self.pos = self.pos - 1;
        if self.chars[self.pos] == '\n' {
            self.newlines = self.newlines - 1;
        }
        self.read = false;
    }

    /// The character before the cursor: the one that was read last.
    pub fn prev(&self) -> (res: Option<char>)
        requires
            self.wf(),
        ensures
            res == if self@.pos > 0 {
                Some(self@.chars[self@.pos - 1])
            } else {
                None
            },
    {
        if self.pos > 0 {
            Some(self.chars[self.pos - 1])
        } else {
            None
        }
    }

    /// The character that [`next`](Self::next) would read. To look ahead is
    /// not to read: the cursor cannot move back afterwards.
    pub fn peek(&mut self) -> (res: Option<char>)
        requires
            old(self).wf(),
        ensures
            res == old(self).spec_peek(),
            final(self).follows(old(self), old(self)@.pos),
    {
        self.read = false;
        if self.pos < self.chars.len() {
            Some(self.chars[self.pos])
        } else {
            None
        }
    }

    /// Moves the cursor to the end of the run of characters of `class` that
    /// starts at it.
    fn skip_run(&mut self, class: Class)
        requires
            old(self).wf(),
        ensures
            final(self).follows(old(self), run_end(old(self)@.chars, old(self)@.pos, class)),
            old(self)@.pos <= final(self)@.pos,
            (old(self)@.pos < final(self)@.pos) == (old(self).spec_peek() matches Some(chr)
                && class.holds(chr)),
    {
        self.read = false;
        proof {
            if self@.pos < self@.chars.len() {
                lemma_run_end(self@.chars, self@.pos + 1, class);
            }
        }
        while self.pos < self.chars.len() && class.contains(self.chars[self.pos])
            invariant
                self.wf(),
                !self@.read,
                self@.chars == old(self)@.chars,
                old(self)@.pos <= self@.pos,
                forall|i: int| old(self)@.pos <= i < self@.pos ==> class.holds(#[trigger] self@.chars[i]),
            decreases self@.chars.len() - self@.pos,
        {
            self.advance();
        }
        proof {
            lemma_run_end_unique(self@.chars, old(self)@.pos, class, self@.pos);
        }
    }

    /// Skips what follows the first letter of a keyword: upper-case letters
    /// and underscores.
    pub fn strip_word(&mut self)
        requires
            old(self).wf(),
        ensures
            final(self).follows(old(self), run_end(old(self)@.chars, old(self)@.pos, Class::Word)),
            old(self)@.pos <= final(self)@.pos,
    {
        self.skip_run(Class::Word)
    }

    /// Skips white space, if the stream is at white space; tells whether it
    /// was.
    pub fn try_whitespace(&mut self) -> (res: bool)
        requires
            old(self).wf(),
        ensures
            final(self).follows(
                old(self),
                run_end(old(self)@.chars, old(self)@.pos, Class::Whitespace),
            ),
            res == (old(self).spec_peek() matches Some(chr) && is_whitespace(chr)),
            res == (old(self)@.pos < final(self)@.pos),
    {
        let before = self.pos;
        self.skip_run(Class::Whitespace);
        self.pos > before
    }

    /// Skips the white space that the stream is at.
    pub fn whitespace_unchecked(&mut self)
        requires
            old(self).wf(),
            old(self).spec_peek() matches Some(chr) && is_whitespace(chr),
        ensures
            final(self).follows(
                old(self),
                run_end(old(self)@.chars, old(self)@.pos, Class::Whitespace),
            ),
            old(self)@.pos < final(self)@.pos,
    {
        self.skip_run(Class::Whitespace)
    }

    /// Skips a comment, if the stream is at one; tells whether it was.
    pub fn try_comment(&mut self) -> (res: bool)
        requires
            old(self).wf(),
        ensures
            res == (old(self).spec_peek() == Some('#')),
            final(self).follows(
                old(self),
                if res {
                    line_end(old(self)@.chars, old(self)@.pos)
                } else {
                    old(self)@.pos
                },
            ),
    {
        match self.peek() {
            Some('#') => {
                self.comment_unchecked();
                true
            },
            _ => false,
        }
    }

    /// Skips the comment that the stream is at, through the end of its line.
    pub fn comment_unchecked(&mut self)
        requires
            old(self).wf(),
            old(self).spec_peek() == Some('#'),
        ensures
            final(self).follows(old(self), line_end(old(self)@.chars, old(self)@.pos)),
            old(self)@.pos < final(self)@.pos,
    {
        self.read = false;
        proof {
            lemma_line_end(self@.chars, self@.pos);
        }
        while self.pos < self.chars.len()
            invariant
                self.wf(),
                !self@.read,
                self@.chars == old(self)@.chars,
                old(self)@.pos <= self@.pos,
                line_end(self@.chars, old(self)@.pos) == line_end(self@.chars, self@.pos),
                old(self)@.pos < line_end(self@.chars, old(self)@.pos),
            decreases self@.chars.len() - self@.pos,
        {
            let chr = self.chars[self.pos];
            self.advance();
            if chr == '\n' {
                return ;
            }
        }
    }

    /// Reads a number, if the stream is at a digit.
    pub fn try_number(&mut self) -> (res: Option<Number>)
        requires
            old(self).wf(),
        ensures
            res is Some == (old(self).spec_peek() matches Some(chr) && is_digit(chr)),
            res matches Some(number) ==> (number as int, final(self)@.pos) == spec_number(
                old(self)@.chars,
                old(self)@.pos,
            ),
            res is None ==> final(self)@.pos == old(self)@.pos,
            final(self).follows(old(self), final(self)@.pos),
    {
        match self.peek() {
            Some(chr) => if Class::Digit.contains(chr) {
                Some(self.number_unchecked())
            } else {
                None
            },
            None => None,
        }
    }

    /// Reads the number that the stream is at: the longest run of digits.
    pub fn number_unchecked(&mut self) -> (res: Number)
        requires
            old(self).wf(),
            old(self).spec_peek() matches Some(chr) && is_digit(chr),
        ensures
            (res as int, final(self)@.pos) == spec_number(old(self)@.chars, old(self)@.pos),
            final(self).follows(old(self), final(self)@.pos),
            old(self)@.pos < final(self)@.pos,
    {
        self.read = false;
        let mut number: Number = 0;
        proof {
            assert(self@.chars.subrange(self@.pos, self@.pos) =~= Seq::<char>::empty());
        }
        while self.pos < self.chars.len() && Class::Digit.contains(self.chars[self.pos])
            invariant
                self.wf(),
                !self@.read,
                self@.chars == old(self)@.chars,
                old(self)@.pos <= self@.pos,
                old(self)@.pos < self@.chars.len(),
                is_digit(self@.chars[old(self)@.pos]),
                self@.pos == old(self)@.pos ==> number == 0,
                forall|i: int| old(self)@.pos <= i < self@.pos ==> is_digit(#[trigger] self@.chars[i]),
                number == wrap(decimal(self@.chars.subrange(old(self)@.pos, self@.pos))),
            decreases self@.chars.len() - self@.pos,
        {
            let value = digit_number(self.chars[self.pos]);
            proof {
                let before = decimal(self@.chars.subrange(old(self)@.pos, self@.pos));
                lemma_decimal_push(self@.chars, old(self)@.pos, self@.pos);
                lemma_wrap_mul(before, 10);
                lemma_wrap_add(before * 10, value as int);
                lemma_wrap_add(wrap(before) * 10, value as int);
                lemma_wrap(value as int);
            }
            number = sum(product(number, 10), value);
            self.advance();
        }
        proof {
            lemma_run_end_unique(self@.chars, old(self)@.pos, Class::Digit, self@.pos);
        }
        number
    }

    /// Reads a variable, if the stream is at the start of a name.
    pub fn try_variable(&mut self, env: &mut Environment) -> (res: Option<Variable>)
        requires
            old(self).wf(),
        ensures
            res is Some == (old(self).spec_peek() matches Some(chr) && is_name_start(chr)),
            res matches Some(variable) ==> {
                &&& final(self)@.pos == run_end(old(self)@.chars, old(self)@.pos, Class::Name)
                &&& (variable@, final(env)@) == old(env)@.intern(
                    old(self)@.chars.subrange(old(self)@.pos, final(self)@.pos),
                )
            },
            res is None ==> final(self)@.pos == old(self)@.pos && final(env)@ == old(env)@,
            final(self).follows(old(self), final(self)@.pos),
    {
        match self.peek() {
            Some(chr) => if ('a' <= chr && chr <= 'z') || chr == '_' {
                Some(self.variable_unchecked(env))
            } else {
                None
            },
            None => None,
        }
    }

    /// Reads the variable whose name the stream is at: the longest run of
    /// lower-case letters, digits and underscores. The environment interns
    /// the name.
    pub fn variable_unchecked(&mut self, env: &mut Environment) -> (res: Variable)
        requires
            old(self).wf(),
            old(self).spec_peek() matches Some(chr) && is_name_start(chr),
        ensures
            final(self).follows(
                old(self),
                run_end(old(self)@.chars, old(self)@.pos, Class::Name),
            ),
            (res@, final(env)@) == old(env)@.intern(
                old(self)@.chars.subrange(old(self)@.pos, final(self)@.pos),
            ),
            old(self)@.pos < final(self)@.pos,
    {
        self.read = false;
        let mut name = String::new();
        proof {
            assert(self@.chars.subrange(self@.pos, self@.pos) =~= Seq::<char>::empty());
        }
        while self.pos < self.chars.len() && Class::Name.contains(self.chars[self.pos])
            invariant
                self.wf(),
                !self@.read,
                self@.chars == old(self)@.chars,
                old(self)@.pos <= self@.pos,
                old(self)@.pos < self@.chars.len(),
                is_name_start(self@.chars[old(self)@.pos]),
                forall|i: int|
                    old(self)@.pos <= i < self@.pos ==> Class::Name.holds(#[trigger] self@.chars[i]),
                name@ == self@.chars.subrange(old(self)@.pos, self@.pos),
            decreases self@.chars.len() - self@.pos,
        {
            name.push(self.chars[self.pos]);
            proof {
                assert(self@.chars.subrange(old(self)@.pos, self@.pos + 1) =~= self@.chars.subrange(
                    old(self)@.pos,
                    self@.pos,
                ).push(self@.chars[self@.pos]));
            }
            self.advance();
        }
        proof {
            lemma_run_end_unique(self@.chars, old(self)@.pos, Class::Name, self@.pos);
        }
        env.get(name.as_str())
    }

    /// Reads a text, if the stream is at a quote.
    pub fn try_string(&mut self) -> (res: Option<Result<RcString, ParseError>>)
        requires
            old(self).wf(),
        ensures
            res is Some == (old(self).spec_peek() matches Some(chr) && is_quote(chr)),
            res matches Some(text) ==> (text_view(text), final(self)@.pos) == spec_string(
                old(self)@.chars,
                old(self)@.pos,
            ),
            res is None ==> final(self)@.pos == old(self)@.pos,
            final(self).follows(old(self), final(self)@.pos),
    {
        match self.peek() {
            Some(chr) => if chr == '\'' || chr == '"' {
                Some(self.string_unchecked())
            } else {
                None
            },
            None => None,
        }
    }

    /// Reads the text whose opening quote the stream is at: everything up to
    /// the next quote of the same kind.
    ///
    /// # Errors
    /// The text may end before the closing quote, and what stands between
    /// the quotes may hold a character that no text can hold.
    pub fn string_unchecked(&mut self) -> (res: Result<RcString, ParseError>)
        requires
            old(self).wf(),
            old(self).spec_peek() matches Some(chr) && is_quote(chr),
        ensures
            (text_view(res), final(self)@.pos) == spec_string(old(self)@.chars, old(self)@.pos),
            final(self).follows(old(self), final(self)@.pos),
            old(self)@.pos < final(self)@.pos,
    {
        self.read = false;
        let line = self.line();
        let quote = self.chars[self.pos];
        self.advance();
        let mut body = String::new();
        proof {
            assert(self@.chars.subrange(self@.pos, self@.pos) =~= Seq::<char>::empty());
        }
        while self.pos < self.chars.len()
            invariant
                self.wf(),
                !self@.read,
                self@.chars == old(self)@.chars,
                old(self)@.pos < self@.pos,
                quote == self@.chars[old(self)@.pos],
                line == line_number(self@.chars, old(self)@.pos),
                forall|i: int| old(self)@.pos < i < self@.pos ==> #[trigger] self@.chars[i] != quote,
                body@ == self@.chars.subrange(old(self)@.pos + 1, self@.pos),
            decreases self@.chars.len() - self@.pos,
        {
            let chr = self.chars[self.pos];
            if chr == quote {
                proof {
                    lemma_find_quote_step(self@.chars, old(self)@.pos + 1, quote, self@.pos);
                }
                self.advance();
                return match RcString::new(body.as_str()) {
                    Ok(text) => Ok(text),
                    Err(err) => {
                        proof {
                            lemma_invalid_char(body@, err);
                        }
                        Err(ParseError::InvalidString { line, err })
                    },
                };
            }
            body.push(chr);
            proof {
                assert(self@.chars.subrange(old(self)@.pos + 1, self@.pos + 1)
                    =~= self@.chars.subrange(old(self)@.pos + 1, self@.pos).push(chr));
            }
            self.advance();
        }
        proof {
            lemma_find_quote_step(self@.chars, old(self)@.pos + 1, quote, self@.pos);
        }
        Err(ParseError::UnterminatedQuote { line })
    }

    /// Reads a boolean, if the stream is at `T` or `F`.
    pub fn try_boolean(&mut self) -> (res: Option<bool>)
        requires
            old(self).wf(),
        ensures
            res == match old(self).spec_peek() {
                Some('T') => Some(true),
                Some('F') => Some(false),
                _ => None,
            },
            final(self).follows(
                old(self),
                if res is Some {
                    run_end(old(self)@.chars, old(self)@.pos + 1, Class::Word)
                } else {
                    old(self)@.pos
                },
            ),
    {
        match self.peek() {
            Some(chr) => if chr == 'T' || chr == 'F' {
                Some(self.boolean_unchecked())
            } else {
                None
            },
            None => None,
        }
    }

    /// Reads the boolean that the stream is at: `T` or `F`, and what follows
    /// it of a keyword.
    pub fn boolean_unchecked(&mut self) -> (res: bool)
        requires
            old(self).wf(),
            old(self).spec_peek() matches Some(chr) && (chr == 'T' || chr == 'F'),
        ensures
            res == (old(self).spec_peek() == Some('T')),
            final(self).follows(
                old(self),
                run_end(old(self)@.chars, old(self)@.pos + 1, Class::Word),
            ),
            old(self)@.pos < final(self)@.pos,
    {
        let chr = self.chars[self.pos];
        self.advance();
        self.strip_word();
        chr == 'T'
    }

    /// Reads null, if the stream is at `N`; tells whether it was.
    pub fn try_null(&mut self) -> (res: bool)
        requires
            old(self).wf(),
        ensures
            res == (old(self).spec_peek() == Some('N')),
            final(self).follows(
                old(self),
                if res {
                    run_end(old(self)@.chars, old(self)@.pos + 1, Class::Word)
                } else {
                    old(self)@.pos
                },
            ),
    {
        match self.peek() {
            Some('N') => {
                self.null_unchecked();
                true
            },
            _ => false,
        }
    }

    /// Reads the null that the stream is at: `N`, and what follows it of a
    /// keyword.
    pub fn null_unchecked(&mut self)
        requires
            old(self).wf(),
            old(self).spec_peek() == Some('N'),
        ensures
            final(self).follows(
                old(self),
                run_end(old(self)@.chars, old(self)@.pos + 1, Class::Word),
            ),
            old(self)@.pos < final(self)@.pos,
    {
        self.advance();
        self.strip_word();
    }
}

impl Stream {
    /// Skips white space and comments: moves the cursor to the start of the
    /// next token, or to the end of the text.
    pub fn skip_blank(&mut self)
        requires
            old(self).wf(),
        ensures
            final(self).follows(old(self), skip_blank(old(self)@.chars, old(self)@.pos)),
            old(self)@.pos <= final(self)@.pos,
    {
        self.read = false;
        while self.pos < self.chars.len() && starts_blank(self.chars[self.pos])
            invariant
                self.wf(),
                !self@.read,
                self@.chars == old(self)@.chars,
                old(self)@.pos <= self@.pos,
                skip_blank(self@.chars, old(self)@.pos) == skip_blank(self@.chars, self@.pos),
            decreases self@.chars.len() - self@.pos,
        {
            if self.chars[self.pos] == '#' {
                self.comment_unchecked();
            } else {
                proof {
                    lemma_skip_blank_run(self@.chars, self@.pos);
                }
                self.whitespace_unchecked();
            }
        }
    }

    /// Reads the arguments of the function `func`, whose name has just been
    /// read, and gives the call.
    ///
    /// # Errors
    /// An argument that is missing because the text ends is reported as
    /// missing, with the line that the stream was on when it was asked; any
    /// other error of an argument is returned as it is.
    pub fn function(&mut self, func: Function, env: &mut Environment) -> (res: Result<
        Value,
        ParseError,
    >)
        requires
            old(self).wf(),
        ensures
            final(self).follows(old(self), final(self)@.pos),
            old(self)@.pos <= final(self)@.pos,
            parsed(res, final(self)@.pos, final(env)@) == spec_parse_args(
                old(self)@.chars,
                if is_upper(func@) {
                    run_end(old(self)@.chars, old(self)@.pos, Class::Word)
                } else {
                    old(self)@.pos
                },
                old(env)@,
                func@,
                line_number(old(self)@.chars, old(self)@.pos),
                arity_of(func@)->Some_0,
                Seq::empty(),
            ),
        decreases old(self)@.chars.len() - old(self)@.pos, 1nat,
    {
        self.read = false;
        let line = self.line();
        let name = func.name();
        let arity = func.arity();
        if 'A' <= name && name <= 'Z' {
            self.strip_word();
        }
        let mut args: Vec<Value> = Vec::with_capacity(arity);
        let ghost start = self@.pos;
        let ghost env0 = env@;
        proof {
            assert(views(args@) =~= Seq::<ValueView>::empty());
        }
        while args.len() < arity
            invariant
                self.wf(),
                !self@.read,
                self@.chars == old(self)@.chars,
                old(self)@.pos <= self@.pos,
                args@.len() <= arity,
                name == func@,
                line == line_number(old(self)@.chars, old(self)@.pos),
                arity_of(func@) == Some(arity as nat),
                env0 == old(env)@,
                start == if is_upper(func@) {
                    run_end(old(self)@.chars, old(self)@.pos, Class::Word)
                } else {
                    old(self)@.pos
                },
                spec_parse_args(
                    self@.chars,
                    start,
                    env0,
                    name,
                    line,
                    arity as nat,
                    Seq::empty(),
                ) == spec_parse_args(
                    self@.chars,
                    self@.pos,
                    env@,
                    name,
                    line,
                    arity as nat,
                    views(args@),
                ),
            decreases arity - args.len(),
        {
            let ghost before = self@.pos;
            let ghost done = views(args@);
            match self.parse(env) {
                Ok(value) => {
                    args.push(value);
                    proof {
                        assert(views(args@) =~= done.push(value@));
                    }
                },
                Err(ParseError::NothingToParse) => {
                    return Err(
                        ParseError::MissingFunctionArgument { func: name, number: args.len(), line },
                    );
                },
                Err(other) => {
                    return Err(other);
                },
            }
        }
        let args = Rc::new(args);
        proof {
            lemma_view_function(func, args);
        }
        Ok(Value::Function(func, args))
    }

    /// Reads the next expression.
    ///
    /// # Errors
    /// See [`ParseError`]: the text may end where an expression, an argument
    /// or a closing quote is due, a token may start with a character that
    /// starts none, and a text may hold a character that no text can hold.
    pub fn parse(&mut self, env: &mut Environment) -> (res: Result<Value, ParseError>)
        requires
            old(self).wf(),
        ensures
            final(self).follows(old(self), final(self)@.pos),
            old(self)@.pos <= final(self)@.pos,
            parsed(res, final(self)@.pos, final(env)@) == spec_parse(
                old(self)@.chars,
                old(self)@.pos,
                old(env)@,
            ),
        decreases old(self)@.chars.len() - old(self)@.pos, 0nat,
    {
        proof {
            lemma_skip_blank(self@.chars, self@.pos);
        }
        self.skip_blank();
        let chr = match self.peek() {
            Some(chr) => chr,
            None => {
                return Err(ParseError::NothingToParse);
            },
        };
        if Class::Digit.contains(chr) {
            Ok(Value::Number(self.number_unchecked()))
        } else if ('a' <= chr && chr <= 'z') || chr == '_' {
            Ok(Value::Variable(self.variable_unchecked(env)))
        } else if chr == 'T' || chr == 'F' {
            Ok(Value::Boolean(self.boolean_unchecked()))
        } else if chr == 'N' {
            self.null_unchecked();
            Ok(Value::Null)
        } else if chr == '\'' || chr == '"' {
            match self.string_unchecked() {
                Ok(text) => Ok(Value::String(text)),
                Err(err) => Err(err),
            }
        } else {
            match Function::fetch(chr) {
                Some(func) => {
                    proof {
                        lemma_line_at_next(self@.chars, self@.pos);
                    }
                    self.advance();
                    self.function(func, env)
                },
                None => Err(ParseError::UnknownTokenStart { chr, line: self.line() }),
            }
        }
    }
}

/// Whether `chr` is white space or starts a comment.
fn starts_blank(chr: char) -> (res: bool)
    ensures
        res == (is_whitespace(chr) || chr == '#'),
{
    chr == '#' || Class::Whitespace.contains(chr)
}

impl Value {
    /// Parses the first expression of `input` within the context of `env`.
    ///
    /// This function simply calls [`parse`](Value::parse) with the characters
    /// of `input`; see it for more details.
    pub fn parse_str(input: &str, env: &mut Environment) -> (res: Result<Self, ParseError>)
        ensures
            parsed(res, spec_parse(input@, 0, old(env)@).pos, final(env)@) == spec_parse(
                input@,
                0,
                old(env)@,
            ),
    {
        Value::parse(chars_of(input), env)
    }

    /// Parses the first expression of `input` within the context of `env`:
    /// the variables that the expression names are variables of `env`.
    ///
    /// # Errors
    /// This function returns any errors that occur whilst parsing; see
    /// [`ParseError`]'s variants for what conditions can cause errors.
    pub fn parse(input: Vec<char>, env: &mut Environment) -> (res: Result<Self, ParseError>)
        ensures
            parsed(res, spec_parse(input@, 0, old(env)@).pos, final(env)@) == spec_parse(
                input@,
                0,
                old(env)@,
            ),
    {
        let mut stream = Stream::new(input);
        stream.parse(env)
    }
}

/// The view of a text that was read, or the error.
pub open spec fn text_view(res: Result<RcString, ParseError>) -> Result<Seq<char>, ParseError> {
    match res {
        Ok(text) => Ok(text@),
        Err(err) => Err(err),
    }
}


} // verus!
