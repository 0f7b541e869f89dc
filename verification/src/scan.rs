//! Runs of characters: where the longest stretch of characters of one class
//! ends. Texts and source code are both read in such runs (blanks, digits,
//! names, keywords).

use crate::rcstring::first_invalid;
use crate::rcstring::valid_char;
use crate::rcstring::valid_text;
use crate::rcstring::InvalidChar;
use vstd::prelude::*;

verus! {

/// The first character of `text` that a text may not hold, with its index.
/// This says something only of a text that holds such a character.
pub open spec fn invalid_char(text: Seq<char>) -> InvalidChar {
    let idx = run_end(text, 0, Class::Legal);
    InvalidChar { chr: text[idx], idx: idx as usize }
}

/// There is one way only to describe the first illegal character of a text.
pub proof fn lemma_invalid_char(text: Seq<char>, err: InvalidChar)
    requires
        first_invalid(text, err),
    ensures
        err == invalid_char(text),
        !valid_text(text),
{
    assert forall|i: int| 0 <= i < err.idx implies Class::Legal.holds(#[trigger] text[i]) by {
        assert(text.take(err.idx as int)[i] == text[i]);
    }
    lemma_run_end_unique(text, 0, Class::Legal, err.idx as int);
}

/// A decimal digit.
pub open spec fn is_digit(chr: char) -> bool {
    '0' <= chr && chr <= '9'
}

/// A character that may stand in a variable's name.
pub open spec fn is_name_char(chr: char) -> bool {
    ('a' <= chr && chr <= 'z') || is_digit(chr) || chr == '_'
}

/// A character that continues a keyword.
pub open spec fn is_word_char(chr: char) -> bool {
    ('A' <= chr && chr <= 'Z') || chr == '_'
}

/// White space in front of a number in a text.
pub open spec fn is_blank(chr: char) -> bool {
    chr == ' ' || chr == '\t' || chr == '\n' || chr == '\r'
}

/// A character of source code that separates tokens and means nothing.
pub open spec fn is_whitespace(chr: char) -> bool {
    is_blank(chr) || chr == '(' || chr == ')' || chr == '[' || chr == ']' || chr == '{' || chr
        == '}' || chr == ':'
}

/// The classes of characters that are read in runs.
#[derive(Debug, Clone, Copy, PartialEq, Eq, Structural)]
pub enum Class {
    /// Decimal digits.
    Digit,
    /// Characters of a variable's name.
    Name,
    /// Characters that continue a keyword.
    Word,
    /// White space in front of a number in a text.
    Blank,
    /// Characters between the tokens of source code.
    Whitespace,
    /// Characters that a text may hold.
    Legal,
}

impl Class {
    /// Whether `chr` belongs to the class.
    pub open spec fn holds(self, chr: char) -> bool {
        match self {
            Class::Digit => is_digit(chr),
            Class::Name => is_name_char(chr),
            Class::Word => is_word_char(chr),
            Class::Blank => is_blank(chr),
            Class::Whitespace => is_whitespace(chr),
            Class::Legal => valid_char(chr),
        }
    }
}

impl Class {
    /// Tells whether `chr` belongs to the class.
    pub fn contains(self, chr: char) -> (res: bool)
        ensures
            res == self.holds(chr),
    {
        match self {
            Class::Digit => '0' <= chr && chr <= '9',
            Class::Name => ('a' <= chr && chr <= 'z') || ('0' <= chr && chr <= '9') || chr == '_',
            Class::Word => ('A' <= chr && chr <= 'Z') || chr == '_',
            Class::Blank => chr == ' ' || chr == '\t' || chr == '\n' || chr == '\r',
            Class::Whitespace => chr == ' ' || chr == '\t' || chr == '\n' || chr == '\r' || chr
                == '(' || chr == ')' || chr == '[' || chr == ']' || chr == '{' || chr == '}' || chr
                == ':',
            Class::Legal => crate::rcstring::is_valid_char(chr),
        }
    }
}

/// Where the longest run of characters of class `class` that starts at
/// `from` ends: the first position at or after `from` that holds no such
/// character, or the end of `text`.
pub open spec fn run_end(text: Seq<char>, from: int, class: Class) -> int
    decreases text.len() - from,
{
    if 0 <= from < text.len() && class.holds(text[from]) {
        run_end(text, from + 1, class)
    } else {
        from
    }
}

/// A run ends at or after its start and within the text, holds only
/// characters of its class, and cannot be made longer.
pub proof fn lemma_run_end(text: Seq<char>, from: int, class: Class)
    requires
        0 <= from <= text.len(),
    ensures
        from <= run_end(text, from, class) <= text.len(),
        forall|i: int| from <= i < run_end(text, from, class) ==> class.holds(#[trigger] text[i]),
        run_end(text, from, class) < text.len() ==> !class.holds(text[run_end(text, from, class)]),
    decreases text.len() - from,
{
    if from < text.len() && class.holds(text[from]) {
        lemma_run_end(text, from + 1, class);
    }
}

/// The end of a run is the only position with the three properties of
/// [`lemma_run_end`].
pub proof fn lemma_run_end_unique(
    text: Seq<char>,
    from: int,
    class: Class,
    end: int,
)
    requires
        0 <= from <= end <= text.len(),
        forall|i: int| from <= i < end ==> class.holds(#[trigger] text[i]),
        end < text.len() ==> !class.holds(text[end]),
    ensures
        run_end(text, from, class) == end,
    decreases end - from,
{
    if from < end {
        assert(class.holds(text[from]));
        lemma_run_end_unique(text, from + 1, class, end);
    }
}

/// The position just after the next line feed at or after `from`, or the end
/// of `text` when no line feed follows.
pub open spec fn line_end(text: Seq<char>, from: int) -> int
    decreases text.len() - from,
{
    if 0 <= from < text.len() {
        if text[from] == '\n' {
            from + 1
        } else {
            line_end(text, from + 1)
        }
    } else {
        from
    }
}

/// A line ends after its start and within the text.
pub proof fn lemma_line_end(text: Seq<char>, from: int)
    requires
        0 <= from <= text.len(),
    ensures
        from <= line_end(text, from) <= text.len(),
        from < text.len() ==> from < line_end(text, from),
        forall|i: int| from <= i < line_end(text, from) - 1 ==> #[trigger] text[i] != '\n',
        line_end(text, from) < text.len() ==> text[line_end(text, from) - 1] == '\n',
    decreases text.len() - from,
{
    if from < text.len() && text[from] != '\n' {
        lemma_line_end(text, from + 1);
    }
}

/// A search for a quote finds the first one at or after its start, or finds
/// none because there is none.
pub proof fn lemma_find_quote(text: Seq<char>, from: int, quote: char)
    requires
        0 <= from <= text.len(),
    ensures
        match find_quote(text, from, quote) {
            Some(at) => from <= at < text.len() && text[at] == quote && forall|i: int|
                from <= i < at ==> #[trigger] text[i] != quote,
            None => forall|i: int| from <= i < text.len() ==> #[trigger] text[i] != quote,
        },
    decreases text.len() - from,
{
    if from < text.len() && text[from] != quote {
        lemma_find_quote(text, from + 1, quote);
    }
}

/// A search for a quote that is entered further on finds the same.
pub proof fn lemma_find_quote_step(text: Seq<char>, from: int, quote: char, mid: int)
    requires
        0 <= from <= mid <= text.len(),
        forall|i: int| from <= i < mid ==> #[trigger] text[i] != quote,
    ensures
        find_quote(text, from, quote) == find_quote(text, mid, quote),
    decreases mid - from,
{
    if from < mid {
        assert(text[from] != quote);
        lemma_find_quote_step(text, from + 1, quote, mid);
    }
}

/// The position of the first `quote` at or after `from`, if there is one.
pub open spec fn find_quote(text: Seq<char>, from: int, quote: char) -> Option<int>
    decreases text.len() - from,
{
    if 0 <= from < text.len() {
        if text[from] == quote {
            Some(from)
        } else {
            find_quote(text, from + 1, quote)
        }
    } else {
        None
    }
}

/// How many line feeds `text` holds.
pub open spec fn count_newlines(text: Seq<char>) -> nat
    decreases text.len(),
{
    if text.len() == 0 {
        0
    } else {
        count_newlines(text.drop_last()) + if text.last() == '\n' {
            1nat
        } else {
            0nat
        }
    }
}

/// The line that position `pos` of `text` lies on, counted from 1.
pub open spec fn line_at(text: Seq<char>, pos: int) -> nat {
    1 + count_newlines(text.take(pos))
}

/// A text holds at most as many line feeds as characters.
pub proof fn lemma_count_newlines_bound(text: Seq<char>)
    ensures
        count_newlines(text) <= text.len(),
    decreases text.len(),
{
    if text.len() > 0 {
        lemma_count_newlines_bound(text.drop_last());
    }
}

/// Moving one character on adds a line exactly when that character is a
/// line feed.
pub proof fn lemma_line_at_next(text: Seq<char>, pos: int)
    requires
        0 <= pos < text.len(),
    ensures
        line_at(text, pos + 1) == line_at(text, pos) + if text[pos] == '\n' {
            1nat
        } else {
            0nat
        },
        line_at(text, pos) <= pos + 1,
{
    assert(text.take(pos + 1).drop_last() =~= text.take(pos));
    lemma_count_newlines_bound(text.take(pos));
}

} // verus!
