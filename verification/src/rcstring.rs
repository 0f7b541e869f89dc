//! The text type of Knight programs.
//!
//! A Knight text is an immutable, cheaply shared sequence of characters drawn
//! from a small legal set: carriage return, line feed, tab and printable ASCII.
//! Every [`RcString`] holds legal characters only; this is its type invariant.

use crate::support::share;
use std::rc::Rc;
use vstd::prelude::*;
use vstd::utf8::encode_utf8;
use vstd::utf8::is_ascii_chars;

verus! {

/// Whether `chr` may occur in a Knight text.
pub open spec fn valid_char(chr: char) -> bool {
    chr == '\r' || chr == '\n' || chr == '\t' || (' ' <= chr && chr <= '~')
}

/// Whether every character of `text` may occur in a Knight text.
pub open spec fn valid_text(text: Seq<char>) -> bool {
    forall|i: int| 0 <= i < text.len() ==> valid_char(#[trigger] text[i])
}

/// An error that indicates a character within a Knight text wasn't valid.
#[derive(Debug, Clone, Copy, PartialEq, Eq, Structural)]
pub struct InvalidChar {
    /// The character that was invalid.
    pub chr: char,
    /// The index of the invalid character in the given string.
    pub idx: usize,
}

/// Whether `err` describes the first illegal character of `text`.
pub open spec fn first_invalid(text: Seq<char>, err: InvalidChar) -> bool {
    &&& err.idx < text.len()
    &&& text[err.idx as int] == err.chr
    &&& !valid_char(err.chr)
    &&& valid_text(text.take(err.idx as int))
}

/// An offset or a count, held to a text of `len` characters: one that is
/// negative or past the end stands for the end.
pub open spec fn clamp(n: int, len: int) -> int {
    if n < 0 || n > len {
        len
    } else {
        n
    }
}

/// The part of `text` that starts at `start` and holds `count` characters,
/// both clamped to the text.
pub open spec fn spec_substring(text: Seq<char>, start: int, count: int) -> Seq<char> {
    let from = clamp(start, text.len() as int);
    let to = from + clamp(count, text.len() - from);
    text.subrange(from, to)
}

/// `text` with the `count` characters from `start` on replaced by
/// `replacement`, both clamped to the text.
pub open spec fn spec_substitute(
    text: Seq<char>,
    start: int,
    count: int,
    replacement: Seq<char>,
) -> Seq<char> {
    let from = clamp(start, text.len() as int);
    let to = from + clamp(count, text.len() - from);
    text.take(from) + replacement + text.skip(to)
}

/// `text` written `count` times in a row; nothing for a count below one.
pub open spec fn spec_repeat(text: Seq<char>, count: int) -> Seq<char>
    decreases count,
{
    if count <= 0 {
        Seq::empty()
    } else {
        spec_repeat(text, count - 1) + text
    }
}

/// Lexicographic order: whether `lhs` comes strictly before `rhs`.
pub open spec fn spec_less(lhs: Seq<char>, rhs: Seq<char>) -> bool
    decreases lhs.len(),
{
    if rhs.len() == 0 {
        false
    } else if lhs.len() == 0 {
        true
    } else if lhs[0] != rhs[0] {
        lhs[0] < rhs[0]
    } else {
        spec_less(lhs.drop_first(), rhs.drop_first())
    }
}

/// A text has at most as many characters as its UTF-8 encoding has bytes.
proof fn lemma_chars_within_bytes(chars: Seq<char>)
    ensures
        chars.len() <= encode_utf8(chars).len(),
    decreases chars.len(),
{
    if chars.len() > 0 {
        lemma_chars_within_bytes(chars.drop_first());
    }
}

/// Legal characters are ASCII.
proof fn lemma_valid_is_ascii(text: Seq<char>)
    requires
        valid_text(text),
    ensures
        is_ascii_chars(text),
{
    assert forall|i: int| 0 <= i < text.len() implies '\0' <= #[trigger] text[i] <= '\u{7f}' by {
        assert(valid_char(text[i]));
    }
}

/// Checks to see if `chr` is a valid Knight character.
pub fn is_valid_char(chr: char) -> (valid: bool)
    ensures
        valid == valid_char(chr),
{
    chr == '\r' || chr == '\n' || chr == '\t' || (' ' <= chr && chr <= '~')
}

/// Looks for the first character of `data` that a Knight text may not hold.
pub fn validate_string(data: &str) -> (res: Result<(), InvalidChar>)
    ensures
        res is Ok <==> valid_text(data@),
        res matches Err(err) ==> first_invalid(data@, err),
{
    proof {
        lemma_chars_within_bytes(data@);
    }
    let bound = data.as_bytes().len();
    let mut idx: usize = 0;
    for chr in it: data.chars()
        invariant
            it.seq() == data@,
            idx == it.index(),
            data@.len() <= bound,
            valid_text(data@.take(idx as int)),
    {
        if !is_valid_char(chr) {
            return Err(InvalidChar { chr, idx });
        }
        assert forall|i: int| 0 <= i < idx + 1 implies valid_char(
            #[trigger] data@.take(idx + 1)[i],
        ) by {
            if i < idx {
                assert(data@.take(idx as int)[i] == data@[i]);
            }
        }
        idx = idx + 1;
    }
    assert(data@.take(idx as int) =~= data@);
    Ok(())
}

/// The text type within Knight. Texts are compared, ordered and hashed by
/// their characters.
#[derive(Debug, PartialEq, Eq, PartialOrd, Ord, Hash)]
pub struct RcString {
    text: Rc<String>,
}

impl View for RcString {
    type V = Seq<char>;

    closed spec fn view(&self) -> Seq<char> {
        self.text@
    }
}

impl Clone for RcString {
    /// Another handle to the same text; nothing is copied.
    fn clone(&self) -> (res: Self)
        ensures
            res == *self,
    {
        proof {
            use_type_invariant(self);
        }
        RcString { text: share(&self.text) }
    }
}

impl Default for RcString {
    /// The empty text.
    fn default() -> (res: Self)
        ensures
            res@ == Seq::<char>::empty(),
    {
        RcString { text: Rc::new(String::new()) }
    }
}

impl RcString {
    /// Every `RcString` holds legal characters only.
    #[verifier::type_invariant]
    pub open spec fn is_valid(&self) -> bool {
        valid_text(self@)
    }

    /// Creates a new `RcString` with the given input string.
    ///
    /// # Errors
    /// If `string` contains a character which isn't valid in Knight source
    /// code, the first such character is returned with its index.
    pub fn new(string: &str) -> (res: Result<Self, InvalidChar>)
        ensures
            res is Ok <==> valid_text(string@),
            res matches Ok(text) ==> text@ == string@,
            res matches Err(err) ==> first_invalid(string@, err),
    {
        match validate_string(string) {
            Ok(()) => Ok(Self::new_unchecked(string)),
            Err(err) => Err(err),
        }
    }

    /// Creates a new `RcString` from a string that is known to be valid.
    pub fn new_unchecked(string: &str) -> (res: Self)
        requires
            valid_text(string@),
        ensures
            res@ == string@,
    {
        RcString { text: Rc::new(String::from_str(string)) }
    }

    /// Takes ownership of a string that is known to be valid.
    pub(crate) fn from_string(string: String) -> (res: Self)
        requires
            valid_text(string@),
        ensures
            res@ == string@,
    {
        RcString { text: Rc::new(string) }
    }

    /// Gets a reference to the contained string.
    pub fn as_str(&self) -> (res: &str)
        ensures
            res@ == self@,
            valid_text(res@),
            is_ascii_chars(res@),
    {
        proof {
            use_type_invariant(self);
            lemma_valid_is_ascii(self@);
        }
        self.text.as_str()
    }

    /// The number of characters of the text.
    pub fn len(&self) -> (res: usize)
        ensures
            res == self@.len(),
    {
        let text = self.as_str();
        proof {
            vstd::utf8::is_ascii_chars_encode_utf8(text@);
        }
        text.as_bytes().len()
    }

    /// Whether the text holds no character.
    pub fn is_empty(&self) -> (res: bool)
        ensures
            res == (self@.len() == 0),
    {
        self.len() == 0
    }

    /// The character at `index`.
    pub fn char_at(&self, index: usize) -> (res: char)
        requires
            index < self@.len(),
        ensures
            res == self@[index as int],
    {
        let text = self.as_str();
        let byte = text.get_ascii(index);
        proof {
            vstd::utf8::is_ascii_chars_nat_bound(text@);
            assert((text@[index as int] as nat) < 128);
        }
        byte as char
    }

    /// Whether two texts hold the same characters.
    pub fn same(&self, other: &RcString) -> (res: bool)
        ensures
            res == (self@ == other@),
    {
        *self.text == *other.text
    }

    /// The text followed by `other`.
    pub fn concat(&self, other: &RcString) -> (res: RcString)
        ensures
            res@ == self@ + other@,
    {
        let mut text = String::from_str(self.as_str());
        text.append(other.as_str());
        RcString::from_string(text)
    }

    /// The text written `count` times in a row; the empty text for a count
    /// below one.
    pub fn repeat(&self, count: i64) -> (res: RcString)
        ensures
            res@ == spec_repeat(self@, count as int),
    {
        let piece = self.as_str();
        let mut text = String::new();
        let mut done: i64 = 0;
        while done < count
            invariant
                0 <= done,
                done <= count || done == 0,
                piece@ == self@,
                valid_text(piece@),
                valid_text(text@),
                text@ == spec_repeat(self@, done as int),
            decreases count - done,
        {
            text.append(piece);
            done = done + 1;
        }
        RcString::from_string(text)
    }

    /// The part of the text that starts at `start` and holds `count`
    /// characters. Both are clamped to the text: a start or a count that is
    /// negative or reaches past the end stands for the end.
    pub fn substring(&self, start: i64, count: i64) -> (res: RcString)
        ensures
            res@ == spec_substring(self@, start as int, count as int),
    {
        let text = self.as_str();
        let len = self.len();
        let from = clamp_to(start, len);
        let to = from + clamp_to(count, len - from);
        RcString::new_unchecked(text.substring_ascii(from, to))
    }

    /// The text with the `count` characters from `start` on replaced by
    /// `replacement`. Start and count are clamped as in
    /// [`substring`](Self::substring).
    pub fn substitute(&self, start: i64, count: i64, replacement: &RcString) -> (res: RcString)
        ensures
            res@ == spec_substitute(self@, start as int, count as int, replacement@),
    {
        let text = self.as_str();
        let len = self.len();
        let from = clamp_to(start, len);
        let to = from + clamp_to(count, len - from);
        let mut out = String::from_str(text.substring_ascii(0, from));
        out.append(replacement.as_str());
        out.append(text.substring_ascii(to, len));
        proof {
            assert(self@.subrange(0, from as int) =~= self@.take(from as int));
            assert(self@.subrange(to as int, len as int) =~= self@.skip(to as int));
        }
        RcString::from_string(out)
    }

    /// Whether the text comes before `other` in lexicographic order.
    pub fn less_than(&self, other: &RcString) -> (res: bool)
        ensures
            res == spec_less(self@, other@),
    {
        let left = self.len();
        let right = other.len();
        let mut pos: usize = 0;
        proof {
            assert(self@.skip(0) =~= self@);
            assert(other@.skip(0) =~= other@);
        }
        while pos < left && pos < right
            invariant
                pos <= left == self@.len(),
                pos <= right == other@.len(),
                spec_less(self@, other@) == spec_less(self@.skip(pos as int), other@.skip(pos as int)),
            decreases left - pos,
        {
            let mine = self.char_at(pos);
            let theirs = other.char_at(pos);
            proof {
                assert(self@.skip(pos as int).drop_first() =~= self@.skip(pos + 1));
                assert(other@.skip(pos as int).drop_first() =~= other@.skip(pos + 1));
            }
            if mine != theirs {
                return mine < theirs;
            }
            pos = pos + 1;
        }
        pos < right
    }
}

/// Holds an offset or a count of a program to a text of `len` characters.
fn clamp_to(n: i64, len: usize) -> (res: usize)
    ensures
        res == clamp(n as int, len as int),
{
    if n < 0 {
        len
    } else if n as u64 > len as u64 {
        len
    } else {
        n as usize
    }
}

} // verus!
