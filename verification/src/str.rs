//! Limiting of strings by length, by width and by height.

use crate::iter::lemma_limit_keeps_to_budget;
use crate::iter::limit;
use crate::iter::weight;
use crate::iter::Limit;
use crate::str::trim_to_height::spec_lines;
use crate::str::trim_to_height::split_lines;
use crate::str::trim_to_height::texts;
use crate::str::trim_to_height::TrimToHeightIter;
use crate::str::trim_to_length::TrimToLengthIter;
use crate::str::trim_to_width::TrimToWidthIter;
use vstd::prelude::*;
use vstd::string::StringExecFns;
use vstd::utf8::encode_utf8;

pub use self::ellipsis::Ellipsis;

/// The texts that mark a cut: an [`Ellipsis`] says which one to use.
pub mod ellipsis;

pub mod trim_to_height;

pub mod trim_to_length;

pub mod trim_to_width;

verus! {

broadcast use vstd::string::group_string_axioms;

/// `String::push` of std adds one character at the end of a string.
pub assume_specification[ String::push ](text: &mut String, c: char)
    ensures
        final(text)@ == old(text)@.push(c),
;

/// Returns the characters of a string, in their order.
pub fn chars_of(text: &str) -> (chars: Vec<char>)
    ensures
        chars@ == text@,
{
    let mut chars: Vec<char> = Vec::new();
    let mut rest = text.chars();
    loop
        invariant
            chars@ + vstd::std_specs::iter::IteratorSpec::remaining(&rest) == text@,
            vstd::std_specs::iter::IteratorSpec::decrease(&rest) is Some,
        decreases vstd::std_specs::iter::IteratorSpec::decrease(&rest)->0,
    {
        match rest.next() {
            Some(c) => chars.push(c),
            None => return chars,
        }
    }
}

/// Returns the string that is made of some characters, in their order.
pub fn string_of(chars: &Vec<char>) -> (text: String)
    ensures
        text@ == chars@,
{
    let mut text = String::new();
    let mut done: usize = 0;
    while done < chars.len()
        invariant
            done <= chars.len(),
            text@ == chars@.take(done as int),
        decreases chars.len() - done,
    {
        text.push(chars[done]);
        done = done + 1;
    }
    text
}

/// Some lines as one text, with a line feed between each two of them.
pub open spec fn joined(lines: Seq<&str>) -> Seq<char>
    decreases lines.len(),
{
    if lines.len() == 0 {
        Seq::empty()
    } else if lines.len() == 1 {
        lines[0]@
    } else {
        joined(lines.drop_last()) + seq!['\n'] + lines.last()@
    }
}

/// Returns some lines as one text, with a line feed between each two of them.
pub fn join_lines(lines: &Vec<&str>) -> (text: String)
    ensures
        text@ == joined(lines@),
{
    let mut text = String::new();
    let mut done: usize = 0;
    proof {
        reveal_strlit("\n");
    }
    while done < lines.len()
        invariant
            done <= lines.len(),
            text@ == joined(lines@.take(done as int)),
            "\n"@ == seq!['\n'],
        decreases lines.len() - done,
    {
        if done > 0 {
            text.append("\n");
        }
        text.append(lines[done]);
        assert(lines@.take(done + 1).drop_last() =~= lines@.take(done as int));
        done = done + 1;
    }
    assert(lines@.take(done as int) =~= lines@);
    text
}

/// The room that some characters take, counted in bytes, is the length of
/// their encoding.
pub proof fn lemma_weight_in_bytes<E: Ellipsis>(text: Seq<char>)
    ensures
        weight::<TrimToLengthIter<E>>(text) == encode_utf8(text).len(),
    decreases text.len(),
{
    if text.len() > 0 {
        lemma_weight_in_bytes::<E>(text.drop_first());
    }
}

/// What trimming a text to a length in bytes yields: the text itself where
/// it is no longer than that, else what limiting its characters yields, each
/// counted by its length in bytes.
pub open spec fn trimmed_to_length<E: Ellipsis>(text: Seq<char>, length: nat) -> Seq<char> {
    if weight::<TrimToLengthIter<E>>(text) <= length {
        text
    } else {
        limit::<TrimToLengthIter<E>>(text, length)
    }
}

/// A text that was trimmed to a length takes no more bytes than that length.
pub proof fn lemma_trimmed_to_length_fits<E: Ellipsis>(text: Seq<char>, length: nat)
    ensures
        encode_utf8(trimmed_to_length::<E>(text, length)).len() <= length,
{
    lemma_weight_in_bytes::<E>(trimmed_to_length::<E>(text, length));
    lemma_limit_keeps_to_budget::<TrimToLengthIter<E>>(text, length);
}

/// What trimming a text to a width in columns yields: what limiting its
/// characters yields, each counted by its width.
pub open spec fn trimmed_to_width<E: Ellipsis>(text: Seq<char>, width: nat) -> Seq<char> {
    limit::<TrimToWidthIter<E>>(text, width)
}

/// What trimming a text to a height in lines yields: what limiting its lines
/// yields, joined again. Nothing is left of an empty text, nor at height zero.
///
/// The lines are those of `spec_lines`, and `split_lines` says what they hold.
pub open spec fn trimmed_to_height<E: Ellipsis>(text: &str, height: nat) -> Seq<char> {
    if text@.len() == 0 || height == 0 {
        Seq::empty()
    } else {
        joined(limit::<TrimToHeightIter<E>>(spec_lines(text), height))
    }
}

/// A trait for limiting strings.
///
/// Use [`trim_to_length()`][Limited::trim_to_length] to limit a string by its
/// length in bytes, [`trim_to_width()`][Limited::trim_to_width] to limit it by
/// the columns it takes on a screen, and
/// [`trim_to_height()`][Limited::trim_to_height] to limit it by its lines.
///
/// The [`Ellipsis`] says what marks a cut.
pub trait Limited {
    /// Returns a string limited by length.
    fn trim_to_length<E: Ellipsis>(&self, length: usize) -> String;

    /// Returns a string limited by width.
    fn trim_to_width<E: Ellipsis>(&self, width: usize) -> String;

    /// Returns a string limited by height.
    fn trim_to_height<E: Ellipsis>(&self, height: usize) -> String;
}

impl Limited for str {
    fn trim_to_length<E: Ellipsis>(&self, length: usize) -> (trimmed: String)
        ensures
            trimmed@ == trimmed_to_length::<E>(self@, length as nat),
    {
        proof {
            lemma_weight_in_bytes::<E>(self@);
        }
        // we know the length of a string in advance, so we can tell whether the value
        // fits into the given length, without having to iterate over its characters.
        if self.as_bytes().len() <= length {
            return self.to_owned();
        }
        let limited = TrimToLengthIter::<E>::new(chars_of(self)).limited(length);
        string_of(&limited.collect())
    }

    fn trim_to_width<E: Ellipsis>(&self, width: usize) -> (trimmed: String)
        ensures
            trimmed@ == trimmed_to_width::<E>(self@, width as nat),
    {
        let limited = TrimToWidthIter::<E>::new(chars_of(self)).limited(width);
        string_of(&limited.collect())
    }

    fn trim_to_height<E: Ellipsis>(&self, height: usize) -> (trimmed: String)
        ensures
            trimmed@ == trimmed_to_height::<E>(self, height as nat),
            texts(spec_lines(self)) == split_lines(self@),
    {
        let lines = TrimToHeightIter::<E>::new(self);
        if self.is_empty() || height == 0 {
            return String::new();
        }
        join_lines(&lines.limited(height).collect())
    }
}

} // verus!
