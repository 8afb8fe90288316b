//! Lines, measured by their height.

use crate::iter::Limited;
use crate::str::ellipsis::Ellipsis;
use std::marker::PhantomData;
use std::str::Lines;
use vstd::prelude::*;

verus! {

broadcast use vstd::string::group_string_axioms;

/// The iterator over the lines of a string, of std.
#[verifier::external_type_specification]
#[verifier::external_body]
pub struct ExLines<'a>(std::str::Lines<'a>);

/// The lines that an iterator over lines has yet to yield, in order.
pub uninterp spec fn lines_left(lines: Lines<'_>) -> Seq<&str>;

/// The lines that `str::lines` yields for a text: its parts as they borrow
/// from the text. `split_lines` says what they hold.
pub uninterp spec fn spec_lines(text: &str) -> Seq<&str>;

/// The place of the first line feed in a text, or its length if it has none.
pub open spec fn first_line_end(text: Seq<char>) -> int
    decreases text.len(),
{
    if text.len() == 0 || text[0] == '\n' {
        0
    } else {
        1 + first_line_end(text.drop_first())
    }
}

/// A line without the line feed that ended it, and without the carriage
/// return before that line feed if there was one.
pub open spec fn without_line_end(line: Seq<char>) -> Seq<char> {
    if line.len() > 0 && line.last() == '\n' {
        let body = line.drop_last();
        if body.len() > 0 && body.last() == '\r' {
            body.drop_last()
        } else {
            body
        }
    } else {
        line
    }
}

/// The lines of a text. A line ends with a line feed, or with a carriage
/// return and a line feed, or where the text ends. The line ends are not
/// part of the lines, and nothing follows the last line end.
pub open spec fn split_lines(text: Seq<char>) -> Seq<Seq<char>>
    decreases text.len(),
{
    if text.len() == 0 {
        Seq::empty()
    } else {
        let end = first_line_end(text);
        if 0 <= end < text.len() {
            seq![without_line_end(text.take(end + 1))] + split_lines(text.skip(end + 1))
        } else {
            seq![text]
        }
    }
}

/// What each of some lines holds.
pub open spec fn texts(lines: Seq<&str>) -> Seq<Seq<char>> {
    lines.map_values(|line: &str| line@)
}

/// `str::lines` of std returns an iterator over the lines of a string, as
/// `split_lines` describes them.
#[verifier::external_body]
fn lines_of<'a>(text: &'a str) -> (lines: Lines<'a>)
    ensures
        lines_left(lines) == spec_lines(text),
        texts(lines_left(lines)) == split_lines(text@),
{
    text.lines()
}

/// `Lines::next` of std yields the next line, or `None` when there is none
/// left.
#[verifier::external_body]
fn next_line<'a>(lines: &mut Lines<'a>) -> (line: Option<&'a str>)
    ensures
        lines_left(*old(lines)).len() == 0 ==> line is None && lines_left(*final(lines))
            == lines_left(*old(lines)),
        lines_left(*old(lines)).len() > 0 ==> line == Some(lines_left(*old(lines))[0])
            && lines_left(*final(lines)) == lines_left(*old(lines)).drop_first(),
{
    lines.next()
}

/// The number of line feeds in a text.
pub open spec fn line_feeds(text: Seq<char>) -> nat
    decreases text.len(),
{
    if text.len() == 0 {
        0
    } else {
        line_feeds(text.drop_last()) + if text.last() == '\n' {
            1nat
        } else {
            0nat
        }
    }
}

/// The height of a block of text: none where it is empty, else one line
/// more than it has line feeds, as far as a `usize` can count.
pub open spec fn height(text: Seq<char>) -> usize {
    if text.len() == 0 {
        0
    } else if line_feeds(text) < usize::MAX {
        (line_feeds(text) + 1) as usize
    } else {
        usize::MAX
    }
}

/// A source of lines that are measured by their height, with one line that
/// holds the ellipsis `E` as the marker.
pub struct TrimToHeightIter<'a, E> {
    lines: Lines<'a>,
    ellipses: PhantomData<E>,
}

impl<'a, E> TrimToHeightIter<'a, E> {
    /// The lines that are left in this source.
    pub closed spec fn unread(&self) -> Seq<&'a str> {
        lines_left(self.lines)
    }

    /// Returns a new [`TrimToHeightIter`] over the lines of a string.
    pub fn new(s: &'a str) -> (iter: Self)
        ensures
            iter.unread() == spec_lines(s),
            texts(iter.unread()) == split_lines(s@),
    {
        Self { lines: lines_of(s), ellipses: PhantomData }
    }
}

/// Lines can be limited with an [`Ellipsis`].
impl<'a, E: Ellipsis> Limited for TrimToHeightIter<'a, E> {
    type Item = &'a str;

    open spec fn remaining(&self) -> Seq<&'a str> {
        self.unread()
    }

    open spec fn spec_contd() -> Seq<&'a str> {
        seq![E::spec_ellipsis()]
    }

    /// Counts lines according to their height.
    open spec fn spec_element_size(item: &'a str) -> usize {
        height(item@)
    }

    fn next_item(&mut self) -> (item: Option<&'a str>) {
        next_line(&mut self.lines)
    }

    fn contd() -> (marker: Vec<&'a str>) {
        let mut marker: Vec<&'a str> = Vec::new();
        marker.push(E::ellipsis());
        marker
    }

    fn element_size(item: &&'a str) -> (size: usize) {
        if item.is_empty() {
            return 0;
        }
        let mut size: usize = 1;
        let mut rest = item.chars();
        let ghost mut seen: Seq<char> = Seq::empty();
        loop
            invariant
                item@.len() > 0,
                seen + vstd::std_specs::iter::IteratorSpec::remaining(&rest) == item@,
                vstd::std_specs::iter::IteratorSpec::decrease(&rest) is Some,
                line_feeds(seen) < usize::MAX ==> size == line_feeds(seen) + 1,
                line_feeds(seen) >= usize::MAX ==> size == usize::MAX,
            decreases vstd::std_specs::iter::IteratorSpec::decrease(&rest)->0,
        {
            match rest.next() {
                Some(c) => {
                    proof {
                        assert(seen.push(c).drop_last() =~= seen);
                        seen = seen.push(c);
                    }
                    if c == '\n' && size < usize::MAX {
                        size = size + 1;
                    }
                },
                None => return size,
            }
        }
    }
}

} // verus!
