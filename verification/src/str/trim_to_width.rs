//! Characters, measured by the columns they take on a screen.

use crate::iter::Limited;
use crate::str::chars_of;
use crate::str::ellipsis::Ellipsis;
use std::marker::PhantomData;
use unicode_width::UnicodeWidthChar;
use vstd::prelude::*;

verus! {

/// What `unicode_width` gives as the width of a character: the columns it
/// takes, and `None` for a control character.
pub uninterp spec fn char_width(c: char) -> Option<usize>;

/// `UnicodeWidthChar::width` of `unicode_width` looks the width of a
/// character up in its tables. The result depends on the character alone
/// and is called `char_width` here. Of the tables nothing is claimed, only
/// what the function decides before it consults them: the control
/// characters below U+00A0 have no width, the other ASCII characters take
/// one column, and every character from U+00A0 on has a width.
#[verifier::external_body]
fn width_of(c: char) -> (width: Option<usize>)
    ensures
        width == char_width(c),
        (c as u32) < 0x20 || 0x7F <= (c as u32) < 0xA0 ==> width is None,
        0x20 <= (c as u32) < 0x7F ==> width == Some(1usize),
        0xA0 <= (c as u32) ==> width is Some,
{
    UnicodeWidthChar::width(c)
}

/// The columns that a width stands for: none where there is no width.
pub open spec fn spec_columns(width: Option<usize>) -> usize {
    match width {
        Some(columns) => columns,
        None => 0,
    }
}

/// Returns the columns that a width stands for. A character without a
/// width, which is a control character, takes none.
pub fn columns(width: Option<usize>) -> (columns: usize)
    ensures
        columns == spec_columns(width),
{
    match width {
        Some(columns) => columns,
        None => 0,
    }
}

/// A source of characters that are measured by their width in columns, with
/// the ellipsis `E` as the marker.
pub struct TrimToWidthIter<E> {
    chars: Vec<char>,
    next: usize,
    ellipses: PhantomData<E>,
}

impl<E> TrimToWidthIter<E> {
    /// The characters that are left in this source.
    pub closed spec fn unread(&self) -> Seq<char> {
        if self.next <= self.chars@.len() {
            self.chars@.skip(self.next as int)
        } else {
            Seq::empty()
        }
    }

    /// Returns a new [`TrimToWidthIter`] over some characters.
    pub fn new(chars: Vec<char>) -> (iter: Self)
        ensures
            iter.unread() == chars@,
    {
        Self { chars, next: 0, ellipses: PhantomData }
    }
}

/// Characters can be limited with an [`Ellipsis`].
impl<E: Ellipsis> Limited for TrimToWidthIter<E> {
    type Item = char;

    open spec fn remaining(&self) -> Seq<char> {
        self.unread()
    }

    open spec fn spec_contd() -> Seq<char> {
        E::spec_ellipsis()@
    }

    /// Counts characters according to their width.
    open spec fn spec_element_size(item: char) -> usize {
        spec_columns(char_width(item))
    }

    fn next_item(&mut self) -> (item: Option<char>) {
        if self.next < self.chars.len() {
            let c = self.chars[self.next];
            self.next = self.next + 1;
            Some(c)
        } else {
            None
        }
    }

    fn contd() -> (marker: Vec<char>) {
        chars_of(E::ellipsis())
    }

    /// A control character below U+00A0 takes no column, and every other
    /// ASCII character takes one.
    fn element_size(c: &char) -> (size: usize)
        ensures
            (*c as u32) < 0x20 || 0x7F <= (*c as u32) < 0xA0 ==> size == 0,
            0x20 <= (*c as u32) < 0x7F ==> size == 1,
    {
        columns(width_of(*c))
    }
}

} // verus!
