//! Characters, measured by their length in bytes.

use crate::iter::Limited;
use crate::str::chars_of;
use crate::str::ellipsis::Ellipsis;
use std::marker::PhantomData;
use vstd::prelude::*;
use vstd::utf8::encode_scalar;

verus! {

/// The number of bytes that a character takes in UTF-8.
pub open spec fn utf8_len(c: char) -> usize {
    encode_scalar(c as u32).len() as usize
}

/// `char::len_utf8` of std returns the number of bytes that the character
/// takes when it is encoded in UTF-8.
pub assume_specification[ char::len_utf8 ](c: char) -> (len: usize)
    ensures
        len == utf8_len(c),
;

/// A source of characters that are measured by their length in bytes, with
/// the ellipsis `E` as the marker.
pub struct TrimToLengthIter<E> {
    chars: Vec<char>,
    next: usize,
    ellipses: PhantomData<E>,
}

impl<E> TrimToLengthIter<E> {
    /// The characters that are left in this source.
    pub closed spec fn unread(&self) -> Seq<char> {
        if self.next <= self.chars@.len() {
            self.chars@.skip(self.next as int)
        } else {
            Seq::empty()
        }
    }

    /// Returns a new [`TrimToLengthIter`] over some characters.
    pub fn new(chars: Vec<char>) -> (iter: Self)
        ensures
            iter.unread() == chars@,
    {
        Self { chars, next: 0, ellipses: PhantomData }
    }
}

/// Characters can be limited with an [`Ellipsis`].
impl<E: Ellipsis> Limited for TrimToLengthIter<E> {
    type Item = char;

    open spec fn remaining(&self) -> Seq<char> {
        self.unread()
    }

    open spec fn spec_contd() -> Seq<char> {
        E::spec_ellipsis()@
    }

    /// Counts characters according to their encoded length.
    open spec fn spec_element_size(item: char) -> usize {
        utf8_len(item)
    }

    fn next_item(&mut self) -> (item: Option<char>) {
        if self.next < self.chars.len() {
            let c = self.chars[self.next];
            self.next = self.next + 1;
            Some(c)
        } else {
            None
        }
    }

    fn contd() -> (marker: Vec<char>) {
        chars_of(E::ellipsis())
    }

    fn element_size(c: &char) -> (size: usize) {
        c.len_utf8()
    }
}

} // verus!
