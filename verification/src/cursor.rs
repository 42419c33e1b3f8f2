//! A text cursor measured as an offset from the end of the edited line.

use vstd::prelude::*;
use crate::text::{to_chars, chars_to_string};

verus! {

pub struct Cursor {
    pub offset: usize,
}

impl Cursor {
    /// A cursor sitting at the end of the line.
    pub fn new() -> (c: Self)
        ensures
            c.offset == 0,
    {
        Cursor { offset: 0 }
    }

    /// Inserts `c` at the cursor position, counted in characters from the
    /// end of `s`.
    pub fn insert_at_cursor(&self, s: &mut String, c: char)
        requires
            self.offset <= old(s)@.len(),
        ensures
            final(s)@ == old(s)@.insert(old(s)@.len() - self.offset, c),
    {
        let mut v: Vec<char> = to_chars(s.as_str());
        let i: usize = v.len() - self.offset;
        v.insert(i, c);
        *s = chars_to_string(&v);
    }

    /// Removes the character just before the cursor; reports whether one
    /// was removed.
    pub fn remove_at_cursor(&self, s: &mut String) -> (r: bool)
        ensures
            self.offset < old(s)@.len() ==> r && final(s)@ == old(s)@.remove(
                old(s)@.len() - self.offset - 1,
            ),
            self.offset >= old(s)@.len() ==> !r && final(s)@ == old(s)@,
    {
        let mut v: Vec<char> = to_chars(s.as_str());
        if self.offset < v.len() {
            let i: usize = v.len() - self.offset - 1;
            v.remove(i);
            *s = chars_to_string(&v);
            true
        } else {
            false
        }
    }

    /// Moves the cursor one character to the left, up to `max` characters
    /// from the end.
    pub fn c_left(&mut self, max: usize) -> (r: bool)
        ensures
            old(self).offset < max ==> r && final(self).offset == old(self).offset + 1,
            old(self).offset >= max ==> !r && final(self).offset == old(self).offset,
    {
        if self.offset < max {
            self.offset = self.offset + 1;
            true
        } else {
            false
        }
    }

    /// Moves the cursor one character to the right, towards the end.
    pub fn c_right(&mut self) -> (r: bool)
        ensures
            old(self).offset > 0 ==> r && final(self).offset == old(self).offset - 1,
            old(self).offset == 0 ==> !r && final(self).offset == 0,
    {
        if self.offset > 0 {
            self.offset = self.offset - 1;
            true
        } else {
            false
        }
    }

    /// Puts the cursor back at the end of the line.
    pub fn reset(&mut self)
        ensures
            final(self).offset == 0,
    {
        self.offset = 0;
    }
}

} // verus!
