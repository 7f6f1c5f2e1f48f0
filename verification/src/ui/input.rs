//! The search box: a line of text and a cursor in it.

use vstd::prelude::*;
use crate::text::string_of;

verus! {

/// The text of the search box and the place of the cursor, counted in
/// characters from the start of the text.
#[derive(Debug)]
pub struct SearchInput {
    pub text: Vec<char>,
    pub char_index: usize,
}

/// Bytes that a character takes in UTF-8.
pub open spec fn utf8_len(c: char) -> int {
    if (c as u32) < 0x80 {
        1
    } else if (c as u32) < 0x800 {
        2
    } else if (c as u32) < 0x10000 {
        3
    } else {
        4
    }
}

/// Bytes that the first `n` characters of a text take in UTF-8.
pub open spec fn byte_offset(text: Seq<char>, n: int) -> int
    decreases n,
{
    if n <= 0 {
        0
    } else {
        byte_offset(text, n - 1) + utf8_len(text[n - 1])
    }
}

/// `pos`, or the end of a text of `len` characters where `pos` is behind it.
pub open spec fn clamped(pos: int, len: int) -> int {
    if pos <= len { pos } else { len }
}

impl SearchInput {
    /// The cursor is in the text or at its end.
    pub open spec fn wf(&self) -> bool {
        self.char_index <= self.text.len()
    }

    /// An empty search box.
    pub fn new() -> (input: SearchInput)
        ensures
            input.wf(),
            input.text@.len() == 0,
            input.char_index == 0,
    {
        SearchInput { text: Vec::new(), char_index: 0 }
    }

    /// The text as a string.
    pub fn query(&self) -> (text: String)
        ensures
            text@ == self.text@,
    {
        string_of(&self.text)
    }

    /// The place nearest to `new_cursor_pos` where the cursor can be.
    pub fn clamp_cursor(&self, new_cursor_pos: usize) -> (pos: usize)
        ensures
            pos == clamped(new_cursor_pos as int, self.text.len() as int),
    {
        if new_cursor_pos <= self.text.len() {
            new_cursor_pos
        } else {
            self.text.len()
        }
    }

    pub fn move_cursor_left(&mut self)
        ensures
            final(self).wf(),
            final(self).text == old(self).text,
            final(self).char_index == clamped(
                if old(self).char_index > 0 { old(self).char_index - 1 } else { 0 },
                old(self).text.len() as int,
            ),
    {
        let left: usize = if self.char_index > 0 { self.char_index - 1 } else { 0 };
        self.char_index = self.clamp_cursor(left);
    }

    pub fn move_cursor_right(&mut self)
        ensures
            final(self).wf(),
            final(self).text == old(self).text,
            final(self).char_index == clamped(
                if old(self).char_index < usize::MAX {
                    old(self).char_index + 1
                } else {
                    usize::MAX as int
                },
                old(self).text.len() as int,
            ),
    {
        let right: usize = if self.char_index < usize::MAX {
            self.char_index + 1
        } else {
            usize::MAX
        };
        self.char_index = self.clamp_cursor(right);
    }

    /// The place of the cursor in the UTF-8 form of the text, in bytes.
    pub fn byte_index(&self) -> (index: usize)
        requires
            self.text.len() <= usize::MAX / 4,
        ensures
            index == byte_offset(
                self.text@,
                clamped(self.char_index as int, self.text.len() as int),
            ),
    {
        let end = self.clamp_cursor(self.char_index);
        let mut index: usize = 0;
        let mut i: usize = 0;
        while i < end
            invariant
                i <= end <= self.text.len() <= usize::MAX / 4,
                index == byte_offset(self.text@, i as int),
                index <= 4 * i,
            decreases end - i,
        {
            let c = self.text[i] as u32;
            let width: usize = if c < 0x80 {
                1
            } else if c < 0x800 {
                2
            } else if c < 0x10000 {
                3
            } else {
                4
            };
            index += width;
            i += 1;
        }
        index
    }

    /// Puts a character in at the cursor and moves the cursor behind it.
    /// A text that has no room for a further character stays as it is.
    pub fn enter_char(&mut self, new_char: char)
        ensures
            old(self).wf() ==> final(self).wf(),
            old(self).text.len() == usize::MAX ==> *final(self) == *old(self),
            old(self).text.len() < usize::MAX ==> final(self).text@ == old(self).text@.insert(
                clamped(old(self).char_index as int, old(self).text.len() as int),
                new_char,
            ) && final(self).char_index == clamped(
                if old(self).char_index < usize::MAX {
                    old(self).char_index + 1
                } else {
                    usize::MAX as int
                },
                old(self).text.len() + 1,
            ),
    {
        if self.text.len() < usize::MAX {
            let at = self.clamp_cursor(self.char_index);
            self.text.insert(at, new_char);
            self.move_cursor_right();
        }
    }

    /// Takes out the character before the cursor and moves the cursor
    /// one place to the left. At the start of the text nothing changes.
    pub fn delete_char(&mut self)
        requires
            old(self).wf(),
        ensures
            final(self).wf(),
            old(self).char_index == 0 ==> *final(self) == *old(self),
            old(self).char_index > 0 ==> final(self).text@ == old(self).text@.remove(
                old(self).char_index - 1,
            ) && final(self).char_index == old(self).char_index - 1,
    {
        if self.char_index != 0 {
            self.text.remove(self.char_index - 1);
            self.move_cursor_left();
        }
    }

    /// Takes out the character under the cursor. At the end of the text
    /// nothing changes.
    pub fn delete_right(&mut self)
        ensures
            final(self).char_index == old(self).char_index,
            old(self).char_index < old(self).text.len() ==> final(self).text@ == old(self).text@.remove(old(self).char_index as int),
            old(self).char_index >= old(self).text.len() ==> final(self).text == old(self).text,
            old(self).wf() ==> final(self).wf(),
    {
        if self.char_index < self.text.len() {
            self.text.remove(self.char_index);
        }
    }

    pub fn reset_cursor(&mut self)
        ensures
            final(self).text == old(self).text,
            final(self).char_index == 0,
    {
        self.char_index = 0;
    }

    /// Empties the search box.
    pub fn clear_search(&mut self)
        ensures
            final(self).wf(),
            final(self).text@.len() == 0,
            final(self).char_index == 0,
    {
        self.text.clear();
        self.reset_cursor();
    }
}

/// The column of the cursor in a search box that begins at column `x`:
/// behind the border and the characters before the cursor, as far as the
/// screen's coordinates go.
pub fn cursor_column(x: u16, char_index: usize) -> (column: u16)
    ensures
        column == if x + char_index + 1 <= u16::MAX {
            x + char_index + 1
        } else {
            u16::MAX as int
        },
{
    let room: u16 = u16::MAX - x;
    if char_index < room as usize {
        x + char_index as u16 + 1
    } else {
        u16::MAX
    }
}

} // verus!
