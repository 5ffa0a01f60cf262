//! A single line of free-form text under edit.

use unicode_width::UnicodeWidthStr;
use vstd::prelude::*;

verus! {

/// The number of terminal columns that a text occupies, as the
/// `unicode-width` tables give it.
pub uninterp spec fn display_width(text: Seq<char>) -> usize;

/// Calls `unicode_width::UnicodeWidthStr::width` on a `str`. The width is
/// computed from the characters of the text alone; the contract only gives
/// that result its name.
#[verifier::external_body]
fn str_width(text: &str) -> (w: usize)
    ensures
        w == display_width(text@),
{
    UnicodeWidthStr::width(text)
}

/// Calls `String::push`, which appends the character at the end.
#[verifier::external_body]
fn push_char(text: &mut String, c: char)
    ensures
        final(text)@ == old(text)@.push(c),
{
    text.push(c)
}

/// Calls `String::pop`, which removes the last character and returns it,
/// or returns `None` and leaves the string alone when it is empty.
#[verifier::external_body]
fn pop_char(text: &mut String) -> (removed: Option<char>)
    ensures
        old(text)@.len() == 0 ==> removed is None && final(text)@ == old(text)@,
        old(text)@.len() > 0 ==> removed == Some(old(text)@.last())
            && final(text)@ == old(text)@.drop_last(),
{
    text.pop()
}

/// The screen column just past a text of `width` columns that starts one
/// column right of `origin`, as inside a border; the last column there is
/// where that would lie beyond it.
pub open spec fn column_after(origin: u16, width: usize) -> u16 {
    if origin + width + 1 <= u16::MAX {
        (origin + width + 1) as u16
    } else {
        u16::MAX
    }
}

/// Computes where the cursor goes for a text of the given width.
pub fn cursor_column(origin: u16, width: usize) -> (column: u16)
    ensures
        column == column_after(origin, width),
{
    if width >= 65535 {
        return u16::MAX;
    }
    let columns: u16 = width as u16;
    let room: u16 = u16::MAX - origin;
    if columns >= room {
        u16::MAX
    } else {
        origin + columns + 1
    }
}

/// The line being typed. Its view is the sequence of characters entered so
/// far; editing works on whole characters, never on their encoding.
#[derive(Debug)]
pub struct TextBuffer {
    text: String,
}

impl View for TextBuffer {
    type V = Seq<char>;

    closed spec fn view(&self) -> Seq<char> {
        self.text@
    }
}

impl TextBuffer {
    /// An empty line.
    pub fn new() -> (buffer: TextBuffer)
        ensures
            buffer@ == Seq::<char>::empty(),
    {
        TextBuffer { text: String::new() }
    }

    /// Appends one character; there is no length limit.
    pub fn append(&mut self, c: char)
        ensures
            final(self)@ == old(self)@.push(c),
    {
        push_char(&mut self.text, c);
    }

    /// Removes the last character, if there is one.
    pub fn backspace(&mut self)
        ensures
            old(self)@.len() == 0 ==> final(self)@ == old(self)@,
            old(self)@.len() > 0 ==> final(self)@ == old(self)@.drop_last(),
    {
        let _ = pop_char(&mut self.text);
    }

    /// Hands the line out untrimmed and leaves the buffer empty.
    pub fn submit(&mut self) -> (line: String)
        ensures
            line@ == old(self)@,
            final(self)@ == Seq::<char>::empty(),
    {
        let mut line = String::new();
        core::mem::swap(&mut self.text, &mut line);
        line
    }

    /// Discards whatever was typed.
    pub fn clear(&mut self)
        ensures
            final(self)@ == Seq::<char>::empty(),
    {
        self.text = String::new();
    }

    /// The line as typed so far.
    pub fn as_str(&self) -> (line: &str)
        ensures
            line@ == self@,
    {
        self.text.as_str()
    }

    /// The number of columns the line takes on screen.
    pub fn width(&self) -> (w: usize)
        ensures
            w == display_width(self@),
    {
        str_width(self.text.as_str())
    }
}

} // verus!
