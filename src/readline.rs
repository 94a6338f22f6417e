//! Line buffer of the kernel shell.
//!
//! Characters are appended at the end of the line; a backspace removes the
//! last one. The line is handed out, and emptied, on request.
use vstd::prelude::*;

verus! {

/// The backspace character.
pub const BACKSPACE: char = '\u{8}';

/// Relies on `String`'s `FromIterator<char>`: the string of the given
/// characters, in order.
#[verifier::external_body]
pub(crate) fn string_of(chars: &Vec<char>) -> (r: String)
    ensures
        r@ == chars@,
{
    chars.iter().collect()
}

/// A line being typed, with the cursor at its end.
pub struct Readline {
    buf: Vec<char>,
}

/// The line after `c` has been typed on `line`.
pub open spec fn typed(line: Seq<char>, c: char) -> Seq<char> {
    if c == '\n' {
        line
    } else if c == BACKSPACE {
        if line.len() > 0 {
            line.drop_last()
        } else {
            line
        }
    } else {
        line.push(c)
    }
}

/// The character to echo when `c` is typed on `line`, if any.
pub open spec fn echoed(line: Seq<char>, c: char) -> Option<char> {
    if c == '\n' || (c == BACKSPACE && line.len() == 0) {
        None
    } else {
        Some(c)
    }
}

impl Readline {
    /// The characters typed so far.
    pub closed spec fn line(&self) -> Seq<char> {
        self.buf@
    }

    /// An empty line.
    pub fn new() -> (r: Self)
        ensures
            r.line() == Seq::<char>::empty(),
    {
        Readline { buf: Vec::new() }
    }

    /// Handles one typed character and returns the character to echo.
    ///
    /// A newline is ignored, a backspace removes the last character if there
    /// is one, and any other character is appended.
    pub fn handle_character(&mut self, character: char) -> (echo: Option<char>)
        ensures
            final(self).line() == typed(old(self).line(), character),
            echo == echoed(old(self).line(), character),
    {
        if character == '\n' {
            None
        } else if character == BACKSPACE {
            if self.buf.len() > 0 {
                self.buf.pop();
                Some(character)
            } else {
                None
            }
        } else {
            self.buf.push(character);
            Some(character)
        }
    }

    /// Hands out the line typed so far and empties it, or returns `None` when
    /// nothing has been typed.
    pub fn retrieve_data(&mut self) -> (r: Option<String>)
        ensures
            old(self).line().len() == 0 ==> r is None && final(self).line() == old(self).line(),
            old(self).line().len() > 0 ==> (r matches Some(s) && s@ == old(self).line()
                && final(self).line() == Seq::<char>::empty()),
    {
        if self.buf.len() == 0 {
            None
        } else {
            let res = string_of(&self.buf);
            self.buf.clear();
            Some(res)
        }
    }
}

/// Handles one typed character on the shell's line; see
/// `Readline::handle_character`.
pub fn handle_character(rl: &mut Readline, character: char) -> (echo: Option<char>)
    ensures
        final(rl).line() == typed(old(rl).line(), character),
        echo == echoed(old(rl).line(), character),
{
    rl.handle_character(character)
}

/// Hands out and empties the shell's line; see `Readline::retrieve_data`.
pub fn retrieve_data(rl: &mut Readline) -> (r: Option<String>)
    ensures
        old(rl).line().len() == 0 ==> r is None && final(rl).line() == old(rl).line(),
        old(rl).line().len() > 0 ==> (r matches Some(s) && s@ == old(rl).line()
            && final(rl).line() == Seq::<char>::empty()),
{
    rl.retrieve_data()
}

} // verus!
