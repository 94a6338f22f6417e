//! Line editor of the shell's input line: a cursor that moves over the line,
//! insertion at the cursor, backspace and delete.
//!
//! The editor only keeps the line and the cursor; drawing them is left to the
//! caller, which reads `line` and `cursor` after each key.
use crate::readline::string_of;
use vstd::prelude::*;

verus! {

/// A key as the line editor sees it.
#[derive(Debug, Clone, Copy, PartialEq, Eq, Structural)]
pub enum Key {
    /// A key that produces a character.
    Unicode(char),
    ArrowLeft,
    ArrowRight,
    ArrowUp,
    ArrowDown,
    /// Any other key without a character.
    Other,
}

/// The byte a character key is classified by: the low byte of its code.
pub open spec fn key_byte(c: char) -> u8 {
    (c as u32 % 256) as u8
}

/// A line being edited with a cursor in it.
pub struct Readline {
    buf: Vec<char>,
    pos: usize,
}

impl Readline {
    /// The line.
    pub closed spec fn line(&self) -> Seq<char> {
        self.buf@
    }

    /// The cursor: the index before which a typed character is inserted.
    pub closed spec fn cursor(&self) -> int {
        self.pos as int
    }

    /// The cursor lies within the line or just after it.
    pub open spec fn wf(&self) -> bool {
        0 <= self.cursor() <= self.line().len()
    }

    /// An empty line with the cursor at its start.
    pub fn new() -> (r: Self)
        ensures
            r.wf(),
            r.line() == Seq::<char>::empty(),
            r.cursor() == 0,
    {
        Readline { buf: Vec::new(), pos: 0 }
    }

    /// The cursor position.
    pub fn pos(&self) -> (r: usize)
        ensures
            r == self.cursor(),
    {
        self.pos
    }

    /// The line, as a string.
    pub fn text(&self) -> (r: String)
        ensures
            r@ == self.line(),
    {
        string_of(&self.buf)
    }

    /// Moves the cursor one place right when `forward`, else one place left,
    /// stopping at either end of the line.
    fn offset_pos(&mut self, forward: bool)
        requires
            old(self).wf(),
        ensures
            final(self).wf(),
            final(self).line() == old(self).line(),
            forward ==> final(self).cursor() == if old(self).cursor() < old(self).line().len() {
                old(self).cursor() + 1
            } else {
                old(self).cursor()
            },
            !forward ==> final(self).cursor() == if old(self).cursor() > 0 {
                old(self).cursor() - 1
            } else {
                0
            },
    {
        if forward {
            if self.pos < self.buf.len() {
                self.pos = self.pos + 1;
            }
        } else if self.pos > 0 {
            self.pos = self.pos - 1;
        }
    }

    /// Handles one key and returns the line when the key is a newline.
    ///
    /// A printable character (`0x20` to `0x7e`) is inserted at the cursor,
    /// which moves past it. A backspace removes the character before the
    /// cursor, a delete the one under it. A newline hands out the line and
    /// empties it. The arrows move the cursor by one, or to the end (up) or
    /// the start (down) of the line. Other keys change nothing.
    pub fn handle_key(&mut self, key: Key) -> (r: Option<String>)
        requires
            old(self).wf(),
        ensures
            final(self).wf(),
            ({
                let line = old(self).line();
                let pos = old(self).cursor();
                match key {
                    Key::Unicode(c) => {
                        let b = key_byte(c);
                        if 0x20 <= b <= 0x7e {
                            &&& r is None
                            &&& final(self).line() == line.insert(pos, c)
                            &&& final(self).cursor() == pos + 1
                        } else if b == 0x08 && pos > 0 {
                            &&& r is None
                            &&& final(self).line() == line.remove(pos - 1)
                            &&& final(self).cursor() == pos - 1
                        } else if b == 0x7f && pos < line.len() {
                            &&& r is None
                            &&& final(self).line() == line.remove(pos)
                            &&& final(self).cursor() == pos
                        } else if b == 0x0a {
                            &&& r matches Some(s) && s@ == line
                            &&& final(self).line() == Seq::<char>::empty()
                            &&& final(self).cursor() == 0
                        } else {
                            &&& r is None
                            &&& final(self).line() == line
                            &&& final(self).cursor() == pos
                        }
                    },
                    Key::ArrowLeft => {
                        &&& r is None
                        &&& final(self).line() == line
                        &&& final(self).cursor() == if pos > 0 {
                            pos - 1
                        } else {
                            0
                        }
                    },
                    Key::ArrowRight => {
                        &&& r is None
                        &&& final(self).line() == line
                        &&& final(self).cursor() == if pos < line.len() {
                            pos + 1
                        } else {
                            pos
                        }
                    },
                    Key::ArrowUp => {
                        &&& r is None
                        &&& final(self).line() == line
                        &&& final(self).cursor() == line.len()
                    },
                    Key::ArrowDown => {
                        &&& r is None
                        &&& final(self).line() == line
                        &&& final(self).cursor() == 0
                    },
                    Key::Other => {
                        &&& r is None
                        &&& final(self).line() == line
                        &&& final(self).cursor() == pos
                    },
                }
            }),
    {
        match key {
            Key::Unicode(character) => {
                let b = (character as u32 % 256) as u8;
                if 0x20 <= b && b <= 0x7e {
                    self.buf.insert(self.pos, character);
                    self.offset_pos(true);
                } else if b == 0x08 && self.pos > 0 {
                    self.offset_pos(false);
                    self.buf.remove(self.pos);
                } else if b == 0x7f && self.pos < self.buf.len() {
                    self.buf.remove(self.pos);
                } else if b == 0x0a {
                    let res = string_of(&self.buf);
                    self.buf.clear();
                    self.pos = 0;
                    return Some(res);
                }
                None
            },
            Key::ArrowLeft => {
                self.offset_pos(false);
                None
            },
            Key::ArrowRight => {
                self.offset_pos(true);
                None
            },
            Key::ArrowUp => {
                self.pos = self.buf.len();
                None
            },
            Key::ArrowDown => {
                self.pos = 0;
                None
            },
            Key::Other => None,
        }
    }
}

} // verus!
