//! What the terminal reports, as plain values, and what a key types.

use vstd::prelude::*;

verus! {

/// Which key was pressed, as far as the client tells keys apart.
#[derive(Clone, Copy, Debug)]
pub enum KeyCode {
    Char(char),
    Enter,
    Up,
    Down,
    PageUp,
    PageDown,
    Home,
    End,
    Other,
}

/// A key press: the key and the modifier keys held with it.
#[derive(Clone, Copy, Debug)]
pub struct Key {
    pub code: KeyCode,
    pub shift: bool,
    pub control: bool,
    pub alt: bool,
}

/// What a look at the terminal found.
#[derive(Clone, Copy, Debug)]
pub enum Event {
    Nothing,
    Resize,
    Key(Key),
}

/// How an attempt to read a line ended.
pub enum LineOutcome {
    Line(String),
    Interrupted,
    Eof,
    Failed(String),
}

/// `c` with a lower-case ASCII letter replaced by its upper-case form.
pub open spec fn ascii_upper(c: char) -> char {
    if 'a' <= c && c <= 'z' {
        ((c as u8) - 32) as char
    } else {
        c
    }
}

/// The upper-case form of an ASCII letter; any other character as it is.
pub fn to_ascii_uppercase(c: char) -> (upper: char)
    ensures
        upper == ascii_upper(c),
{
    if 'a' <= c && c <= 'z' {
        let code: u8 = c as u8;
        (code - 32) as char
    } else {
        c
    }
}

impl Key {
    /// No modifier key is held.
    pub open spec fn plain(self) -> bool {
        !self.shift && !self.control && !self.alt
    }

    /// Shift is held and no other modifier key.
    pub open spec fn shift_only(self) -> bool {
        self.shift && !self.control && !self.alt
    }

    /// Control is held and no other modifier key.
    pub open spec fn control_only(self) -> bool {
        self.control && !self.shift && !self.alt
    }
}

/// The character that a key press types.
pub open spec fn typed(key: Key) -> Option<char> {
    match key.code {
        KeyCode::Char(c) => if key.shift_only() {
            Some(ascii_upper(c))
        } else if key.plain() {
            Some(c)
        } else {
            None
        },
        _ => None,
    }
}

/// The character that a key press types: the key's own with no modifier,
/// its upper-case form with shift alone, none with any other modifier or
/// for a key without a character.
pub fn key_to_char(key: Key) -> (c: Option<char>)
    ensures
        c == typed(key),
{
    match key.code {
        KeyCode::Char(c) => {
            if key.shift && !key.control && !key.alt {
                Some(to_ascii_uppercase(c))
            } else if !key.shift && !key.control && !key.alt {
                Some(c)
            } else {
                None
            }
        },
        _ => None,
    }
}

/// The line that was read. An interrupted read and the end of the input
/// count as an empty line; any other failure is passed on.
pub fn read_line(outcome: LineOutcome) -> (line: Result<String, String>)
    ensures
        match outcome {
            LineOutcome::Line(text) => line == Ok::<String, String>(text),
            LineOutcome::Interrupted | LineOutcome::Eof => line is Ok && line->Ok_0@
                == Seq::<char>::empty(),
            LineOutcome::Failed(why) => line == Err::<String, String>(why),
        },
{
    match outcome {
        LineOutcome::Line(text) => Ok(text),
        LineOutcome::Interrupted | LineOutcome::Eof => Ok(String::new()),
        LineOutcome::Failed(why) => Err(why),
    }
}

} // verus!
