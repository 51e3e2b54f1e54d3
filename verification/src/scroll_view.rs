//! The scrolled view of an action's output: what it holds, and how many
//! terminal rows its text takes.

use vstd::prelude::*;
use vstd::string::*;
use crate::action::Action;
use crate::input::{Key, KeyCode};

verus! {

/// The lines of `content`, in order, as `str::lines` yields them.
pub uninterp spec fn text_lines(content: Seq<char>) -> Seq<Seq<char>>;

/// Calls `str::lines` and collects what it yields. The contract only names
/// what comes back: how `lines` cuts a text is std's, and nothing here
/// restates it.
#[verifier::external_body]
fn lines_of<'a>(content: &'a str) -> (lines: Vec<&'a str>)
    ensures
        lines@.len() == text_lines(content@).len(),
        forall|i: int| 0 <= i < lines@.len() ==> (#[trigger] lines@[i])@ == text_lines(content@)[i],
{
    content.lines().collect()
}

/// The length in bytes of each line of `content`, in order.
pub open spec fn line_lengths(content: Seq<char>) -> Seq<usize> {
    Seq::new(
        text_lines(content).len(),
        |i: int| vstd::utf8::encode_utf8(text_lines(content)[i]).len() as usize,
    )
}

fn lengths_of_lines(content: &str) -> (lengths: Vec<usize>)
    ensures
        lengths@ == line_lengths(content@),
{
    let lines = lines_of(content);
    let mut lengths: Vec<usize> = Vec::new();
    let mut i: usize = 0;
    while i < lines.len()
        invariant
            i <= lines@.len(),
            lines@.len() == text_lines(content@).len(),
            forall|j: int| 0 <= j < lines@.len() ==> (#[trigger] lines@[j])@ == text_lines(content@)[j],
            lengths@.len() == i,
            forall|j: int| 0 <= j < i ==> #[trigger] lengths@[j] == line_lengths(content@)[j],
        decreases lines@.len() - i,
    {
        let line: &str = lines[i];
        lengths.push(line.len());
        i += 1;
    }
    proof {
        assert(lengths@ =~= line_lengths(content@));
    }
    lengths
}

/// The part of the terminal that the view may fill.
#[derive(Clone, Copy, Debug)]
pub struct AvailableSize {
    pub width: usize,
    pub height: usize,
}

/// The rows that a line of `len` bytes takes in `width` columns: `len`
/// divided by `width`, rounded up.
pub open spec fn rows_of(len: usize, width: usize) -> int
    recommends
        width > 0,
{
    (len + width - 1) / (width as int)
}

/// The rows that lines of these lengths take together.
pub open spec fn total_rows(lengths: Seq<usize>, width: usize) -> int
    decreases lengths.len(),
{
    if lengths.len() == 0 {
        0
    } else {
        total_rows(lengths.drop_last(), width) + rows_of(lengths.last(), width)
    }
}

/// A line takes no negative number of rows, and a shorter list of lines
/// takes no more rows than a longer one that starts with it.
pub proof fn lemma_total_rows_grows(lengths: Seq<usize>, width: usize, k: int)
    requires
        width > 0,
        0 <= k <= lengths.len(),
    ensures
        0 <= total_rows(lengths.take(k), width) <= total_rows(lengths, width),
    decreases lengths.len() - k,
{
    if k == lengths.len() {
        assert(lengths.take(k) =~= lengths);
        lemma_total_rows_nonnegative(lengths, width);
    } else {
        lemma_total_rows_grows(lengths, width, k + 1);
        assert(lengths.take(k + 1).drop_last() =~= lengths.take(k));
        lemma_rows_of(lengths[k], width);
        lemma_total_rows_nonnegative(lengths.take(k), width);
    }
}

proof fn lemma_total_rows_nonnegative(lengths: Seq<usize>, width: usize)
    requires
        width > 0,
    ensures
        0 <= total_rows(lengths, width),
    decreases lengths.len(),
{
    if lengths.len() > 0 {
        lemma_total_rows_nonnegative(lengths.drop_last(), width);
        lemma_rows_of(lengths.last(), width);
    }
}

/// Rounding up without leaving the machine's numbers: an empty line takes no
/// row, another one takes one row more than the bytes before its last fill.
pub proof fn lemma_rows_of(len: usize, width: usize)
    requires
        width > 0,
    ensures
        rows_of(len, width) == if len == 0 {
            0
        } else {
            (len - 1) / (width as int) + 1
        },
        0 <= rows_of(len, width) <= len,
{
    let l = len as int;
    let w = width as int;
    if l == 0 {
        assert((0 + w - 1) / w == 0) by (nonlinear_arith)
            requires
                w > 0,
        ;
    } else {
        assert((l + w - 1) / w == (l - 1) / w + 1 && 0 <= (l - 1) / w <= l - 1) by (nonlinear_arith)
            requires
                w > 0,
                l > 0,
        ;
    }
}

/// The rows that lines of these lengths take in `width` columns, where the
/// number fits the machine.
pub fn rows_of_lines(lengths: &Vec<usize>, width: usize) -> (rows: Option<usize>)
    requires
        width > 0,
    ensures
        match rows {
            Some(n) => n == total_rows(lengths@, width),
            None => total_rows(lengths@, width) > usize::MAX,
        },
{
    let mut sum: usize = 0;
    let mut i: usize = 0;
    while i < lengths.len()
        invariant
            width > 0,
            i <= lengths@.len(),
            sum == total_rows(lengths@.take(i as int), width),
        decreases lengths@.len() - i,
    {
        let len = lengths[i];
        let rows: usize = if len == 0 {
            0
        } else {
            (len - 1) / width + 1
        };
        proof {
            lemma_rows_of(len, width);
            assert(lengths@.take(i + 1).drop_last() =~= lengths@.take(i as int));
            lemma_total_rows_grows(lengths@, width, i + 1);
        }
        match sum.checked_add(rows) {
            Some(next) => {
                sum = next;
            },
            None => {
                return None;
            },
        }
        i += 1;
    }
    proof {
        assert(lengths@.take(i as int) =~= lengths@);
    }
    Some(sum)
}

/// How a key moves the view.
#[derive(Clone, Copy, Debug)]
pub enum Movement {
    LineDown,
    LineUp,
    HalfPageDown,
    HalfPageUp,
    Home,
    End,
}

/// The movement behind each key: none for a key that does not move the view.
pub open spec fn movement_of(key: Key) -> Option<Movement> {
    match key.code {
        KeyCode::Down | KeyCode::Enter => Some(Movement::LineDown),
        KeyCode::Up => Some(Movement::LineUp),
        KeyCode::PageDown => Some(Movement::HalfPageDown),
        KeyCode::PageUp => Some(Movement::HalfPageUp),
        KeyCode::Home => Some(Movement::Home),
        KeyCode::End => Some(Movement::End),
        KeyCode::Char(c) => if c == '\n' {
            Some(Movement::LineDown)
        } else if c == ' ' {
            Some(Movement::HalfPageDown)
        } else if !key.control_only() {
            None
        } else if c == 'j' || c == 'n' {
            Some(Movement::LineDown)
        } else if c == 'k' || c == 'p' {
            Some(Movement::LineUp)
        } else if c == 'd' {
            Some(Movement::HalfPageDown)
        } else if c == 'u' {
            Some(Movement::HalfPageUp)
        } else if c == 'g' || c == 'b' {
            Some(Movement::Home)
        } else if c == 'e' {
            Some(Movement::End)
        } else {
            None
        },
        KeyCode::Other => None,
    }
}

/// The movement behind a key.
pub fn movement(key: Key) -> (m: Option<Movement>)
    ensures
        m == movement_of(key),
{
    let control_only = key.control && !key.shift && !key.alt;
    match key.code {
        KeyCode::Down | KeyCode::Enter => Some(Movement::LineDown),
        KeyCode::Up => Some(Movement::LineUp),
        KeyCode::PageDown => Some(Movement::HalfPageDown),
        KeyCode::PageUp => Some(Movement::HalfPageUp),
        KeyCode::Home => Some(Movement::Home),
        KeyCode::End => Some(Movement::End),
        KeyCode::Char(c) => {
            if c == '\n' {
                Some(Movement::LineDown)
            } else if c == ' ' {
                Some(Movement::HalfPageDown)
            } else if !control_only {
                None
            } else if c == 'j' || c == 'n' {
                Some(Movement::LineDown)
            } else if c == 'k' || c == 'p' {
                Some(Movement::LineUp)
            } else if c == 'd' {
                Some(Movement::HalfPageDown)
            } else if c == 'u' {
                Some(Movement::HalfPageUp)
            } else if c == 'g' || c == 'b' {
                Some(Movement::Home)
            } else if c == 'e' {
                Some(Movement::End)
            } else {
                None
            }
        },
        KeyCode::Other => None,
    }
}

/// The lines by which a movement shifts the view: one line, or half of the
/// available height, down or up.
pub open spec fn delta_of(m: Movement, height: usize) -> int {
    match m {
        Movement::LineDown => 1,
        Movement::LineUp => -1,
        Movement::HalfPageDown => height as int / 2,
        Movement::HalfPageUp => -(height as int / 2),
        Movement::Home | Movement::End => 0,
    }
}

/// `target` brought into the range from 0 to `limit`.
pub open spec fn clamped(target: int, limit: int) -> int {
    if target < 0 {
        0
    } else if target > limit {
        limit
    } else {
        target
    }
}

/// The rows that `content` takes in `width` columns, or the largest number
/// of the machine where they are more.
pub open spec fn saturated_rows(content: Seq<char>, width: usize) -> int {
    let rows = total_rows(line_lengths(content), width);
    if rows > usize::MAX {
        usize::MAX as int
    } else {
        rows
    }
}

/// The last place to scroll to: where the last row is the last one shown.
pub open spec fn last_scroll(rows: int, height: usize) -> int {
    if rows > height {
        rows - height
    } else {
        0
    }
}

/// The first line shown once the selected line `cursor` must be in sight.
pub open spec fn following(scroll: int, cursor: int, height: usize) -> int {
    if cursor < scroll {
        cursor
    } else if cursor - scroll >= height {
        cursor + 1 - height
    } else {
        scroll
    }
}

fn shifted(value: usize, forward: bool, amount: usize, limit: usize) -> (r: usize)
    ensures
        r == clamped(
            if forward {
                value + amount
            } else {
                value - amount
            },
            limit as int,
        ),
{
    let target = if forward {
        match value.checked_add(amount) {
            Some(t) => t,
            None => limit,
        }
    } else if value >= amount {
        value - amount
    } else {
        0
    };
    if target > limit {
        limit
    } else {
        target
    }
}

/// The output of an action, with the place to which it is scrolled.
pub struct ScrollView {
    action_kind: Action,
    content: String,
    scroll: usize,
    cursor: Option<usize>,
}

impl ScrollView {
    /// The action whose output is shown.
    pub closed spec fn spec_action_kind(&self) -> Action {
        self.action_kind
    }

    /// The text shown.
    pub closed spec fn spec_content(&self) -> Seq<char> {
        self.content@
    }

    /// The first line shown.
    pub closed spec fn spec_scroll(&self) -> usize {
        self.scroll
    }

    /// The selected line, where lines can be selected.
    pub closed spec fn spec_cursor(&self) -> Option<usize> {
        self.cursor
    }

    #[verifier::when_used_as_spec(spec_action_kind)]
    pub fn action_kind(&self) -> (a: Action)
        ensures
            a == self.spec_action_kind(),
    {
        self.action_kind
    }

    pub fn content(&self) -> (s: &str)
        ensures
            s@ == self.spec_content(),
    {
        self.content.as_str()
    }

    #[verifier::when_used_as_spec(spec_scroll)]
    pub fn scroll_position(&self) -> (n: usize)
        ensures
            n == self.spec_scroll(),
    {
        self.scroll
    }

    #[verifier::when_used_as_spec(spec_cursor)]
    pub fn cursor(&self) -> (c: Option<usize>)
        ensures
            c == self.spec_cursor(),
    {
        self.cursor
    }

    /// Shows `content` as the output of `action_kind`, from its first line,
    /// with that line selected where the output's lines can be selected.
    pub fn set_content(&mut self, content: &str, action_kind: Action, can_select_output: bool)
        ensures
            final(self).spec_action_kind() == action_kind,
            final(self).spec_content() == content@,
            final(self).spec_scroll() == 0,
            final(self).spec_cursor() == if can_select_output {
                Some(0usize)
            } else {
                None
            },
    {
        self.action_kind = action_kind;
        self.content = String::from_str(content);
        self.scroll = 0;
        self.cursor = if can_select_output {
            Some(0)
        } else {
            None
        };
    }

    /// The rows that the text takes in the available width, each line
    /// wrapped into as many rows as it needs; nothing where that number
    /// does not fit the machine.
    pub fn content_height(&self, available_size: AvailableSize) -> (height: Option<usize>)
        requires
            available_size.width > 0,
        ensures
            match height {
                Some(n) => n == total_rows(line_lengths(self.spec_content()), available_size.width),
                None => total_rows(line_lengths(self.spec_content()), available_size.width) > usize::MAX,
            },
    {
        let lengths = lengths_of_lines(self.content.as_str());
        rows_of_lines(&lengths, available_size.width)
    }

    /// The first line shown after a movement. A view without selection
    /// scrolls by the movement's lines, within the content; one with a
    /// selection scrolls just as far as keeps the selected line in sight.
    pub open spec fn scroll_after(&self, m: Movement, available_size: AvailableSize) -> int {
        let limit = last_scroll(
            saturated_rows(self.spec_content(), available_size.width),
            available_size.height,
        );
        match m {
            Movement::Home => 0,
            Movement::End => limit,
            _ => match self.cursor_after(m, available_size) {
                None => clamped(self.spec_scroll() + delta_of(m, available_size.height), limit),
                Some(cursor) => if text_lines(self.spec_content()).len() == 0 {
                    self.spec_scroll() as int
                } else {
                    following(self.spec_scroll() as int, cursor, available_size.height)
                },
            },
        }
    }

    /// The selected line after a movement, in a view that has one: the
    /// first line at home, the line count at the end, else the line the
    /// movement leads to, within the lines of the content.
    pub open spec fn cursor_after(&self, m: Movement, available_size: AvailableSize) -> Option<int> {
        let count = text_lines(self.spec_content()).len() as int;
        match self.spec_cursor() {
            None => None,
            Some(cursor) => Some(
                match m {
                    Movement::Home => 0,
                    Movement::End => count,
                    _ => if count == 0 {
                        cursor as int
                    } else {
                        clamped(cursor + delta_of(m, available_size.height), count - 1)
                    },
                },
            ),
        }
    }

    /// Moves the view as the key asks and says whether it is to be drawn
    /// again: not so where the key moves nothing, and then nothing changes.
    pub fn update(&mut self, key: Key, available_size: AvailableSize) -> (redraw: bool)
        requires
            available_size.width > 0,
        ensures
            final(self).spec_content() == old(self).spec_content(),
            final(self).spec_action_kind() == old(self).spec_action_kind(),
            match movement_of(key) {
                None => {
                    &&& !redraw
                    &&& final(self).spec_scroll() == old(self).spec_scroll()
                    &&& final(self).spec_cursor() == old(self).spec_cursor()
                },
                Some(m) => {
                    &&& redraw
                    &&& final(self).spec_scroll() == old(self).scroll_after(m, available_size)
                    &&& match old(self).cursor_after(m, available_size) {
                        Some(cursor) => final(self).spec_cursor() == Some(cursor as usize),
                        None => final(self).spec_cursor() is None,
                    }
                },
            },
    {
        let m = match movement(key) {
            Some(m) => m,
            None => {
                return false;
            },
        };
        let lengths = lengths_of_lines(self.content.as_str());
        let count = lengths.len();
        let rows = match rows_of_lines(&lengths, available_size.width) {
            Some(n) => n,
            None => usize::MAX,
        };
        let limit = if rows > available_size.height {
            rows - available_size.height
        } else {
            0
        };
        let half = available_size.height / 2;
        match m {
            Movement::Home => {
                self.scroll = 0;
                if self.cursor.is_some() {
                    self.cursor = Some(0);
                }
            },
            Movement::End => {
                self.scroll = limit;
                if self.cursor.is_some() {
                    self.cursor = Some(count);
                }
            },
            _ => {
                let (forward, amount) = match m {
                    Movement::LineDown => (true, 1usize),
                    Movement::LineUp => (false, 1usize),
                    Movement::HalfPageDown => (true, half),
                    _ => (false, half),
                };
                match self.cursor {
                    None => {
                        self.scroll = shifted(self.scroll, forward, amount, limit);
                    },
                    Some(cursor) => {
                        if count > 0 {
                            let moved = shifted(cursor, forward, amount, count - 1);
                            self.cursor = Some(moved);
                            if moved < self.scroll {
                                self.scroll = moved;
                            } else if moved - self.scroll >= available_size.height {
                                self.scroll = moved + 1 - available_size.height;
                            }
                        }
                    },
                }
            },
        }
        true
    }
}

impl Default for ScrollView {
    fn default() -> (view: Self)
        ensures
            view.spec_action_kind() == Action::Quit,
            view.spec_content() == Seq::<char>::empty(),
            view.spec_scroll() == 0,
            view.spec_cursor() == None::<usize>,
    {
        ScrollView { action_kind: Action::Quit, content: String::new(), scroll: 0, cursor: None }
    }
}

} // verus!
