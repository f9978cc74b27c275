//! The query line: a text with a cursor, edited key by key.

use vstd::prelude::*;

verus! {

/// A key, as far as the query line tells keys apart.
#[derive(Debug, Clone, Copy, PartialEq, Eq)]
pub enum Key {
    Char(char),
    Backspace,
    Delete,
    Left,
    Right,
    Home,
    End,
    Up,
    Down,
    Enter,
    Esc,
    Other,
}

/// A key event: the key, and whether it was pressed (rather than released
/// or repeated).
#[derive(Debug, Clone, Copy, PartialEq, Eq)]
pub struct KeyStroke {
    pub key: Key,
    pub pressed: bool,
}

/// What a key asks of the surrounding interface.
#[derive(Debug, Clone, Copy, PartialEq, Eq)]
pub enum InputAction {
    Nothing,
    QueryChanged,
    NavigateUp,
    NavigateDown,
    Select,
    Exit,
}

/// The query, the cursor and the action after `stroke` is handled on
/// `query` with the cursor at `cursor` (a character index).
pub open spec fn after_stroke(query: Seq<char>, cursor: nat, stroke: KeyStroke) -> (
    Seq<char>,
    nat,
    InputAction,
) {
    if !stroke.pressed {
        (query, cursor, InputAction::Nothing)
    } else {
        match stroke.key {
            Key::Char(c) => (query.insert(cursor as int, c), cursor + 1, InputAction::QueryChanged),
            Key::Backspace => if cursor > 0 {
                (query.remove(cursor - 1), (cursor - 1) as nat, InputAction::QueryChanged)
            } else {
                (query, cursor, InputAction::Nothing)
            },
            Key::Delete => if cursor < query.len() {
                (query.remove(cursor as int), cursor, InputAction::QueryChanged)
            } else {
                (query, cursor, InputAction::Nothing)
            },
            Key::Left => (query, if cursor > 0 {
                (cursor - 1) as nat
            } else {
                cursor
            }, InputAction::Nothing),
            Key::Right => (query, if cursor < query.len() {
                cursor + 1
            } else {
                cursor
            }, InputAction::Nothing),
            Key::Home => (query, 0, InputAction::Nothing),
            Key::End => (query, query.len(), InputAction::Nothing),
            Key::Up => (query, cursor, InputAction::NavigateUp),
            Key::Down => (query, cursor, InputAction::NavigateDown),
            Key::Enter => (query, cursor, InputAction::Select),
            Key::Esc => if query.len() == 0 {
                (query, cursor, InputAction::Exit)
            } else {
                (Seq::empty(), 0, InputAction::QueryChanged)
            },
            Key::Other => (query, cursor, InputAction::Nothing),
        }
    }
}

/// Relies on str::chars, collected: the characters of `s`.
#[verifier::external_body]
pub(crate) fn chars_of(s: &str) -> (r: Vec<char>)
    ensures
        r@ == s@,
{
    s.chars().collect()
}

/// Relies on collecting characters into a String: the text of `cs`.
#[verifier::external_body]
pub(crate) fn text_of(cs: &Vec<char>) -> (r: String)
    ensures
        r@ == cs@,
{
    cs.iter().collect()
}

/// The query being typed, with a cursor counted in characters.
pub struct InputHandler {
    chars: Vec<char>,
    query: String,
    cursor_pos: usize,
}

impl InputHandler {
    /// The query's characters.
    pub closed spec fn text(&self) -> Seq<char> {
        self.chars@
    }

    pub closed spec fn cursor(&self) -> nat {
        self.cursor_pos as nat
    }

    /// The text and its characters agree and the cursor lies within it.
    pub closed spec fn wf(&self) -> bool {
        &&& self.query@ == self.chars@
        &&& self.cursor_pos <= self.chars@.len()
    }

    pub fn new() -> (r: InputHandler)
        ensures
            r.wf(),
            r.text() == Seq::<char>::empty(),
            r.cursor() == 0,
    {
        InputHandler { chars: Vec::new(), query: String::new(), cursor_pos: 0 }
    }

    /// Edits the query or moves the cursor as `stroke` asks, and says what
    /// the interface should do next.
    pub fn handle_key_event(&mut self, stroke: KeyStroke) -> (r: InputAction)
        requires
            old(self).wf(),
            old(self).text().len() < usize::MAX,
        ensures
            final(self).wf(),
            (final(self).text(), final(self).cursor(), r) == after_stroke(
                old(self).text(),
                old(self).cursor(),
                stroke,
            ),
    {
        if !stroke.pressed {
            return InputAction::Nothing;
        }
        match stroke.key {
            Key::Char(c) => {
                self.chars.insert(self.cursor_pos, c);
                self.cursor_pos = self.cursor_pos + 1;
                self.query = text_of(&self.chars);
                InputAction::QueryChanged
            },
            Key::Backspace => {
                if self.cursor_pos > 0 {
                    self.cursor_pos = self.cursor_pos - 1;
                    self.chars.remove(self.cursor_pos);
                    self.query = text_of(&self.chars);
                    InputAction::QueryChanged
                } else {
                    InputAction::Nothing
                }
            },
            Key::Delete => {
                if self.cursor_pos < self.chars.len() {
                    self.chars.remove(self.cursor_pos);
                    self.query = text_of(&self.chars);
                    InputAction::QueryChanged
                } else {
                    InputAction::Nothing
                }
            },
            Key::Left => {
                if self.cursor_pos > 0 {
                    self.cursor_pos = self.cursor_pos - 1;
                }
                InputAction::Nothing
            },
            Key::Right => {
                if self.cursor_pos < self.chars.len() {
                    self.cursor_pos = self.cursor_pos + 1;
                }
                InputAction::Nothing
            },
            Key::Home => {
                self.cursor_pos = 0;
                InputAction::Nothing
            },
            Key::End => {
                self.cursor_pos = self.chars.len();
                InputAction::Nothing
            },
            Key::Up => InputAction::NavigateUp,
            Key::Down => InputAction::NavigateDown,
            Key::Enter => InputAction::Select,
            Key::Esc => {
                if self.chars.len() == 0 {
                    InputAction::Exit
                } else {
                    self.clear();
                    InputAction::QueryChanged
                }
            },
            Key::Other => InputAction::Nothing,
        }
    }

    /// Replaces the query, with the cursor at its end.
    pub fn set_query(&mut self, query: String)
        ensures
            final(self).wf(),
            final(self).text() == query@,
            final(self).cursor() == query@.len(),
    {
        self.chars = chars_of(query.as_str());
        self.cursor_pos = self.chars.len();
        self.query = query;
    }

    /// Empties the query.
    pub fn clear(&mut self)
        ensures
            final(self).wf(),
            final(self).text() == Seq::<char>::empty(),
            final(self).cursor() == 0,
    {
        self.chars.clear();
        self.query = String::new();
        self.cursor_pos = 0;
    }

    pub fn query(&self) -> (r: &str)
        requires
            self.wf(),
        ensures
            r@ == self.text(),
    {
        self.query.as_str()
    }

    /// The cursor, as a character index into the query.
    pub fn cursor_pos(&self) -> (r: usize)
        ensures
            r == self.cursor(),
    {
        self.cursor_pos
    }
}

} // verus!
