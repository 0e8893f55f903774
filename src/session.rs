//! The interactive query session: what each key press does to the input
//! boxes and to the selection among the matches.

use vstd::prelude::*;
use crate::text::{chars_of, string_from_chars, substring};

verus! {

/// A key press, as the session sees it.
#[derive(Clone, Copy, Debug, PartialEq, Eq, Structural)]
pub enum Key {
    Char(char),
    Ctrl(char),
    Left,
    Right,
    Up,
    Down,
    Backspace,
    Other,
}

/// What the caller does after a key press.
#[derive(Clone, Copy, Debug, PartialEq, Eq, Structural)]
pub enum Action {
    /// Leave the session, reporting the selection.
    Finish,
    /// Open the selected document in the editor, then query again.
    Edit,
    /// Open the selected document in the pager, then query again.
    View,
    /// The selection moved: show the newly selected document, then query again.
    Moved,
    /// Run the query input again.
    Requery,
}

/// State of the interactive session.
pub struct TerminalApp {
    /// The query input box.
    pub query_input: String,
    /// The filter input box.
    pub filter_input: String,
    /// Which input box takes typing: 0 for the query, 1 for the filter.
    pub inp_idx: usize,
    /// The selected match, if any.
    pub selected: Option<usize>,
    /// How many matches the last query gave.
    pub match_count: usize,
}

/// The selection after moving down: wraps to the first match, and stays
/// empty when there are no matches.
pub open spec fn next_selection(sel: Option<usize>, n: usize) -> Option<usize> {
    if n == 0 {
        None
    } else {
        match sel {
            Some(i) => if i >= n - 1 {
                Some(0usize)
            } else {
                Some((i + 1) as usize)
            },
            None => Some(0usize),
        }
    }
}

/// The selection after moving up: wraps to the last match, and stays empty
/// when there are no matches.
pub open spec fn previous_selection(sel: Option<usize>, n: usize) -> Option<usize> {
    if n == 0 {
        None
    } else {
        match sel {
            Some(i) => if i == 0 || i > n {
                Some((n - 1) as usize)
            } else {
                Some((i - 1) as usize)
            },
            None => Some(0usize),
        }
    }
}

/// The text with its last character removed, if any.
pub open spec fn drop_last_char(s: Seq<char>) -> Seq<char> {
    if s.len() == 0 {
        s
    } else {
        s.drop_last()
    }
}

impl TerminalApp {
    pub fn new() -> (r: TerminalApp)
        ensures
            r.query_input@.len() == 0,
            r.filter_input@.len() == 0,
            r.inp_idx == 0,
            r.selected is None,
            r.match_count == 0,
    {
        TerminalApp {
            query_input: String::new(),
            filter_input: String::new(),
            inp_idx: 0,
            selected: None,
            match_count: 0,
        }
    }

    /// The selected match, when it is one of the current matches.
    pub fn get_selected(&self) -> (r: Option<usize>)
        ensures
            r == (match self.selected {
                Some(i) => if i < self.match_count {
                    Some(i)
                } else {
                    None
                },
                None => None,
            }),
    {
        match self.selected {
            Some(i) => if i < self.match_count {
                Some(i)
            } else {
                None
            },
            None => None,
        }
    }

    /// Records how many matches a new query gave; a selection beyond them
    /// is dropped.
    pub fn set_match_count(&mut self, n: usize)
        ensures
            final(self).match_count == n,
            final(self).selected == (match old(self).selected {
                Some(i) => if i < n {
                    Some(i)
                } else {
                    None
                },
                None => None,
            }),
            final(self).query_input == old(self).query_input,
            final(self).filter_input == old(self).filter_input,
            final(self).inp_idx == old(self).inp_idx,
    {
        self.match_count = n;
        self.selected = match self.selected {
            Some(i) => if i < n {
                Some(i)
            } else {
                None
            },
            None => None,
        };
    }

    /// Moves the selection down one match.
    pub fn next(&mut self)
        ensures
            final(self).selected == next_selection(old(self).selected, old(self).match_count),
            final(self).match_count == old(self).match_count,
            final(self).query_input == old(self).query_input,
            final(self).filter_input == old(self).filter_input,
            final(self).inp_idx == old(self).inp_idx,
    {
        let n = self.match_count;
        self.selected = if n == 0 {
            None
        } else {
            match self.selected {
                Some(i) => if i >= n - 1 {
                    Some(0)
                } else {
                    Some(i + 1)
                },
                None => Some(0),
            }
        };
    }

    /// Moves the selection up one match.
    pub fn previous(&mut self)
        ensures
            final(self).selected == previous_selection(old(self).selected, old(self).match_count),
            final(self).match_count == old(self).match_count,
            final(self).query_input == old(self).query_input,
            final(self).filter_input == old(self).filter_input,
            final(self).inp_idx == old(self).inp_idx,
    {
        let n = self.match_count;
        self.selected = if n == 0 {
            None
        } else {
            match self.selected {
                Some(i) => if i == 0 || i > n {
                    Some(n - 1)
                } else {
                    Some(i - 1)
                },
                None => Some(0),
            }
        };
    }
}

fn push_char(s: &mut String, c: char)
    ensures
        final(s)@ == old(s)@.push(c),
{
    let one = [c];
    let t = string_from_chars(&one);
    proof {
        assert(t@ =~= seq![c]);
    }
    s.append(t.as_str());
    proof {
        assert(final(s)@ =~= old(s)@.push(c));
    }
}

fn without_last(s: &String) -> (r: String)
    ensures
        r@ == drop_last_char(s@),
{
    let cs = chars_of(s.as_str());
    if cs.len() == 0 {
        return s.clone();
    }
    let r = substring(&cs, 0, cs.len() - 1);
    proof {
        assert(r@ =~= drop_last_char(s@));
    }
    r
}

impl TerminalApp {
    /// Handles one key press: Enter and Ctrl-C finish; Ctrl-E and Ctrl-V
    /// open the selection in the editor or the pager; Down or Ctrl-N and Up
    /// or Ctrl-P move the selection; Left, Right and Tab switch input box;
    /// other characters are typed into the active box and Backspace removes
    /// its last character. Every key but Enter and Ctrl-C leads to a new query.
    pub fn handle_key(&mut self, key: Key) -> (r: Action)
        requires
            old(self).inp_idx <= 1,
        ensures
            final(self).inp_idx <= 1,
            final(self).match_count == old(self).match_count,
            match key {
                Key::Char('\n') | Key::Ctrl('c') => r == Action::Finish && *final(self) == *old(self),
                Key::Ctrl('e') => r == Action::Edit && *final(self) == *old(self),
                Key::Ctrl('v') => r == Action::View && *final(self) == *old(self),
                Key::Down | Key::Ctrl('n') => r == Action::Moved
                    && final(self).selected == next_selection(old(self).selected, old(self).match_count)
                    && final(self).query_input == old(self).query_input
                    && final(self).filter_input == old(self).filter_input
                    && final(self).inp_idx == old(self).inp_idx,
                Key::Up | Key::Ctrl('p') => r == Action::Moved
                    && final(self).selected == previous_selection(old(self).selected, old(self).match_count)
                    && final(self).query_input == old(self).query_input
                    && final(self).filter_input == old(self).filter_input
                    && final(self).inp_idx == old(self).inp_idx,
                Key::Left | Key::Right | Key::Char('\t') => r == Action::Requery
                    && final(self).inp_idx == 1 - old(self).inp_idx
                    && final(self).query_input == old(self).query_input
                    && final(self).filter_input == old(self).filter_input
                    && final(self).selected == old(self).selected,
                Key::Char(c) => r == Action::Requery
                    && final(self).inp_idx == old(self).inp_idx
                    && final(self).selected == old(self).selected
                    && (if old(self).inp_idx == 0 {
                        final(self).query_input@ == old(self).query_input@.push(c)
                            && final(self).filter_input == old(self).filter_input
                    } else {
                        final(self).filter_input@ == old(self).filter_input@.push(c)
                            && final(self).query_input == old(self).query_input
                    }),
                Key::Backspace => r == Action::Requery
                    && final(self).inp_idx == old(self).inp_idx
                    && final(self).selected == old(self).selected
                    && (if old(self).inp_idx == 0 {
                        final(self).query_input@ == drop_last_char(old(self).query_input@)
                            && final(self).filter_input == old(self).filter_input
                    } else {
                        final(self).filter_input@ == drop_last_char(old(self).filter_input@)
                            && final(self).query_input == old(self).query_input
                    }),
                _ => r == Action::Requery && *final(self) == *old(self),
            },
    {
        match key {
            Key::Char('\n') | Key::Ctrl('c') => Action::Finish,
            Key::Ctrl('e') => Action::Edit,
            Key::Ctrl('v') => Action::View,
            Key::Down | Key::Ctrl('n') => {
                self.next();
                Action::Moved
            },
            Key::Up | Key::Ctrl('p') => {
                self.previous();
                Action::Moved
            },
            Key::Left | Key::Right | Key::Char('\t') => {
                self.inp_idx = if self.inp_idx == 1 {
                    0
                } else {
                    1
                };
                Action::Requery
            },
            Key::Char(c) => {
                if self.inp_idx == 0 {
                    push_char(&mut self.query_input, c);
                } else {
                    push_char(&mut self.filter_input, c);
                }
                Action::Requery
            },
            Key::Backspace => {
                if self.inp_idx == 0 {
                    self.query_input = without_last(&self.query_input);
                } else {
                    self.filter_input = without_last(&self.filter_input);
                }
                Action::Requery
            },
            _ => Action::Requery,
        }
    }
}

} // verus!
