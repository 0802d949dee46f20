//! The session state machine: what each keystroke does to the
//! dashboard state, and which outside action — if any — it asks for.
//! The caller performs the action (a fetch, quitting) and hands the
//! results back through the cache and snapshot functions.

use vstd::prelude::*;

use crate::model::{Focus, InputMode};

verus! {

/// Relies on `String::push`: appends the given character to the end
/// of the string.
pub assume_specification[ String::push ](s: &mut String, c: char)
    ensures
        final(s)@ == old(s)@.push(c),
;

/// Relies on `String::pop`: removes the last character and returns
/// it, or returns `None` when the string is empty.
pub assume_specification[ String::pop ](s: &mut String) -> (r: Option<char>)
    ensures
        old(s)@.len() == 0 ==> r is None && final(s)@ == old(s)@,
        old(s)@.len() > 0 ==> r == Some(old(s)@.last()) && final(s)@ == old(s)@.drop_last(),
;

/// A keystroke, reduced to what the session logic distinguishes.
#[derive(Debug, Clone, Copy)]
pub enum Key {
    Char(char),
    Enter,
    Backspace,
    Esc,
    Left,
    Right,
}

/// What the caller is asked to do after a keystroke is handled.
#[derive(Debug, Clone, Copy, PartialEq, Eq, Structural)]
pub enum Action {
    /// Nothing beyond redrawing.
    Nothing,
    /// Leave the application.
    Quit,
    /// Re-fetch the line status feed.
    RefreshStatus,
    /// Aggregate a timetable for the submitted station name.
    SubmitStation,
}

/// The dashboard state that keystrokes act on.
pub struct Session {
    pub tab_count: usize,
    pub tab_index: usize,
    pub input: String,
    pub input_mode: InputMode,
    pub focus: Option<Focus>,
    pub line_selected: Option<usize>,
    pub lines_tree_size: Option<usize>,
    pub this_station_name: String,
}

/// The tab after `i`, wrapping past `n - 1`.
pub open spec fn next_tab(i: int, n: int) -> int {
    if i + 1 == n {
        0
    } else {
        i + 1
    }
}

/// The tab before `i`, wrapping below zero.
pub open spec fn prev_tab(i: int, n: int) -> int {
    if i > 0 {
        i - 1
    } else {
        n - 1
    }
}

/// All fields equal but the tab position.
pub open spec fn frame_tabs(pre: Session, post: Session) -> bool {
    &&& post.tab_count == pre.tab_count
    &&& post.input == pre.input
    &&& post.input_mode == pre.input_mode
    &&& post.focus == pre.focus
    &&& post.line_selected == pre.line_selected
    &&& post.lines_tree_size == pre.lines_tree_size
    &&& post.this_station_name == pre.this_station_name
}

/// All fields equal but the input mode and the focus.
pub open spec fn frame_mode_focus(pre: Session, post: Session) -> bool {
    &&& post.tab_count == pre.tab_count
    &&& post.tab_index == pre.tab_index
    &&& post.input == pre.input
    &&& post.line_selected == pre.line_selected
    &&& post.lines_tree_size == pre.lines_tree_size
    &&& post.this_station_name == pre.this_station_name
}

/// All fields equal but the line selection.
pub open spec fn frame_selection(pre: Session, post: Session) -> bool {
    &&& post.tab_count == pre.tab_count
    &&& post.tab_index == pre.tab_index
    &&& post.input == pre.input
    &&& post.input_mode == pre.input_mode
    &&& post.focus == pre.focus
    &&& post.lines_tree_size == pre.lines_tree_size
    &&& post.this_station_name == pre.this_station_name
}

/// All fields equal but the input line and the submitted name.
pub open spec fn frame_editing(pre: Session, post: Session) -> bool {
    &&& post.tab_count == pre.tab_count
    &&& post.tab_index == pre.tab_index
    &&& post.input_mode == pre.input_mode
    &&& post.focus == pre.focus
    &&& post.line_selected == pre.line_selected
    &&& post.lines_tree_size == pre.lines_tree_size
}

/// The keystroke relation: what `handle_key` owes for every state and
/// key, following the dashboard's modal bindings.
pub open spec fn steps_to(pre: Session, key: Key, post: Session, act: Action) -> bool {
    match pre.input_mode {
        InputMode::Normal => match key {
            Key::Right => act is Nothing && frame_tabs(pre, post) && post.tab_index == next_tab(
                pre.tab_index as int,
                pre.tab_count as int,
            ),
            Key::Left => act is Nothing && frame_tabs(pre, post) && post.tab_index == prev_tab(
                pre.tab_index as int,
                pre.tab_count as int,
            ),
            Key::Esc => act is Nothing && frame_mode_focus(pre, post) && post.input_mode
                == pre.input_mode && post.focus is None,
            Key::Char(c) => if c == 'i' {
                act is Nothing && frame_mode_focus(pre, post) && post.input_mode is Insert
                    && post.focus matches Some(Focus::InputBlock)
            } else if c == 'q' {
                act is Quit && post == pre
            } else if c == 'r' {
                act is RefreshStatus && post == pre
            } else if c == 'j' {
                act is Nothing && frame_selection(pre, post) && post.line_selected == (
                if pre.focus matches Some(Focus::LinesBlock) && pre.line_selected->0 + 1
                    < pre.lines_tree_size->0 {
                    Some((pre.line_selected->0 + 1) as usize)
                } else {
                    pre.line_selected
                })
            } else if c == 'k' {
                act is Nothing && frame_selection(pre, post) && post.line_selected == (
                if pre.focus matches Some(Focus::LinesBlock) && pre.line_selected->0 > 0 {
                    Some((pre.line_selected->0 - 1) as usize)
                } else {
                    pre.line_selected
                })
            } else {
                act is Nothing && post == pre
            },
            _ => act is Nothing && post == pre,
        },
        InputMode::Insert => match key {
            Key::Enter => act is SubmitStation && frame_editing(pre, post)
                && post.this_station_name@ == pre.input@ && post.input@ == Seq::<char>::empty(),
            Key::Char(c) => act is Nothing && frame_editing(pre, post) && post.this_station_name
                == pre.this_station_name && post.input@ == pre.input@.push(c),
            Key::Backspace => act is Nothing && frame_editing(pre, post)
                && post.this_station_name == pre.this_station_name && post.input@ == (
            if pre.input@.len() > 0 {
                pre.input@.drop_last()
            } else {
                pre.input@
            }),
            Key::Esc => act is Nothing && frame_mode_focus(pre, post)
                && post.input_mode is Normal && post.focus is None,
            _ => act is Nothing && post == pre,
        },
    }
}

impl Session {
    /// Well-formed: there is a tab to show, the shown tab exists, and
    /// the line selection is initialized.
    pub open spec fn wf(self) -> bool {
        &&& self.tab_count > 0
        &&& self.tab_index < self.tab_count
        &&& self.line_selected is Some
        &&& self.lines_tree_size is Some
    }

    /// A fresh session on the first of `tab_count` tabs, in normal
    /// mode, with nothing focused, typed or submitted.
    pub fn new(tab_count: usize) -> (r: Session)
        requires
            tab_count > 0,
        ensures
            r.wf(),
            r.tab_count == tab_count,
            r.tab_index == 0,
            r.input@ == Seq::<char>::empty(),
            r.input_mode is Normal,
            r.focus is None,
            r.line_selected == Some(0usize),
            r.lines_tree_size == Some(0usize),
            r.this_station_name@ == Seq::<char>::empty(),
    {
        Session {
            tab_count,
            tab_index: 0,
            input: String::new(),
            input_mode: InputMode::Normal,
            focus: None,
            line_selected: Some(0),
            lines_tree_size: Some(0),
            this_station_name: String::new(),
        }
    }

    /// Advances to the next tab, wrapping at the end.
    pub fn next(&mut self)
        requires
            old(self).wf(),
        ensures
            final(self).wf(),
            frame_tabs(*old(self), *final(self)),
            final(self).tab_index == next_tab(
                old(self).tab_index as int,
                old(self).tab_count as int,
            ),
    {
        self.tab_index = if self.tab_index + 1 == self.tab_count {
            0
        } else {
            self.tab_index + 1
        };
    }

    /// Steps back to the previous tab, wrapping at the front.
    pub fn previous(&mut self)
        requires
            old(self).wf(),
        ensures
            final(self).wf(),
            frame_tabs(*old(self), *final(self)),
            final(self).tab_index == prev_tab(
                old(self).tab_index as int,
                old(self).tab_count as int,
            ),
    {
        if self.tab_index > 0 {
            self.tab_index = self.tab_index - 1;
        } else {
            self.tab_index = self.tab_count - 1;
        }
    }

    /// Records how many rows the lines list currently shows.
    pub fn set_lines_tree_size(&mut self, size: usize)
        requires
            old(self).wf(),
        ensures
            final(self).wf(),
            final(self).tab_count == old(self).tab_count,
            final(self).tab_index == old(self).tab_index,
            final(self).input == old(self).input,
            final(self).input_mode == old(self).input_mode,
            final(self).focus == old(self).focus,
            final(self).line_selected == old(self).line_selected,
            final(self).this_station_name == old(self).this_station_name,
            final(self).lines_tree_size == Some(size),
    {
        self.lines_tree_size = Some(size);
    }

    /// Handles one keystroke: mutates the state as the key dictates
    /// and returns the action the caller owes, per `steps_to`.
    pub fn handle_key(&mut self, key: Key) -> (act: Action)
        requires
            old(self).wf(),
        ensures
            final(self).wf(),
            steps_to(*old(self), key, *final(self), act),
    {
        match self.input_mode {
            InputMode::Normal => match key {
                Key::Right => {
                    self.next();
                    Action::Nothing
                },
                Key::Left => {
                    self.previous();
                    Action::Nothing
                },
                Key::Esc => {
                    self.focus = None;
                    Action::Nothing
                },
                Key::Char(c) => {
                    if c == 'i' {
                        self.input_mode = InputMode::Insert;
                        self.focus = Some(Focus::InputBlock);
                        Action::Nothing
                    } else if c == 'q' {
                        Action::Quit
                    } else if c == 'r' {
                        Action::RefreshStatus
                    } else if c == 'j' {
                        let focused = match self.focus {
                            Some(Focus::LinesBlock) => true,
                            _ => false,
                        };
                        if focused {
                            let sel = match self.line_selected {
                                Some(s) => s,
                                None => 0,
                            };
                            let size = match self.lines_tree_size {
                                Some(s) => s,
                                None => 0,
                            };
                            if sel < size && size - sel > 1 {
                                self.line_selected = Some(sel + 1);
                            }
                        }
                        Action::Nothing
                    } else if c == 'k' {
                        let focused = match self.focus {
                            Some(Focus::LinesBlock) => true,
                            _ => false,
                        };
                        if focused {
                            let sel = match self.line_selected {
                                Some(s) => s,
                                None => 0,
                            };
                            if sel > 0 {
                                self.line_selected = Some(sel - 1);
                            }
                        }
                        Action::Nothing
                    } else {
                        Action::Nothing
                    }
                },
                _ => Action::Nothing,
            },
            InputMode::Insert => match key {
                Key::Enter => {
                    let mut submitted = String::new();
                    core::mem::swap(&mut submitted, &mut self.input);
                    self.this_station_name = submitted;
                    Action::SubmitStation
                },
                Key::Char(c) => {
                    self.input.push(c);
                    Action::Nothing
                },
                Key::Backspace => {
                    let _ = self.input.pop();
                    Action::Nothing
                },
                Key::Esc => {
                    self.input_mode = InputMode::Normal;
                    self.focus = None;
                    Action::Nothing
                },
                _ => Action::Nothing,
            },
        }
    }
}

} // verus!
