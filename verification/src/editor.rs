//! The editor's state and its control-loop decisions: the keystroke-to-
//! action map, cursor movement, the edit handlers, the prompt answers, and
//! the save-on-exit flow.  Everything here works on plain values; the
//! terminal loop around it only polls, prompts, paints, and performs file
//! reads and writes.

use vstd::prelude::*;

use crate::buffer::{lines_after_insert, lines_after_remove, scratch_name, Buffer, Direction};
use crate::position::{Position, WindowSize};
use crate::text::{
    basename_of, contains_sub, dec_value, find_in_line, is_dec_digits, lower_of, occurs_at,
    parse_u16, to_lower, trim, trimmed,
};

verus! {

/// A keystroke's key, as the terminal reports it.
#[derive(Clone, Copy, Debug, PartialEq, Eq, Structural)]
pub enum Key {
    Char(char),
    Function(u8),
    Up,
    Down,
    Left,
    Right,
    Home,
    End,
    Delete,
    Backspace,
    Enter,
    Tab,
    Other,
}

/// A keystroke: the key, and whether the control modifier alone was held.
#[derive(Clone, Copy, Debug, PartialEq, Eq, Structural)]
pub struct KeyPress {
    pub key: Key,
    pub control: bool,
}

/// What a keystroke asks of the editor.
#[derive(Clone, Copy, Debug, PartialEq, Eq, Structural)]
pub enum Action {
    /// Ask to close, via the save-confirmation flow when there are unsaved
    /// changes.
    RequestClose,
    /// Save the buffer to its current or prompted name.
    Save,
    /// Prompt for a path and open it.
    OpenPrompt,
    /// Replace the buffer with a fresh scratch buffer.
    NewBuffer,
    /// Prompt for a line number and jump to it.
    JumpPrompt,
    /// Prompt for text and move to its first occurrence.
    FindPrompt,
    /// Open the fixed license file, read-only.
    OpenLicense,
    /// Toggle the line-number gutter.
    ToggleGutter,
    /// Move the cursor by the named key.
    Move(Key),
    /// Remove at the cursor, forward.
    DeleteForward,
    /// Remove at the cursor, backward.
    DeleteBackward,
    /// Insert a line break.
    InsertNewline,
    /// Insert a tab.
    InsertTab,
    /// Insert the character.
    Insert(char),
    /// Nothing.
    Idle,
}

/// The fixed keymap: which action each keystroke asks for.  Control
/// combinations other than the six bound ones fall through to insertion,
/// and unbound function keys do nothing.
pub open spec fn action_of(k: KeyPress) -> Action {
    match k.key {
        Key::Char(c) => {
            if k.control && c == 'q' {
                Action::RequestClose
            } else if k.control && c == 'w' {
                Action::Save
            } else if k.control && c == 'o' {
                Action::OpenPrompt
            } else if k.control && c == 'n' {
                Action::NewBuffer
            } else if k.control && c == 'j' {
                Action::JumpPrompt
            } else if k.control && c == 'f' {
                Action::FindPrompt
            } else {
                Action::Insert(c)
            }
        },
        Key::Function(n) => {
            if n == 2 {
                Action::OpenLicense
            } else if n == 4 {
                Action::ToggleGutter
            } else {
                Action::Idle
            }
        },
        Key::Up => Action::Move(Key::Up),
        Key::Down => Action::Move(Key::Down),
        Key::Left => Action::Move(Key::Left),
        Key::Right => Action::Move(Key::Right),
        Key::Home => Action::Move(Key::Home),
        Key::End => Action::Move(Key::End),
        Key::Delete => Action::DeleteForward,
        Key::Backspace => Action::DeleteBackward,
        Key::Enter => Action::InsertNewline,
        Key::Tab => Action::InsertTab,
        Key::Other => Action::Idle,
    }
}

/// Looks a keystroke up in the keymap.
pub fn dispatch(k: KeyPress) -> (a: Action)
    ensures
        a == action_of(k),
{
    match k.key {
        Key::Char(c) => {
            if k.control && c == 'q' {
                Action::RequestClose
            } else if k.control && c == 'w' {
                Action::Save
            } else if k.control && c == 'o' {
                Action::OpenPrompt
            } else if k.control && c == 'n' {
                Action::NewBuffer
            } else if k.control && c == 'j' {
                Action::JumpPrompt
            } else if k.control && c == 'f' {
                Action::FindPrompt
            } else {
                Action::Insert(c)
            }
        },
        Key::Function(n) => {
            if n == 2 {
                Action::OpenLicense
            } else if n == 4 {
                Action::ToggleGutter
            } else {
                Action::Idle
            }
        },
        Key::Up => Action::Move(Key::Up),
        Key::Down => Action::Move(Key::Down),
        Key::Left => Action::Move(Key::Left),
        Key::Right => Action::Move(Key::Right),
        Key::Home => Action::Move(Key::Home),
        Key::End => Action::Move(Key::End),
        Key::Delete => Action::DeleteForward,
        Key::Backspace => Action::DeleteBackward,
        Key::Enter => Action::InsertNewline,
        Key::Tab => Action::InsertTab,
        Key::Other => Action::Idle,
    }
}

/// How many idle ticks a status message lives.
pub open spec fn status_ticks() -> int {
    20
}

/// The editor's whole state: the buffer it owns, the cursor, the terminal
/// size, the close request, the transient status message with its tick
/// counter, the clean/dirty flag (`write_status` is true when there is
/// nothing unsaved), and the gutter toggle.
pub struct Editor {
    pub should_close: bool,
    pub window_size: WindowSize,
    pub cursor_pos: Position,
    pub buffer: Buffer,
    pub status_message: Vec<char>,
    pub draw_accumulator: u32,
    pub write_status: bool,
    pub line_numbers: bool,
}

/// Where the cursor stands after a movement key, over the document `lines`:
/// up and down move one row, clamped to the document, and snap the column
/// to the end of the destination line; left and right move one column,
/// clamped to the current line; home and end snap to the line's ends.  On
/// an empty document, or from a row that does not exist, every movement
/// leaves the cursor alone.
pub open spec fn moved_cursor(lines: Seq<Seq<char>>, cur: Position, code: Key) -> (int, int) {
    if lines.len() == 0 || cur.r >= lines.len() {
        (cur.r as int, cur.c as int)
    } else {
        let ll = lines[cur.r as int].len() as int;
        match code {
            Key::Up => {
                let nr = if cur.r > 0 {
                    cur.r - 1
                } else {
                    0
                };
                (nr, lines[nr].len() as int)
            },
            Key::Down => {
                let nr = if cur.r + 1 < lines.len() {
                    cur.r + 1
                } else {
                    lines.len() - 1
                };
                (nr, lines[nr].len() as int)
            },
            Key::Left => {
                let base = if cur.c > 0 {
                    cur.c - 1
                } else {
                    0
                };
                (
                    cur.r as int,
                    if base <= ll {
                        base
                    } else {
                        ll
                    },
                )
            },
            Key::Right => (
                cur.r as int,
                if cur.c + 1 <= ll {
                    cur.c + 1
                } else {
                    ll
                },
            ),
            Key::Home => (cur.r as int, 0),
            Key::End => (cur.r as int, ll),
            _ => (cur.r as int, cur.c as int),
        }
    }
}

impl Default for Editor {
    /// The editor as it starts: an empty scratch buffer, the cursor at the
    /// origin, nothing to save, no close request, no gutter.
    fn default() -> (res: Self)
        ensures
            !res.should_close,
            res.window_size.cols == 0 && res.window_size.rows == 0,
            res.cursor_pos.r == 0 && res.cursor_pos.c == 0,
            res.buffer@ == Seq::<Seq<char>>::empty(),
            res.buffer.name@ == scratch_name(),
            !res.buffer.read_only,
            res.status_message@ == Seq::<char>::empty(),
            res.draw_accumulator == 0,
            res.write_status,
            !res.line_numbers,
            res.wf(),
    {
        let res = Editor {
            should_close: false,
            window_size: WindowSize { cols: 0, rows: 0 },
            cursor_pos: Position { r: 0, c: 0 },
            buffer: Buffer::default(),
            status_message: Vec::new(),
            draw_accumulator: 0,
            write_status: true,
            line_numbers: false,
        };
        res
    }
}

impl Editor {
    /// The editor's invariant: the document is well formed, the cursor is
    /// at a position the buffer accepts, and the status counter is within
    /// its countdown.
    pub open spec fn wf(&self) -> bool {
        &&& self.buffer.wf()
        &&& self.buffer.pos_in(self.cursor_pos)
        &&& self.draw_accumulator <= status_ticks()
    }

    /// Moves the cursor by one movement key, as `moved_cursor` says; every
    /// other key moves nothing.  Touches nothing but the cursor.  From a
    /// position inside the document the cursor always lands inside the
    /// document again, whatever the key.
    pub fn move_cursor(&mut self, code: Key)
        ensures
            final(self).cursor_pos.r == moved_cursor(
                old(self).buffer@,
                old(self).cursor_pos,
                code,
            ).0,
            final(self).cursor_pos.c == moved_cursor(
                old(self).buffer@,
                old(self).cursor_pos,
                code,
            ).1,
            final(self).buffer == old(self).buffer,
            final(self).should_close == old(self).should_close,
            final(self).window_size == old(self).window_size,
            final(self).status_message == old(self).status_message,
            final(self).draw_accumulator == old(self).draw_accumulator,
            final(self).write_status == old(self).write_status,
            final(self).line_numbers == old(self).line_numbers,
            ({
                let lines = old(self).buffer@;
                let p = final(self).cursor_pos;
                (lines.len() > 0 && old(self).cursor_pos.r < lines.len() && matches!(
                    code,
                    Key::Up | Key::Down | Key::Left | Key::Right | Key::Home | Key::End,
                )) ==> (p.r < lines.len() && p.c <= lines[p.r as int].len())
            }),
            old(self).wf() ==> final(self).wf(),
    {
        let len = self.buffer.len();
        if len == 0 || self.cursor_pos.r >= len {
            return ;
        }
        match code {
            Key::Up => {
                if self.cursor_pos.r > 0 {
                    self.cursor_pos.r = self.cursor_pos.r - 1;
                }
                self.cursor_pos.c = self.buffer.lines[self.cursor_pos.r].len();
            },
            Key::Down => {
                if self.cursor_pos.r + 1 < len {
                    self.cursor_pos.r = self.cursor_pos.r + 1;
                } else {
                    self.cursor_pos.r = len - 1;
                }
                self.cursor_pos.c = self.buffer.lines[self.cursor_pos.r].len();
            },
            Key::Left => {
                let ll = self.buffer.lines[self.cursor_pos.r].len();
                let base = if self.cursor_pos.c > 0 {
                    self.cursor_pos.c - 1
                } else {
                    0
                };
                self.cursor_pos.c = if base <= ll {
                    base
                } else {
                    ll
                };
            },
            Key::Right => {
                let ll = self.buffer.lines[self.cursor_pos.r].len();
                self.cursor_pos.c = if self.cursor_pos.c < ll {
                    self.cursor_pos.c + 1
                } else {
                    ll
                };
            },
            Key::Home => {
                self.cursor_pos.c = 0;
            },
            Key::End => {
                self.cursor_pos.c = self.buffer.lines[self.cursor_pos.r].len();
            },
            _ => {},
        }
    }
}

/// What the editor asks its surroundings to do after a keystroke: run a
/// prompt, read or write a file.  Everything that needs no input or file
/// system is already done when the request comes back.
#[derive(Clone, Copy, Debug, PartialEq, Eq, Structural)]
pub enum PromptRequest {
    Nothing,
    /// Save the buffer; `needs_name` when it is an unnamed scratch buffer
    /// and a file name must be asked for first.
    Save { needs_name: bool },
    /// Prompt for a path to open; `confirm_save` when unsaved changes must
    /// be settled first.
    Open { confirm_save: bool },
    /// Replace the buffer with a fresh scratch one; `confirm_save` as above.
    New { confirm_save: bool },
    /// Prompt for a line number.
    Jump,
    /// Prompt for search text.
    Find,
    /// Open the fixed license file, read-only.
    License,
}

/// The cursor pulled back inside the document after a removal: the row
/// clamped to the last line, the column clamped to that line's end.
pub open spec fn clamped_cursor(lines: Seq<Seq<char>>, cur: Position) -> (int, int) {
    if lines.len() == 0 {
        (0, 0)
    } else {
        let r = if cur.r < lines.len() {
            cur.r as int
        } else {
            lines.len() - 1
        };
        let c = if cur.c <= lines[r].len() {
            cur.c as int
        } else {
            lines[r].len() as int
        };
        (r, c)
    }
}

/// Where the cursor stands after a backward removal took a whole line: one
/// row up, clamped into the document, at the end of that line.
pub open spec fn snapped_up_cursor(lines: Seq<Seq<char>>, cur: Position) -> (int, int) {
    if lines.len() == 0 {
        (0, 0)
    } else {
        let r0 = if cur.r > 0 {
            cur.r - 1
        } else {
            0
        };
        let r = if r0 < lines.len() {
            r0
        } else {
            lines.len() - 1
        };
        (r, lines[r].len() as int)
    }
}

/// The fields a keystroke never touches.
pub open spec fn same_surroundings(pre: Editor, post: Editor) -> bool {
    &&& post.window_size == pre.window_size
    &&& post.status_message == pre.status_message
    &&& post.draw_accumulator == pre.draw_accumulator
}

/// The fields an edit keystroke leaves alone: everything but the buffer,
/// the cursor and the dirty flag.
pub open spec fn same_but_edit(pre: Editor, post: Editor) -> bool {
    &&& same_surroundings(pre, post)
    &&& post.should_close == pre.should_close
    &&& post.line_numbers == pre.line_numbers
}

/// The dirty flag after an edit keystroke: a non-read-only buffer becomes
/// dirty, whatever the edit's net effect; a read-only one keeps its flag.
pub open spec fn dirty_after_edit(pre: Editor, post: Editor) -> bool {
    post.write_status == if pre.buffer.read_only {
        pre.write_status
    } else {
        false
    }
}

impl Editor {
    /// Applies one keystroke: the whole keymap of `action_of`, with every
    /// part that works on plain values done in place, and a request
    /// returned for whatever needs a prompt or the file system.
    pub fn process_keypress(&mut self, k: KeyPress) -> (req: PromptRequest)
        requires
            old(self).wf(),
        ensures
            final(self).wf(),
            same_surroundings(*old(self), *final(self)),
            ({
                let pre = *old(self);
                let post = *final(self);
                match action_of(k) {
                    Action::RequestClose => post == (Editor { should_close: true, ..pre }) && req
                        == PromptRequest::Nothing,
                    Action::Save => post == pre && req == (PromptRequest::Save {
                        needs_name: pre.buffer.name@ == scratch_name(),
                    }),
                    Action::OpenPrompt => post == pre && req == (PromptRequest::Open {
                        confirm_save: !pre.write_status,
                    }),
                    Action::NewBuffer => post == pre && req == (PromptRequest::New {
                        confirm_save: !pre.write_status,
                    }),
                    Action::JumpPrompt => post == pre && req == PromptRequest::Jump,
                    Action::FindPrompt => post == pre && req == PromptRequest::Find,
                    Action::OpenLicense => post == pre && req == PromptRequest::License,
                    Action::ToggleGutter => post == (Editor {
                        line_numbers: !pre.line_numbers,
                        ..pre
                    }) && req == PromptRequest::Nothing,
                    Action::Move(code) => {
                        &&& post.cursor_pos.r == moved_cursor(pre.buffer@, pre.cursor_pos, code).0
                        &&& post.cursor_pos.c == moved_cursor(pre.buffer@, pre.cursor_pos, code).1
                        &&& post == (Editor { cursor_pos: post.cursor_pos, ..pre })
                        &&& req == PromptRequest::Nothing
                    },
                    Action::DeleteForward => {
                        let l2 = lines_after_remove(
                            pre.buffer@,
                            pre.buffer.read_only,
                            Direction::Forward,
                            pre.cursor_pos.r as int,
                            pre.cursor_pos.c as int,
                        );
                        &&& post.buffer@ == l2
                        &&& post.buffer.name == pre.buffer.name
                        &&& post.buffer.read_only == pre.buffer.read_only
                        &&& post.cursor_pos.r == clamped_cursor(l2, pre.cursor_pos).0
                        &&& post.cursor_pos.c == clamped_cursor(l2, pre.cursor_pos).1
                        &&& dirty_after_edit(pre, post)
                        &&& same_but_edit(pre, post)
                        &&& req == PromptRequest::Nothing
                    },
                    Action::DeleteBackward => {
                        let l2 = lines_after_remove(
                            pre.buffer@,
                            pre.buffer.read_only,
                            Direction::Backward,
                            pre.cursor_pos.r as int,
                            pre.cursor_pos.c as int,
                        );
                        let removed = l2.len() != pre.buffer@.len();
                        &&& post.buffer@ == l2
                        &&& post.buffer.name == pre.buffer.name
                        &&& post.buffer.read_only == pre.buffer.read_only
                        &&& removed ==> (post.cursor_pos.r == snapped_up_cursor(
                            l2,
                            pre.cursor_pos,
                        ).0 && post.cursor_pos.c == snapped_up_cursor(l2, pre.cursor_pos).1)
                        &&& !removed ==> (post.cursor_pos.r == moved_cursor(
                            l2,
                            pre.cursor_pos,
                            Key::Left,
                        ).0 && post.cursor_pos.c == moved_cursor(l2, pre.cursor_pos, Key::Left).1)
                        &&& dirty_after_edit(pre, post)
                        &&& same_but_edit(pre, post)
                        &&& req == PromptRequest::Nothing
                    },
                    Action::InsertNewline => {
                        let l2 = lines_after_insert(
                            pre.buffer@,
                            pre.buffer.read_only,
                            pre.cursor_pos.r as int,
                            pre.cursor_pos.c as int,
                            '\n',
                        );
                        &&& post.buffer@ == l2
                        &&& post.buffer.name == pre.buffer.name
                        &&& post.buffer.read_only == pre.buffer.read_only
                        &&& post.cursor_pos.r == moved_cursor(l2, pre.cursor_pos, Key::Down).0
                        &&& post.cursor_pos.c == moved_cursor(l2, pre.cursor_pos, Key::Down).1
                        &&& dirty_after_edit(pre, post)
                        &&& same_but_edit(pre, post)
                        &&& req == PromptRequest::Nothing
                    },
                    Action::InsertTab => {
                        let l2 = lines_after_insert(
                            pre.buffer@,
                            pre.buffer.read_only,
                            pre.cursor_pos.r as int,
                            pre.cursor_pos.c as int,
                            '\t',
                        );
                        &&& post.buffer@ == l2
                        &&& post.buffer.name == pre.buffer.name
                        &&& post.buffer.read_only == pre.buffer.read_only
                        &&& post.cursor_pos.r == moved_cursor(l2, pre.cursor_pos, Key::End).0
                        &&& post.cursor_pos.c == moved_cursor(l2, pre.cursor_pos, Key::End).1
                        &&& dirty_after_edit(pre, post)
                        &&& same_but_edit(pre, post)
                        &&& req == PromptRequest::Nothing
                    },
                    Action::Insert(c) => {
                        let l2 = lines_after_insert(
                            pre.buffer@,
                            pre.buffer.read_only,
                            pre.cursor_pos.r as int,
                            pre.cursor_pos.c as int,
                            c,
                        );
                        &&& post.buffer@ == l2
                        &&& post.buffer.name == pre.buffer.name
                        &&& post.buffer.read_only == pre.buffer.read_only
                        &&& post.cursor_pos.r == moved_cursor(l2, pre.cursor_pos, Key::Right).0
                        &&& post.cursor_pos.c == moved_cursor(l2, pre.cursor_pos, Key::Right).1
                        &&& dirty_after_edit(pre, post)
                        &&& same_but_edit(pre, post)
                        &&& req == PromptRequest::Nothing
                    },
                    Action::Idle => post == pre && req == PromptRequest::Nothing,
                }
            }),
    {
        let a = dispatch(k);
        match a {
            Action::RequestClose => {
                self.should_close = true;
                PromptRequest::Nothing
            },
            Action::Save => {
                let needs_name = self.buffer.is_scratch();
                PromptRequest::Save { needs_name }
            },
            Action::OpenPrompt => PromptRequest::Open { confirm_save: !self.write_status },
            Action::NewBuffer => PromptRequest::New { confirm_save: !self.write_status },
            Action::JumpPrompt => PromptRequest::Jump,
            Action::FindPrompt => PromptRequest::Find,
            Action::OpenLicense => PromptRequest::License,
            Action::ToggleGutter => {
                self.line_numbers = !self.line_numbers;
                PromptRequest::Nothing
            },
            Action::Move(code) => {
                self.move_cursor(code);
                PromptRequest::Nothing
            },
            Action::DeleteForward => {
                if !self.buffer.read_only {
                    self.write_status = false;
                }
                self.buffer.remove(self.cursor_pos, Direction::Forward, 1);
                let len2 = self.buffer.len();
                if len2 == 0 {
                    self.cursor_pos.r = 0;
                    self.cursor_pos.c = 0;
                } else {
                    if self.cursor_pos.r >= len2 {
                        self.cursor_pos.r = len2 - 1;
                    }
                    let ll = self.buffer.lines[self.cursor_pos.r].len();
                    if self.cursor_pos.c > ll {
                        self.cursor_pos.c = ll;
                    }
                }
                PromptRequest::Nothing
            },
            Action::DeleteBackward => {
                if !self.buffer.read_only {
                    self.write_status = false;
                }
                let pre_len = self.buffer.len();
                self.buffer.remove(self.cursor_pos, Direction::Backward, 1);
                let len2 = self.buffer.len();
                if len2 != pre_len {
                    if len2 == 0 {
                        self.cursor_pos.r = 0;
                        self.cursor_pos.c = 0;
                    } else {
                        let r0 = if self.cursor_pos.r > 0 {
                            self.cursor_pos.r - 1
                        } else {
                            0
                        };
                        let nr = if r0 < len2 {
                            r0
                        } else {
                            len2 - 1
                        };
                        self.cursor_pos.r = nr;
                        self.cursor_pos.c = self.buffer.lines[nr].len();
                    }
                } else {
                    self.move_cursor(Key::Left);
                }
                PromptRequest::Nothing
            },
            Action::InsertNewline => {
                if !self.buffer.read_only {
                    self.write_status = false;
                }
                self.buffer.insert(self.cursor_pos, '\n');
                self.move_cursor(Key::Down);
                PromptRequest::Nothing
            },
            Action::InsertTab => {
                if !self.buffer.read_only {
                    self.write_status = false;
                }
                self.buffer.insert(self.cursor_pos, '\t');
                self.move_cursor(Key::End);
                PromptRequest::Nothing
            },
            Action::Insert(c) => {
                if !self.buffer.read_only {
                    self.write_status = false;
                }
                self.buffer.insert(self.cursor_pos, c);
                self.move_cursor(Key::Right);
                PromptRequest::Nothing
            },
            Action::Idle => PromptRequest::Nothing,
        }
    }
}

/// A prompt answer in the close and save flows.
#[derive(Clone, Copy, Debug, PartialEq, Eq, Structural)]
pub enum Answer {
    Yes,
    No,
    Cancel,
    Unrecognized,
}

/// Which answer a line of input gives: matched after trimming and
/// lowering, as `y`/`yes`, `n`/`no` or `c`/`cancel`; anything else, an
/// empty line included, is unrecognized.
pub open spec fn answer_of(s: Seq<char>) -> Answer {
    let t = lower_of(trimmed(s));
    if t == seq!['y'] || t == seq!['y', 'e', 's'] {
        Answer::Yes
    } else if t == seq!['n'] || t == seq!['n', 'o'] {
        Answer::No
    } else if t == seq!['c'] || t == seq!['c', 'a', 'n', 'c', 'e', 'l'] {
        Answer::Cancel
    } else {
        Answer::Unrecognized
    }
}

/// Reads a prompt answer from a line of input.
pub fn parse_answer(s: &Vec<char>) -> (a: Answer)
    ensures
        a == answer_of(s@),
{
    let t0 = trim(s);
    let t = to_lower(&t0);
    let is_yes = (t.len() == 1 && t[0] == 'y') || (t.len() == 3 && t[0] == 'y' && t[1] == 'e'
        && t[2] == 's');
    let is_no = (t.len() == 1 && t[0] == 'n') || (t.len() == 2 && t[0] == 'n' && t[1] == 'o');
    let is_cancel = (t.len() == 1 && t[0] == 'c') || (t.len() == 6 && t[0] == 'c' && t[1] == 'a'
        && t[2] == 'n' && t[3] == 'c' && t[4] == 'e' && t[5] == 'l');
    proof {
        if is_yes {
            if t@.len() == 1 {
                assert(t@ =~= seq!['y']);
            } else {
                assert(t@ =~= seq!['y', 'e', 's']);
            }
        }
        if is_no {
            if t@.len() == 1 {
                assert(t@ =~= seq!['n']);
            } else {
                assert(t@ =~= seq!['n', 'o']);
            }
        }
        if is_cancel {
            if t@.len() == 1 {
                assert(t@ =~= seq!['c']);
            } else {
                assert(t@ =~= seq!['c', 'a', 'n', 'c', 'e', 'l']);
            }
        }
    }
    if is_yes {
        Answer::Yes
    } else if is_no {
        Answer::No
    } else if is_cancel {
        Answer::Cancel
    } else {
        Answer::Unrecognized
    }
}

/// Whether a save-confirmation answer asks for the save.
pub fn wants_save(answer: &Vec<char>) -> (b: bool)
    ensures
        b <==> answer_of(answer@) == Answer::Yes,
{
    match parse_answer(answer) {
        Answer::Yes => true,
        _ => false,
    }
}

/// What one round of the close-confirmation prompt decides.
#[derive(Clone, Copy, Debug, PartialEq, Eq, Structural)]
pub enum CloseStep {
    /// Save, then close.
    SaveAndExit,
    /// Close, discarding the changes.
    Exit,
    /// The close request is revoked; back to editing.
    Stay,
    /// The answer was not understood; ask again.
    AskAgain,
}

/// The modeline's account of the buffer: untouched, edited since the last
/// save, or not writable at all.
#[derive(Clone, Copy, Debug, PartialEq, Eq, Structural)]
pub enum FileStatus {
    Clean,
    Modified,
    ReadOnly,
}

impl Editor {
    /// One round of the three-way close prompt: `yes` saves and closes,
    /// `no` closes and discards, `cancel` revokes the close request, and
    /// anything else asks again.
    pub fn resolve_close(&mut self, answer: &Vec<char>) -> (step: CloseStep)
        ensures
            ({
                let pre = *old(self);
                let post = *final(self);
                match answer_of(answer@) {
                    Answer::Yes => step == CloseStep::SaveAndExit && post == pre,
                    Answer::No => step == CloseStep::Exit && post == pre,
                    Answer::Cancel => step == CloseStep::Stay && post == (Editor {
                        should_close: false,
                        ..pre
                    }),
                    Answer::Unrecognized => step == CloseStep::AskAgain && post == pre,
                }
            }),
            old(self).wf() ==> final(self).wf(),
    {
        match parse_answer(answer) {
            Answer::Yes => CloseStep::SaveAndExit,
            Answer::No => CloseStep::Exit,
            Answer::Cancel => {
                self.should_close = false;
                CloseStep::Stay
            },
            Answer::Unrecognized => CloseStep::AskAgain,
        }
    }

    /// Sets the status line and restarts its countdown.
    pub fn update_status(&mut self, message: Vec<char>)
        ensures
            *final(self) == (Editor {
                status_message: final(self).status_message,
                draw_accumulator: 0,
                ..*old(self)
            }),
            final(self).status_message == message,
            old(self).wf() ==> final(self).wf(),
    {
        self.status_message = message;
        self.draw_accumulator = 0;
    }

    /// One idle tick of the status countdown: when the countdown has run
    /// out the message is cleared and the count starts over.
    pub fn status_tick(&mut self)
        requires
            old(self).draw_accumulator <= status_ticks(),
        ensures
            ({
                let pre = *old(self);
                let post = *final(self);
                &&& (if pre.draw_accumulator == status_ticks() {
                    post.status_message@ == Seq::<char>::empty() && post.draw_accumulator == 1
                } else {
                    post.status_message == pre.status_message && post.draw_accumulator
                        == pre.draw_accumulator + 1
                })
                &&& post == (Editor {
                    status_message: post.status_message,
                    draw_accumulator: post.draw_accumulator,
                    ..pre
                })
            }),
            final(self).draw_accumulator <= status_ticks(),
            old(self).wf() ==> final(self).wf(),
    {
        if self.draw_accumulator == 20 {
            self.status_message = Vec::new();
            self.draw_accumulator = 0;
        }
        self.draw_accumulator = self.draw_accumulator + 1;
    }

    /// Jumps to a prompted line number: the input is trimmed and read as a
    /// decimal row; a number beyond the document, or input that is no
    /// number at all, leaves the cursor where it is.  The column is pulled
    /// back to the destination line's end when it would pass it.
    pub fn prompt_jump(&mut self, input: &Vec<char>)
        requires
            old(self).wf(),
        ensures
            final(self).wf(),
            *final(self) == (Editor { cursor_pos: final(self).cursor_pos, ..*old(self) }),
            ({
                let pre = *old(self);
                let post = *final(self);
                let t = trimmed(input@);
                let body = if t.len() > 0 && t[0] == '+' {
                    t.skip(1)
                } else {
                    t
                };
                let target: int = if is_dec_digits(body) && dec_value(body) <= u16::MAX {
                    dec_value(body)
                } else {
                    pre.cursor_pos.r as int
                };
                if target < pre.buffer@.len() {
                    post.cursor_pos.r == target && post.cursor_pos.c == (
                    if pre.cursor_pos.c <= pre.buffer@[target].len() {
                        pre.cursor_pos.c as int
                    } else {
                        pre.buffer@[target].len() as int
                    })
                } else {
                    post.cursor_pos == pre.cursor_pos
                }
            }),
    {
        let t = trim(input);
        let target: usize = match parse_u16(&t) {
            Some(n) => n as usize,
            None => self.cursor_pos.r,
        };
        if target < self.buffer.len() {
            self.cursor_pos.r = target;
            let ll = self.buffer.lines[target].len();
            if self.cursor_pos.c > ll {
                self.cursor_pos.c = ll;
            }
        }
    }

    /// Moves the cursor to the first occurrence of `s`: the first row that
    /// contains it, and the first column of the occurrence within that
    /// row.  When no row contains it, the cursor stays and the search
    /// reports failure.
    pub fn search(&mut self, s: &Vec<char>) -> (found: bool)
        requires
            old(self).wf(),
        ensures
            final(self).wf(),
            *final(self) == (Editor { cursor_pos: final(self).cursor_pos, ..*old(self) }),
            found <==> exists|q: int|
                0 <= q < old(self).buffer@.len() && contains_sub(#[trigger] old(self).buffer@[q], s@),
            ({
                let pre = *old(self);
                let post = *final(self);
                if found {
                    &&& post.cursor_pos.r < pre.buffer@.len()
                    &&& contains_sub(pre.buffer@[post.cursor_pos.r as int], s@)
                    &&& forall|q: int|
                        0 <= q < post.cursor_pos.r ==> !contains_sub(#[trigger] pre.buffer@[q], s@)
                    &&& occurs_at(
                        pre.buffer@[post.cursor_pos.r as int],
                        s@,
                        post.cursor_pos.c as int,
                    )
                    &&& forall|j: int|
                        0 <= j < post.cursor_pos.c ==> !occurs_at(
                            pre.buffer@[post.cursor_pos.r as int],
                            s@,
                            j,
                        )
                } else {
                    post.cursor_pos == pre.cursor_pos
                }
            }),
    {
        match self.buffer.find(s) {
            Ok(row) => {
                match find_in_line(&self.buffer.lines[row], s) {
                    Some(idx) => {
                        self.cursor_pos.r = row;
                        self.cursor_pos.c = idx;
                        true
                    },
                    None => {
                        proof {
                            assert(false);
                        }
                        false
                    },
                }
            },
            Err(_) => false,
        }
    }

    /// Replaces the buffer with a fresh scratch buffer and homes the
    /// cursor; there is nothing unsaved in it.
    pub fn new_buffer(&mut self)
        ensures
            final(self).buffer@ == Seq::<Seq<char>>::empty(),
            final(self).buffer.name@ == scratch_name(),
            !final(self).buffer.read_only,
            final(self).cursor_pos.r == 0 && final(self).cursor_pos.c == 0,
            final(self).write_status,
            final(self).should_close == old(self).should_close,
            final(self).window_size == old(self).window_size,
            final(self).status_message == old(self).status_message,
            final(self).draw_accumulator == old(self).draw_accumulator,
            final(self).line_numbers == old(self).line_numbers,
            old(self).draw_accumulator <= status_ticks() ==> final(self).wf(),
    {
        self.buffer = Buffer::default();
        self.cursor_pos = Position { r: 0, c: 0 };
        self.write_status = true;
    }

    /// Installs a buffer that opening a path produced, and homes the
    /// cursor.
    pub fn apply_open(&mut self, buffer: Buffer)
        requires
            buffer.wf(),
        ensures
            final(self).buffer == buffer,
            final(self).cursor_pos.r == 0 && final(self).cursor_pos.c == 0,
            final(self).should_close == old(self).should_close,
            final(self).window_size == old(self).window_size,
            final(self).status_message == old(self).status_message,
            final(self).draw_accumulator == old(self).draw_accumulator,
            final(self).write_status == old(self).write_status,
            final(self).line_numbers == old(self).line_numbers,
            old(self).draw_accumulator <= status_ticks() ==> final(self).wf(),
    {
        self.buffer = buffer;
        self.cursor_pos = Position { r: 0, c: 0 };
    }

    /// Records a completed save to `target`: the buffer takes the target's
    /// base name, the editor is clean again, and the written line count is
    /// returned for the status line.
    pub fn finish_save(&mut self, target: &Vec<char>) -> (count: usize)
        requires
            old(self).wf(),
        ensures
            final(self).wf(),
            final(self).buffer@ == old(self).buffer@,
            final(self).buffer.name@ == basename_of(target@),
            final(self).buffer.read_only == old(self).buffer.read_only,
            final(self).write_status,
            count == old(self).buffer@.len(),
            final(self).cursor_pos == old(self).cursor_pos,
            final(self).should_close == old(self).should_close,
            final(self).window_size == old(self).window_size,
            final(self).status_message == old(self).status_message,
            final(self).draw_accumulator == old(self).draw_accumulator,
            final(self).line_numbers == old(self).line_numbers,
    {
        let count = self.buffer.finish_write(target);
        self.write_status = true;
        count
    }

    /// The modeline's flag for the buffer.
    pub fn file_status(&self) -> (f: FileStatus)
        ensures
            f == (if !self.write_status {
                FileStatus::Modified
            } else if self.buffer.read_only {
                FileStatus::ReadOnly
            } else {
                FileStatus::Clean
            }),
    {
        if !self.write_status {
            FileStatus::Modified
        } else if self.buffer.read_only {
            FileStatus::ReadOnly
        } else {
            FileStatus::Clean
        }
    }
}

} // verus!
