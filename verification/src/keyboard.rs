//! The modal input state machine: decoded keys, the transition each key
//! causes in normal and insert mode, and the vim-style motion table.

use vstd::prelude::*;

use crate::editor::{rows_view, EditorMode, EditorState};
use crate::row::Erow;
use crate::text::{copy_range, push_all};

verus! {

/// A decoded keystroke, as the mode controller interprets it.
#[derive(Clone, Copy, Debug, PartialEq, Eq, Structural)]
pub enum EditorKey {
    CtrlQ,
    CtrlS,
    Esc,
    Backspace,
    Enter,
    Char(char),
    Other,
}

/// What the caller must do after a key was processed: go on with the next
/// frame, write the buffer out, or terminate.
#[derive(Clone, Copy, Debug, PartialEq, Eq, Structural)]
pub enum EditorAction {
    Continue,
    Save,
    Quit,
}

/// The characters the word motions treat as blank within a row.
pub open spec fn is_blank(c: char) -> bool {
    c == ' ' || c == '\t'
}

/// First index at or after `i` that is blank or the end of the row.
pub open spec fn skip_word(s: Seq<char>, i: int) -> int
    decreases s.len() - i,
{
    if 0 <= i < s.len() && !is_blank(s[i]) {
        skip_word(s, i + 1)
    } else {
        i
    }
}

/// First index at or after `i` that is non-blank or the end of the row.
pub open spec fn skip_blanks(s: Seq<char>, i: int) -> int
    decreases s.len() - i,
{
    if 0 <= i < s.len() && is_blank(s[i]) {
        skip_blanks(s, i + 1)
    } else {
        i
    }
}

/// Last index at or before `i` with no blank immediately before it.
pub open spec fn back_blanks(s: Seq<char>, i: int) -> int
    decreases i,
{
    if 0 < i <= s.len() && is_blank(s[i - 1]) {
        back_blanks(s, i - 1)
    } else {
        i
    }
}

/// Last index at or before `i` with no word character immediately before
/// it.
pub open spec fn back_word(s: Seq<char>, i: int) -> int
    decreases i,
{
    if 0 < i <= s.len() && !is_blank(s[i - 1]) {
        back_word(s, i - 1)
    } else {
        i
    }
}

/// Where the `w` motion lands from column `cx`: past the rest of the
/// current word and the following blanks, onto the start of the next word;
/// when no next word exists the cursor does not move.
pub open spec fn next_word_of(s: Seq<char>, cx: int) -> int {
    let j = skip_blanks(s, skip_word(s, cx));
    if j < s.len() {
        j
    } else {
        cx
    }
}

/// Where the `b` motion lands from column `cx`: back over any blanks
/// immediately to the left, then to the start of that word.
pub open spec fn prev_word_of(s: Seq<char>, cx: int) -> int {
    back_word(s, back_blanks(s, cx))
}

/// The fields no key transition ever changes: the window, the viewport
/// offsets, the rendered cursor column (recomputed only by scrolling), and
/// the file identity.
pub open spec fn frame(pre: EditorState, post: EditorState) -> bool {
    &&& post.dimensions == pre.dimensions
    &&& post.rowoff == pre.rowoff
    &&& post.coloff == pre.coloff
    &&& post.rx == pre.rx
    &&& post.path == pre.path
    &&& post.filename == pre.filename
}

/// A transition that moves only the cursor.
pub open spec fn cursor_only(pre: EditorState, post: EditorState) -> bool {
    &&& frame(pre, post)
    &&& post.row@ == pre.row@
    &&& post.numrows == pre.numrows
    &&& post.mode == pre.mode
    &&& post.dirty == pre.dirty
}

/// Entering insert mode with `i`: in an empty buffer one empty row is
/// created first so that typed characters have a row to land in.
pub open spec fn insert_entry_rel(pre: EditorState, post: EditorState) -> bool {
    &&& frame(pre, post)
    &&& post.mode == EditorMode::INSERT
    &&& post.dirty == pre.dirty
    &&& post.cy == pre.cy
    &&& if pre.numrows == 0 {
        &&& post.numrows == 1
        &&& post.row@.len() == 1
        &&& post.row@[0].chars@ == Seq::<char>::empty()
        &&& post.cx == 0
    } else {
        &&& post.row@ == pre.row@
        &&& post.numrows == pre.numrows
        &&& post.cx == pre.cx
    }
}

/// The normal-mode motion table. Every motion that reads a row is a no-op
/// when the cursor rests past the last row; the cursor always stays within
/// `[0, size]` of the row it lands in.
pub open spec fn motion_rel(pre: EditorState, post: EditorState, c: char) -> bool {
    if c == 'i' {
        insert_entry_rel(pre, post)
    } else {
        &&& cursor_only(pre, post)
        &&& cursor_motion(pre, post, c)
    }
}

/// Where each cursor motion puts the cursor.
pub open spec fn cursor_motion(pre: EditorState, post: EditorState, c: char) -> bool {
    let in_row = pre.cy < pre.numrows;
    let s = rows_view(pre)[pre.cy as int];
    if c == 'h' {
        &&& post.cy == pre.cy
        &&& post.cx == if pre.cx > 0 {
            pre.cx - 1
        } else {
            0
        }
    } else if c == '_' {
        &&& post.cy == pre.cy
        &&& post.cx == 0
    } else if c == '$' {
        &&& post.cy == pre.cy
        &&& post.cx as int == (if in_row {
            if s.len() > 0 {
                s.len() - 1
            } else {
                0
            }
        } else {
            pre.cx as int
        })
    } else if c == 'l' {
        &&& post.cy == pre.cy
        &&& post.cx as int == (if in_row && (pre.cx as int) < s.len() {
            pre.cx as int + 1
        } else {
            pre.cx as int
        })
    } else if c == 'j' {
        if pre.numrows > 0 && pre.cy < pre.numrows - 1 {
            let t = rows_view(pre)[pre.cy as int + 1];
            &&& post.cy == pre.cy + 1
            &&& post.cx as int == (if pre.cx as int > t.len() {
                t.len() as int
            } else {
                pre.cx as int
            })
        } else {
            &&& post.cy == pre.cy
            &&& post.cx == pre.cx
        }
    } else if c == 'k' {
        if pre.cy > 0 {
            let t = rows_view(pre)[pre.cy as int - 1];
            &&& post.cy == pre.cy - 1
            &&& post.cx as int == (if pre.cx as int > t.len() {
                t.len() as int
            } else {
                pre.cx as int
            })
        } else {
            &&& post.cy == pre.cy
            &&& post.cx == pre.cx
        }
    } else if c == 'w' {
        &&& post.cy == pre.cy
        &&& post.cx as int == (if in_row {
            next_word_of(s, pre.cx as int)
        } else {
            pre.cx as int
        })
    } else if c == 'b' {
        &&& post.cy == pre.cy
        &&& post.cx as int == (if in_row {
            prev_word_of(s, pre.cx as int)
        } else {
            pre.cx as int
        })
    } else {
        &&& post.cy == pre.cy
        &&& post.cx == pre.cx
    }
}

/// The backspace transition. In normal mode it only moves the cursor left,
/// floored at column 0. In insert mode it deletes the character before the
/// cursor, or at column 0 merges the row into the one above; either way
/// the buffer becomes dirty.
pub open spec fn backspace_rel(pre: EditorState, post: EditorState) -> bool {
    if pre.mode == EditorMode::NORMAL {
        &&& cursor_only(pre, post)
        &&& post.cy == pre.cy
        &&& post.cx == if pre.cx > 0 {
            pre.cx - 1
        } else {
            0
        }
    } else {
        &&& frame(pre, post)
        &&& post.mode == pre.mode
        &&& post.dirty
        &&& if pre.cx > 0 && pre.cy < pre.numrows {
            &&& post.numrows == pre.numrows
            &&& post.row@.len() == pre.row@.len()
            &&& (forall|i: int|
                0 <= i < pre.row@.len() && i != pre.cy as int ==> post.row@[i] == pre.row@[i])
            &&& post.row@[pre.cy as int].chars@ == pre.row@[pre.cy as int].chars@.remove(
                pre.cx - 1,
            )
            &&& post.cy == pre.cy
            &&& post.cx == pre.cx - 1
        } else if pre.cx == 0 && 0 < pre.cy && pre.cy < pre.numrows {
            let merged = pre.row@[pre.cy as int - 1].chars@ + pre.row@[pre.cy as int].chars@;
            &&& post.numrows == pre.numrows - 1
            &&& post.row@.len() == pre.row@.len() - 1
            &&& (forall|i: int| 0 <= i < pre.cy as int - 1 ==> post.row@[i] == pre.row@[i])
            &&& post.row@[pre.cy as int - 1].chars@ == merged
            &&& (forall|i: int|
                pre.cy as int <= i < post.row@.len() ==> post.row@[i] == pre.row@[i + 1])
            &&& post.cy == pre.cy - 1
            &&& post.cx as int == (if pre.row@[pre.cy as int - 1].rsize as int <= merged.len() {
                pre.row@[pre.cy as int - 1].rsize as int
            } else {
                merged.len() as int
            })
        } else {
            &&& post.row@ == pre.row@
            &&& post.numrows == pre.numrows
            &&& post.cy == pre.cy
            &&& post.cx == pre.cx
        }
    }
}

/// The enter transition. In normal mode the cursor moves one row down,
/// bounded at one past the last row. In insert mode the current row is
/// split at the cursor: the suffix becomes a new row just below, the
/// cursor lands at its first column, and the buffer becomes dirty.
pub open spec fn enter_rel(pre: EditorState, post: EditorState) -> bool {
    if pre.mode == EditorMode::NORMAL {
        &&& cursor_only(pre, post)
        &&& if pre.cy < pre.numrows {
            &&& post.cy == pre.cy + 1
            &&& post.cx as int == (if pre.cy as int + 1 < pre.numrows as int && pre.cx as int
                > rows_view(pre)[pre.cy as int + 1].len() {
                rows_view(pre)[pre.cy as int + 1].len() as int
            } else {
                pre.cx as int
            })
        } else {
            &&& post.cy == pre.cy
            &&& post.cx == pre.cx
        }
    } else {
        &&& frame(pre, post)
        &&& post.mode == pre.mode
        &&& if pre.cy < pre.numrows {
            let s = pre.row@[pre.cy as int].chars@;
            &&& post.dirty
            &&& post.numrows == pre.numrows + 1
            &&& post.row@.len() == pre.row@.len() + 1
            &&& (forall|i: int| 0 <= i < pre.cy as int ==> post.row@[i] == pre.row@[i])
            &&& post.row@[pre.cy as int].chars@ == s.take(pre.cx as int)
            &&& post.row@[pre.cy as int + 1].chars@ == s.skip(pre.cx as int)
            &&& (forall|i: int|
                pre.cy as int + 2 <= i < post.row@.len() ==> post.row@[i] == pre.row@[i - 1])
            &&& post.cy == pre.cy + 1
            &&& post.cx == 0
        } else {
            &&& post.row@ == pre.row@
            &&& post.numrows == pre.numrows
            &&& post.cy == pre.cy
            &&& post.cx == pre.cx
            &&& post.dirty == pre.dirty
        }
    }
}

/// Inserting a printable character in insert mode: the transient message
/// is cleared and the character lands at the cursor column (clamped to the
/// row length), appending a fresh row when the cursor rests past the last
/// one.
pub open spec fn insert_char_rel(pre: EditorState, post: EditorState, c: char) -> bool {
    &&& frame(pre, post)
    &&& post.mode == pre.mode
    &&& post.dirty
    &&& post.cy == pre.cy
    &&& if pre.cy < pre.numrows {
        let s = pre.row@[pre.cy as int].chars@;
        let at = if pre.cx as int <= s.len() {
            pre.cx as int
        } else {
            s.len() as int
        };
        &&& post.numrows == pre.numrows
        &&& post.row@.len() == pre.row@.len()
        &&& (forall|i: int|
            0 <= i < pre.row@.len() && i != pre.cy as int ==> post.row@[i] == pre.row@[i])
        &&& post.row@[pre.cy as int].chars@ == s.insert(at, c)
        &&& post.cx == at + 1
    } else {
        &&& post.numrows == pre.numrows + 1
        &&& post.row@.len() == pre.row@.len() + 1
        &&& (forall|i: int| 0 <= i < pre.row@.len() ==> post.row@[i] == pre.row@[i])
        &&& post.row@[pre.cy as int].chars@ == seq![c]
        &&& post.cx == 1
    }
}

fn is_blank_char(c: char) -> (b: bool)
    ensures
        b == is_blank(c),
{
    c == ' ' || c == '\t'
}

/// The normal-mode motion table: `h`/`j`/`k`/`l` cursor steps, `w`/`b`
/// word motions, `$`/`_` line end and start, and `i` to enter insert mode.
pub fn normal_mode_shortcuts(terminal_state: &mut EditorState, key: char)
    requires
        old(terminal_state).wf(),
    ensures
        final(terminal_state).wf(),
        motion_rel(*old(terminal_state), *final(terminal_state), key),
        final(terminal_state).message == old(terminal_state).message,
        final(terminal_state).quit_times == old(terminal_state).quit_times,
{
    match key {
        'i' => {
            terminal_state.mode = EditorMode::INSERT;
            if terminal_state.numrows == 0 {
                terminal_state.editor_append_row(Vec::new());
                if terminal_state.cx > 0 {
                    terminal_state.cx = 0;
                }
            }
        },
        '$' => {
            if terminal_state.cy < terminal_state.numrows {
                let size = terminal_state.row[terminal_state.cy].size;
                if size > 0 {
                    terminal_state.cx = size - 1;
                } else {
                    terminal_state.cx = 0;
                }
            }
        },
        '_' => {
            terminal_state.cx = 0;
        },
        'w' => {
            if terminal_state.cy < terminal_state.numrows {
                let r = &terminal_state.row[terminal_state.cy];
                let ghost s = r.chars@;
                let n = r.size;
                let mut i: usize = terminal_state.cx;
                while i < n && !is_blank_char(r.chars[i])
                    invariant
                        terminal_state.cx <= i <= n,
                        n == s.len(),
                        r.chars@ == s,
                        r.size == n,
                        skip_word(s, terminal_state.cx as int) == skip_word(s, i as int),
                    decreases n - i,
                {
                    i = i + 1;
                }
                let mut j: usize = i;
                while j < n && is_blank_char(r.chars[j])
                    invariant
                        i <= j <= n,
                        n == s.len(),
                        r.chars@ == s,
                        r.size == n,
                        skip_blanks(s, i as int) == skip_blanks(s, j as int),
                    decreases n - j,
                {
                    j = j + 1;
                }
                if j < n {
                    terminal_state.cx = j;
                }
            }
        },
        'b' => {
            if terminal_state.cy < terminal_state.numrows {
                let r = &terminal_state.row[terminal_state.cy];
                let ghost s = r.chars@;
                let n = r.size;
                let mut i: usize = terminal_state.cx;
                while i > 0 && is_blank_char(r.chars[i - 1])
                    invariant
                        i <= terminal_state.cx,
                        terminal_state.cx <= n,
                        n == s.len(),
                        r.chars@ == s,
                        back_blanks(s, terminal_state.cx as int) == back_blanks(s, i as int),
                    decreases i,
                {
                    i = i - 1;
                }
                let mut j: usize = i;
                while j > 0 && !is_blank_char(r.chars[j - 1])
                    invariant
                        j <= i <= n,
                        n == s.len(),
                        r.chars@ == s,
                        back_word(s, i as int) == back_word(s, j as int),
                    decreases j,
                {
                    j = j - 1;
                }
                terminal_state.cx = j;
            }
        },
        'j' => {
            if terminal_state.numrows > 0 && terminal_state.cy < terminal_state.numrows - 1 {
                let next_len = terminal_state.row[terminal_state.cy + 1].size;
                terminal_state.cy = terminal_state.cy + 1;
                if terminal_state.cx > next_len {
                    terminal_state.cx = next_len;
                }
            }
        },
        'h' => {
            if terminal_state.cx > 0 {
                terminal_state.cx = terminal_state.cx - 1;
            }
        },
        'k' => {
            if terminal_state.cy > 0 {
                let prev_len = terminal_state.row[terminal_state.cy - 1].size;
                terminal_state.cy = terminal_state.cy - 1;
                if terminal_state.cx > prev_len {
                    terminal_state.cx = prev_len;
                }
            }
        },
        'l' => {
            if terminal_state.cy < terminal_state.numrows {
                let size = terminal_state.row[terminal_state.cy].size;
                if terminal_state.cx < size {
                    terminal_state.cx = terminal_state.cx + 1;
                }
            }
        },
        _ => {},
    }
}

impl EditorState {
    /// The backspace transition; see `backspace_rel`.
    fn key_backspace(&mut self)
        requires
            old(self).wf(),
        ensures
            final(self).wf(),
            backspace_rel(*old(self), *final(self)),
            final(self).message == old(self).message,
            final(self).quit_times == old(self).quit_times,
    {
        if self.mode == EditorMode::INSERT {
            self.dirty = true;
            if self.cx > 0 && self.cy < self.numrows {
                let ghost mid = self.row@;
                let mut r = self.row.remove(self.cy);
                r.delete_char(self.cx);
                let ghost r1 = r;
                self.row.insert(self.cy, r);
                self.cx = self.cx - 1;
                proof {
                    assert(self.row@ =~= mid.update(self.cy as int, r1));
                }
            } else if self.cx == 0 && self.cy > 0 && self.cy < self.numrows {
                let ghost pre_rows = self.row@;
                let prev_rsize = self.row[self.cy - 1].rsize;
                let cur = self.row.remove(self.cy);
                let mut prev = self.row.remove(self.cy - 1);
                push_all(&mut prev.chars, &cur.chars);
                prev.size = prev.chars.len();
                prev.editor_update_row();
                let merged_len = prev.size;
                let ghost pg = prev;
                self.row.insert(self.cy - 1, prev);
                self.numrows = self.row.len();
                self.cy = self.cy - 1;
                self.cx = if prev_rsize <= merged_len {
                    prev_rsize
                } else {
                    merged_len
                };
                proof {
                    assert(self.row@ =~= pre_rows.remove(old(self).cy as int).update(
                        old(self).cy as int - 1,
                        pg,
                    ));
                }
            }
        } else {
            if self.cx > 0 {
                self.cx = self.cx - 1;
            }
        }
    }

    /// The enter transition; see `enter_rel`.
    fn key_enter(&mut self)
        requires
            old(self).wf(),
        ensures
            final(self).wf(),
            enter_rel(*old(self), *final(self)),
            final(self).message == old(self).message,
            final(self).quit_times == old(self).quit_times,
    {
        if self.mode == EditorMode::NORMAL {
            if self.cy < self.numrows {
                self.cy = self.cy + 1;
                if self.cy < self.numrows {
                    let len = self.row[self.cy].size;
                    if self.cx > len {
                        self.cx = len;
                    }
                }
            }
        } else {
            if self.cy < self.numrows {
                self.dirty = true;
                let ghost pre_rows = self.row@;
                let mut r = self.row.remove(self.cy);
                let suffix = copy_range(&r.chars, self.cx, r.chars.len());
                r.chars.truncate(self.cx);
                r.size = r.chars.len();
                r.editor_update_row();
                let ghost r1 = r;
                self.row.insert(self.cy, r);
                let n2 = suffix.len();
                let mut r2 = Erow { size: n2, chars: suffix, rsize: 0, render: Vec::new() };
                r2.editor_update_row();
                let ghost r2g = r2;
                self.row.insert(self.cy + 1, r2);
                self.numrows = self.row.len();
                self.cy = self.cy + 1;
                self.cx = 0;
                proof {
                    assert(self.row@ =~= pre_rows.update(old(self).cy as int, r1).insert(
                        old(self).cy as int + 1,
                        r2g,
                    ));
                    assert(r1.chars@ =~= old(self).row@[old(self).cy as int].chars@.take(
                        old(self).cx as int,
                    ));
                    assert(r2g.chars@ =~= old(self).row@[old(self).cy as int].chars@.skip(
                        old(self).cx as int,
                    ));
                }
            }
        }
    }

    /// Processes one decoded key: quits (with one confirmation when the
    /// buffer is dirty), asks for a save, leaves insert mode, edits, or
    /// moves the cursor, as the mode and the key dictate.
    pub fn process_key(&mut self, key: EditorKey) -> (action: EditorAction)
        requires
            old(self).wf(),
        ensures
            final(self).wf(),
            key == EditorKey::CtrlQ ==> {
                if old(self).dirty && old(self).quit_times > 0 {
                    &&& action == EditorAction::Continue
                    &&& final(self).quit_times == old(self).quit_times - 1
                    &&& cursor_only(*old(self), *final(self))
                    &&& final(self).cx == old(self).cx
                    &&& final(self).cy == old(self).cy
                    &&& final(self).message == old(self).message
                } else {
                    &&& action == EditorAction::Quit
                    &&& *final(self) == *old(self)
                }
            },
            key == EditorKey::CtrlS ==> *final(self) == *old(self) && action == EditorAction::Save,
            key == EditorKey::Esc ==> {
                &&& action == EditorAction::Continue
                &&& final(self).mode == EditorMode::NORMAL
                &&& frame(*old(self), *final(self))
                &&& final(self).row@ == old(self).row@
                &&& final(self).numrows == old(self).numrows
                &&& final(self).cx == old(self).cx
                &&& final(self).cy == old(self).cy
                &&& final(self).dirty == old(self).dirty
                &&& final(self).message == old(self).message
                &&& final(self).quit_times == old(self).quit_times
            },
            key == EditorKey::Backspace ==> action == EditorAction::Continue && backspace_rel(
                *old(self),
                *final(self),
            ) && final(self).message == old(self).message && final(self).quit_times == old(
                self,
            ).quit_times,
            key == EditorKey::Enter ==> action == EditorAction::Continue && enter_rel(
                *old(self),
                *final(self),
            ) && final(self).message == old(self).message && final(self).quit_times == old(
                self,
            ).quit_times,
            forall|c: char|
                key == EditorKey::Char(c) ==> {
                    &&& action == EditorAction::Continue
                    &&& final(self).message is None
                    &&& final(self).quit_times == old(self).quit_times
                    &&& (old(self).mode == EditorMode::NORMAL ==> motion_rel(
                        *old(self),
                        *final(self),
                        c,
                    ))
                    &&& (old(self).mode == EditorMode::INSERT ==> insert_char_rel(
                        *old(self),
                        *final(self),
                        c,
                    ))
                },
            key == EditorKey::Other ==> *final(self) == *old(self) && action
                == EditorAction::Continue,
    {
        match key {
            EditorKey::CtrlQ => {
                if self.dirty && self.quit_times > 0 {
                    self.quit_times = self.quit_times - 1;
                    EditorAction::Continue
                } else {
                    EditorAction::Quit
                }
            },
            EditorKey::CtrlS => EditorAction::Save,
            EditorKey::Esc => {
                self.mode = EditorMode::NORMAL;
                EditorAction::Continue
            },
            EditorKey::Backspace => {
                self.key_backspace();
                EditorAction::Continue
            },
            EditorKey::Enter => {
                self.key_enter();
                EditorAction::Continue
            },
            EditorKey::Char(c) => {
                self.message = None;
                if self.mode == EditorMode::NORMAL {
                    normal_mode_shortcuts(self, c);
                } else {
                    self.editor_insert_char(c);
                }
                EditorAction::Continue
            },
            EditorKey::Other => EditorAction::Continue,
        }
    }
}

/// Splitting a row with Enter in insert mode and then, with the cursor at
/// column 0 of the new row, merging with Backspace restores every row's
/// content and the cursor row.
pub proof fn lemma_split_merge_round_trip(pre: EditorState, mid: EditorState, post: EditorState)
    requires
        pre.wf(),
        pre.mode == EditorMode::INSERT,
        pre.cy < pre.numrows,
        enter_rel(pre, mid),
        backspace_rel(mid, post),
    ensures
        rows_view(post) == rows_view(pre),
        post.cy == pre.cy,
{
    let cy = pre.cy as int;
    let s = pre.row@[cy].chars@;
    assert(mid.cx == 0);
    assert(mid.cy == pre.cy + 1);
    assert(mid.mode == EditorMode::INSERT);
    assert(mid.cy < mid.numrows);
    assert(mid.row@[mid.cy as int - 1].chars@ == s.take(pre.cx as int));
    assert(mid.row@[mid.cy as int].chars@ == s.skip(pre.cx as int));
    assert(post.row@[cy].chars@ == s.take(pre.cx as int) + s.skip(pre.cx as int));
    assert(s.take(pre.cx as int) + s.skip(pre.cx as int) =~= s);
    assert forall|i: int| 0 <= i < rows_view(post).len() implies rows_view(post)[i] == rows_view(
        pre,
    )[i] by {
        if i < cy {
            assert(post.row@[i] == mid.row@[i]);
            assert(mid.row@[i] == pre.row@[i]);
        } else if i > cy {
            assert(post.row@[i] == mid.row@[i + 1]);
            assert(mid.row@[i + 1] == pre.row@[i]);
        }
    }
    assert(rows_view(post) =~= rows_view(pre));
}

} // verus!
