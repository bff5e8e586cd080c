//! The buffer and its viewport: the ordered rows, the cursor, the scroll
//! offsets, the modal state, and the operations that edit and display them.

use vstd::prelude::*;

use crate::lines::{basename, basename_of, join_rows, lines_of, split_lines, views_of};
use crate::row::{rx_of, spaces, Erow};
use crate::terminal::WindowSize;
use crate::text::{chars_to_string, copy_range, push_all, str_to_chars};

verus! {

/// The two states of the modal input machine.
#[allow(non_camel_case_types)]
#[derive(Clone, Copy, Debug, PartialEq, Eq, Structural)]
pub enum EditorMode {
    NORMAL,
    INSERT,
}

/// The whole editing session: rows, cursor, viewport, mode and file state.
///
/// `cx`/`cy` is the cursor position in raw-content coordinates and `rx` the
/// rendered column it maps to; `rowoff`/`coloff` are the viewport origin.
/// `path` is the full path used for saving, `filename` only its last
/// segment, shown in the status line. `quit_times` is the confirmation
/// countdown consumed by quitting with unsaved changes.
#[derive(Debug)]
pub struct EditorState {
    pub dimensions: WindowSize,
    pub cx: usize,
    pub cy: usize,
    pub rx: usize,
    pub mode: EditorMode,
    pub row: Vec<Erow>,
    pub numrows: usize,
    pub rowoff: usize,
    pub coloff: usize,
    pub filename: Option<Vec<char>>,
    pub path: Option<Vec<char>>,
    pub message: Option<Vec<char>>,
    pub dirty: bool,
    pub quit_times: u8,
}

/// The raw content of every row, in order.
pub open spec fn rows_view(s: EditorState) -> Seq<Seq<char>> {
    s.row@.map_values(|r: Erow| r.chars@)
}

impl EditorState {
    /// The row store is consistent: `numrows` mirrors the number of rows,
    /// every row's rendered form is up to date, and the window is not
    /// degenerate.
    pub open spec fn rows_wf(&self) -> bool {
        &&& self.numrows == self.row@.len()
        &&& (forall|i: int| 0 <= i < self.row@.len() ==> (#[trigger] self.row@[i]).wf())
        &&& self.dimensions.rows >= 1
        &&& self.dimensions.columns >= 1
    }

    /// Well-formed session: consistent rows, and a cursor inside the
    /// buffer — `cy` may sit one past the last row, and within a row `cx`
    /// may sit one past the last character (the append position).
    pub open spec fn wf(&self) -> bool {
        &&& self.rows_wf()
        &&& self.cy <= self.numrows
        &&& (self.cy < self.numrows ==> self.cx <= self.row@[self.cy as int].size)
    }

    /// A fresh session over an empty buffer, in normal mode, with the quit
    /// countdown at its initial value.
    pub fn new(dimensions: WindowSize) -> (r: Self)
        requires
            dimensions.rows >= 1,
            dimensions.columns >= 1,
        ensures
            r.wf(),
            r.dimensions == dimensions,
            r.cx == 0,
            r.cy == 0,
            r.rx == 0,
            r.mode == EditorMode::NORMAL,
            r.row@.len() == 0,
            r.numrows == 0,
            r.rowoff == 0,
            r.coloff == 0,
            r.filename is None,
            r.path is None,
            r.message is None,
            !r.dirty,
            r.quit_times == 1,
    {
        EditorState {
            dimensions,
            cx: 0,
            cy: 0,
            rx: 0,
            mode: EditorMode::NORMAL,
            row: Vec::new(),
            numrows: 0,
            rowoff: 0,
            coloff: 0,
            filename: None,
            path: None,
            message: None,
            dirty: false,
            quit_times: 1,
        }
    }

    /// Appends one row holding `chars` at the end of the buffer and renders
    /// it. Touches nothing but the row store.
    pub fn editor_append_row(&mut self, chars: Vec<char>)
        requires
            old(self).rows_wf(),
        ensures
            final(self).rows_wf(),
            final(self).numrows == old(self).numrows + 1,
            final(self).row@.len() == old(self).row@.len() + 1,
            forall|i: int|
                0 <= i < old(self).row@.len() ==> final(self).row@[i] == old(self).row@[i],
            final(self).row@.last().chars@ == chars@,
            final(self).row@.last().size == chars@.len(),
            final(self).cx == old(self).cx,
            final(self).cy == old(self).cy,
            final(self).rx == old(self).rx,
            final(self).mode == old(self).mode,
            final(self).rowoff == old(self).rowoff,
            final(self).coloff == old(self).coloff,
            final(self).dimensions == old(self).dimensions,
            final(self).filename == old(self).filename,
            final(self).path == old(self).path,
            final(self).message == old(self).message,
            final(self).dirty == old(self).dirty,
            final(self).quit_times == old(self).quit_times,
    {
        let n = chars.len();
        let mut r = Erow { size: n, chars, rsize: 0, render: Vec::new() };
        r.editor_update_row();
        self.row.push(r);
        self.numrows = self.row.len();
    }

    /// Inserts `key` at the cursor. When the cursor rests one past the last
    /// row, a fresh empty row is appended first. The insertion lands at the
    /// cursor column clamped to the row length, and the cursor moves one
    /// column right of the inserted character. The buffer becomes dirty.
    pub fn editor_insert_char(&mut self, key: char)
        requires
            old(self).wf(),
        ensures
            final(self).wf(),
            final(self).dirty,
            final(self).cy == old(self).cy,
            final(self).mode == old(self).mode,
            final(self).rx == old(self).rx,
            final(self).rowoff == old(self).rowoff,
            final(self).coloff == old(self).coloff,
            final(self).dimensions == old(self).dimensions,
            final(self).filename == old(self).filename,
            final(self).path == old(self).path,
            final(self).message == old(self).message,
            final(self).quit_times == old(self).quit_times,
            old(self).cy < old(self).numrows ==> {
                let at = if old(self).cx as int <= old(self).row@[old(self).cy as int].size as int {
                    old(self).cx as int
                } else {
                    old(self).row@[old(self).cy as int].size as int
                };
                &&& final(self).numrows == old(self).numrows
                &&& final(self).row@.len() == old(self).row@.len()
                &&& (forall|i: int|
                    0 <= i < old(self).row@.len() && i != old(self).cy as int
                        ==> final(self).row@[i] == old(self).row@[i])
                &&& final(self).row@[old(self).cy as int].chars@ == old(self).row@[old(
                    self,
                ).cy as int].chars@.insert(at, key)
                &&& final(self).cx == at + 1
            },
            old(self).cy == old(self).numrows ==> {
                &&& final(self).numrows == old(self).numrows + 1
                &&& final(self).row@.len() == old(self).row@.len() + 1
                &&& (forall|i: int|
                    0 <= i < old(self).row@.len() ==> final(self).row@[i] == old(self).row@[i])
                &&& final(self).row@[old(self).cy as int].chars@ == seq![key]
                &&& final(self).cx == 1
            },
    {
        self.dirty = true;
        if self.cy == self.numrows {
            self.editor_append_row(Vec::new());
        }
        let ghost mid = self.row@;
        let size = self.row[self.cy].size;
        let at = if self.cx <= size {
            self.cx
        } else {
            size
        };
        let mut r = self.row.remove(self.cy);
        r.editor_row_insert_char(at, key);
        let ghost newrow = r;
        self.row.insert(self.cy, r);
        self.cx = at + 1;
        proof {
            assert(self.row@ =~= mid.update(self.cy as int, newrow));
        }
    }

    /// Recomputes the rendered cursor column and moves the viewport by the
    /// least amount that brings the cursor back inside the window.
    pub fn editor_scroll(&mut self)
        requires
            old(self).wf(),
        ensures
            final(self).wf(),
            final(self).cx == old(self).cx,
            final(self).cy == old(self).cy,
            final(self).mode == old(self).mode,
            final(self).row@ == old(self).row@,
            final(self).numrows == old(self).numrows,
            final(self).dimensions == old(self).dimensions,
            final(self).filename == old(self).filename,
            final(self).path == old(self).path,
            final(self).message == old(self).message,
            final(self).dirty == old(self).dirty,
            final(self).quit_times == old(self).quit_times,
            final(self).rx == (if old(self).cy < old(self).numrows {
                rx_of(old(self).row@[old(self).cy as int].chars@, old(self).cx as int)
            } else {
                0
            }),
            final(self).rowoff == (if old(self).cy < old(self).rowoff {
                old(self).cy as int
            } else if old(self).cy as int >= old(self).rowoff as int
                + old(self).dimensions.rows as int {
                old(self).cy as int - old(self).dimensions.rows as int + 1
            } else {
                old(self).rowoff as int
            }),
            final(self).coloff == (if final(self).rx < old(self).coloff {
                final(self).rx as int
            } else if final(self).rx as int >= old(self).coloff as int
                + old(self).dimensions.columns as int {
                final(self).rx as int - old(self).dimensions.columns as int + 1
            } else {
                old(self).coloff as int
            }),
            final(self).rowoff <= final(self).cy < final(self).rowoff as int
                + final(self).dimensions.rows as int,
            final(self).coloff <= final(self).rx < final(self).coloff as int
                + final(self).dimensions.columns as int,
    {
        self.rx = 0;
        if self.cy < self.numrows {
            let r = &self.row[self.cy];
            self.rx = r.editor_row_cx_to_rx(self.cx);
        }
        if self.cy < self.rowoff {
            self.rowoff = self.cy;
        }
        if self.rx < self.coloff {
            self.coloff = self.rx;
        }
        let wrows = self.dimensions.rows as usize;
        if self.cy - self.rowoff >= wrows {
            self.rowoff = self.cy - wrows + 1;
        }
        let wcols = self.dimensions.columns as usize;
        if self.rx - self.coloff >= wcols {
            self.coloff = self.rx - wcols + 1;
        }
    }

    /// The buffer's saved form: every row's raw content followed by one
    /// newline, the last row included.
    pub fn erow_to_string(&self) -> (r: String)
        requires
            self.rows_wf(),
        ensures
            r@ == join_rows(rows_view(*self)),
    {
        let mut buffer: Vec<char> = Vec::new();
        proof {
            assert(rows_view(*self).take(0) =~= Seq::<Seq<char>>::empty());
        }
        let mut i: usize = 0;
        while i < self.numrows
            invariant
                self.rows_wf(),
                i <= self.numrows,
                buffer@ == join_rows(rows_view(*self).take(i as int)),
            decreases self.numrows - i,
        {
            push_all(&mut buffer, &self.row[i].chars);
            buffer.push('\n');
            proof {
                let rv = rows_view(*self);
                crate::lines::lemma_join_rows_push(rv.take(i as int), rv[i as int]);
                assert(rv.take(i as int).push(rv[i as int]) =~= rv.take(i as int + 1));
                assert(rv[i as int] == self.row@[i as int].chars@);
                assert(buffer@ =~= join_rows(rv.take(i as int)) + rv[i as int] + seq!['\n']);
            }
            i = i + 1;
        }
        proof {
            assert(rows_view(*self).take(self.numrows as int) =~= rows_view(*self));
        }
        chars_to_string(&buffer)
    }

    /// Clears the dirty flag after a successful save and, when the buffer
    /// has a file name, posts the confirmation message naming it.
    pub fn mark_saved(&mut self)
        ensures
            !final(self).dirty,
            final(self).row@ == old(self).row@,
            final(self).numrows == old(self).numrows,
            final(self).cx == old(self).cx,
            final(self).cy == old(self).cy,
            final(self).rx == old(self).rx,
            final(self).mode == old(self).mode,
            final(self).rowoff == old(self).rowoff,
            final(self).coloff == old(self).coloff,
            final(self).dimensions == old(self).dimensions,
            final(self).filename == old(self).filename,
            final(self).path == old(self).path,
            final(self).quit_times == old(self).quit_times,
            match old(self).filename {
                Some(f) => final(self).message matches Some(m) && m@ == f@ + " has been saved!"@,
                None => final(self).message == old(self).message,
            },
    {
        if self.filename.is_some() {
            let f = self.filename.as_ref().unwrap();
            let mut m: Vec<char> = Vec::new();
            push_all(&mut m, f);
            let suffix = str_to_chars(" has been saved!");
            push_all(&mut m, &suffix);
            proof {
                assert(Seq::<char>::empty() + f@ + suffix@ =~= f@ + " has been saved!"@);
            }
            self.message = Some(m);
        }
        self.dirty = false;
    }

    /// Loads file content into a fresh buffer: one row per line of the
    /// content, the full path remembered for saving and its last segment
    /// as the displayed file name.
    pub fn editor_open(&mut self, path: &str, content: &str)
        requires
            old(self).wf(),
            old(self).numrows == 0,
            old(self).cy == 0,
            old(self).cx == 0,
        ensures
            final(self).wf(),
            rows_view(*final(self)) == lines_of(content@),
            final(self).numrows == lines_of(content@).len(),
            final(self).path matches Some(p) && p@ == path@,
            final(self).filename matches Some(f) && f@ == basename_of(path@),
            final(self).cx == 0,
            final(self).cy == 0,
            final(self).rx == old(self).rx,
            final(self).mode == old(self).mode,
            final(self).rowoff == old(self).rowoff,
            final(self).coloff == old(self).coloff,
            final(self).dimensions == old(self).dimensions,
            final(self).message == old(self).message,
            final(self).dirty == old(self).dirty,
            final(self).quit_times == old(self).quit_times,
    {
        let pv = str_to_chars(path);
        let name = basename(&pv);
        self.path = Some(pv);
        self.filename = Some(name);
        let cv = str_to_chars(content);
        let mut ls = split_lines(&cv);
        let ghost lsv = views_of(ls@);
        proof {
            assert(rows_view(*self) =~= lsv.take(0));
            assert(views_of(ls@) =~= lsv.skip(0));
        }
        let ghost j: int = 0;
        while ls.len() > 0
            invariant
                0 <= j <= lsv.len(),
                ls@.len() == lsv.len() - j,
                views_of(ls@) =~= lsv.skip(j),
                rows_view(*self) =~= lsv.take(j),
                self.rows_wf(),
                self.numrows == j,
                self.cx == 0,
                self.cy == 0,
                self.rx == old(self).rx,
                self.mode == old(self).mode,
                self.rowoff == old(self).rowoff,
                self.coloff == old(self).coloff,
                self.dimensions == old(self).dimensions,
                self.message == old(self).message,
                self.dirty == old(self).dirty,
                self.quit_times == old(self).quit_times,
                self.path matches Some(p) && p@ == path@,
                self.filename matches Some(f) && f@ == basename_of(path@),
            decreases ls@.len(),
        {
            let ghost prev = ls@;
            let line = ls.remove(0);
            proof {
                assert(line@ == views_of(prev)[0]);
                assert(views_of(ls@) =~= views_of(prev).skip(1));
                assert(views_of(ls@) =~= lsv.skip(j + 1));
            }
            self.editor_append_row(line);
            proof {
                j = j + 1;
            }
        }
        proof {
            assert(lsv.take(lsv.len() as int) =~= lsv);
            assert(rows_view(*self) =~= lines_of(content@));
        }
    }

    /// Recomputes the viewport and returns the grid of visible lines, one
    /// entry per window row, exactly as they are to be displayed.
    pub fn refresh_screen(&mut self) -> (grid: Vec<Vec<char>>)
        requires
            old(self).wf(),
        ensures
            final(self).wf(),
            final(self).cx == old(self).cx,
            final(self).cy == old(self).cy,
            final(self).mode == old(self).mode,
            final(self).row@ == old(self).row@,
            final(self).numrows == old(self).numrows,
            final(self).dimensions == old(self).dimensions,
            final(self).dirty == old(self).dirty,
            final(self).rowoff <= final(self).cy < final(self).rowoff as int
                + final(self).dimensions.rows as int,
            final(self).coloff <= final(self).rx < final(self).coloff as int
                + final(self).dimensions.columns as int,
            grid@.len() == final(self).dimensions.rows as int,
            forall|i: int|
                0 <= i < grid@.len() ==> (#[trigger] grid@[i])@ == draw_line_of(*final(self), i),
    {
        self.editor_scroll();
        self.editor_draw_rows()
    }

    /// Computes the text each window row shows: the visible slice of the
    /// buffer, `~` markers past its end, and the centered welcome banner
    /// in an empty buffer.
    pub fn editor_draw_rows(&self) -> (grid: Vec<Vec<char>>)
        requires
            self.rows_wf(),
        ensures
            grid@.len() == self.dimensions.rows as int,
            forall|i: int|
                0 <= i < grid@.len() ==> (#[trigger] grid@[i])@ == draw_line_of(*self, i),
    {
        let wrows = self.dimensions.rows as usize;
        let wcols = self.dimensions.columns as usize;
        let mut grid: Vec<Vec<char>> = Vec::new();
        let mut i: usize = 0;
        while i < wrows
            invariant
                self.rows_wf(),
                wrows == self.dimensions.rows as int,
                wcols == self.dimensions.columns as int,
                i <= wrows,
                grid@.len() == i,
                forall|k: int|
                    0 <= k < i as int ==> (#[trigger] grid@[k])@ == draw_line_of(*self, k),
            decreases wrows - i,
        {
            let line: Vec<char>;
            if self.rowoff >= self.numrows || i >= self.numrows - self.rowoff {
                if i == wrows / 3 && self.numrows == 0 {
                    let banner = str_to_chars("BREAD EDITOR - VERSION : 0.0.1");
                    let pad: usize = if wcols > banner.len() {
                        (wcols - banner.len()) / 2
                    } else {
                        0
                    };
                    let mut l: Vec<char> = Vec::new();
                    proof {
                        assert(l@ =~= spaces(0));
                    }
                    let mut k: usize = 0;
                    while k < pad
                        invariant
                            k <= pad,
                            l@ == spaces(k as nat),
                        decreases pad - k,
                    {
                        l.push(' ');
                        proof {
                            assert(spaces(k as nat).push(' ') =~= spaces(k as nat + 1));
                        }
                        k = k + 1;
                    }
                    push_all(&mut l, &banner);
                    line = l;
                } else {
                    let mut l: Vec<char> = Vec::new();
                    l.push('~');
                    proof {
                        assert(l@ =~= seq!['~']);
                    }
                    line = l;
                }
            } else {
                let filerow = i + self.rowoff;
                let r = &self.row[filerow];
                if r.rsize < self.coloff {
                    line = Vec::new();
                    proof {
                        assert(line@ =~= Seq::<char>::empty());
                    }
                } else {
                    let len = r.rsize - self.coloff;
                    let shown = if len >= wcols {
                        wcols
                    } else {
                        len
                    };
                    line = copy_range(&r.render, self.coloff, self.coloff + shown);
                }
            }
            grid.push(line);
            i = i + 1;
        }
        grid
    }

    /// The bottom status line, exactly one window width when it fits: a
    /// transient message padded with spaces, or the mode (and file name,
    /// when there is one) padded with a `~` and spaces. Content wider than
    /// the window gets no padding.
    pub fn editor_satus_message(&self) -> (r: String)
        ensures
            r@ == status_line_of(*self),
    {
        let w = self.dimensions.columns as usize;
        let mut line: Vec<char> = Vec::new();
        match &self.message {
            Some(m) => {
                push_all(&mut line, m);
                proof {
                    assert(Seq::<char>::empty() + m@ =~= m@);
                }
            },
            None => {
                let mode_s = match self.mode {
                    EditorMode::NORMAL => str_to_chars("NORMAL"),
                    EditorMode::INSERT => str_to_chars("INSERT"),
                };
                push_all(&mut line, &mode_s);
                proof {
                    assert(Seq::<char>::empty() + mode_s@ =~= mode_s@);
                }
                match &self.filename {
                    Some(f) => {
                        let sep = str_to_chars(" | ");
                        push_all(&mut line, &sep);
                        push_all(&mut line, f);
                        proof {
                            assert(mode_text(self.mode) + sep@ + f@ =~= status_content_of(*self));
                        }
                    },
                    None => {},
                }
                if line.len() < w {
                    line.push('~');
                }
            },
        }
        let ghost base = line@;
        while line.len() < w
            invariant
                base.len() <= line@.len(),
                line@.len() <= base.len() || line@.len() <= w,
                line@ == base + spaces((line@.len() - base.len()) as nat),
            decreases w - line@.len(),
        {
            line.push(' ');
            proof {
                let k = (line@.len() - 1 - base.len()) as nat;
                assert((base + spaces(k)).push(' ') =~= base + spaces(k + 1));
            }
        }
        proof {
            assert(base + spaces(0) =~= base);
            assert(line@ == status_line_of(*self));
        }
        chars_to_string(&line)
    }
}

/// The text of the mode indicator.
pub open spec fn mode_text(m: EditorMode) -> Seq<char> {
    match m {
        EditorMode::NORMAL => "NORMAL"@,
        EditorMode::INSERT => "INSERT"@,
    }
}

/// The unpadded status content: the mode, and the file name when set.
pub open spec fn status_content_of(s: EditorState) -> Seq<char> {
    match s.filename {
        Some(f) => mode_text(s.mode) + " | "@ + f@,
        None => mode_text(s.mode),
    }
}

/// The status line: a transient message right-padded with spaces to the
/// window width, or else the status content padded with one `~` and then
/// spaces. Content already as wide as the window gets zero padding.
pub open spec fn status_line_of(s: EditorState) -> Seq<char> {
    let w = s.dimensions.columns as int;
    match s.message {
        Some(m) => if m@.len() <= w {
            m@ + spaces((w - m@.len()) as nat)
        } else {
            m@
        },
        None => {
            let content = status_content_of(s);
            if content.len() < w {
                content + seq!['~'] + spaces((w - content.len() - 1) as nat)
            } else {
                content
            }
        },
    }
}

/// The welcome banner, centered by leading spaces in the window width.
pub open spec fn welcome_line_of(columns: int) -> Seq<char> {
    let b = "BREAD EDITOR - VERSION : 0.0.1"@;
    let pad = if columns > b.len() {
        (columns - b.len()) / 2
    } else {
        0
    };
    spaces(pad as nat) + b
}

/// What window row `i` shows: past the buffer's end a `~` marker — or, in
/// a completely empty buffer, the welcome banner a third of the way down —
/// and otherwise the row's rendered text clipped to the horizontal window.
pub open spec fn draw_line_of(s: EditorState, i: int) -> Seq<char> {
    if i + s.rowoff >= s.numrows {
        if i == s.dimensions.rows as int / 3 && s.numrows == 0 {
            welcome_line_of(s.dimensions.columns as int)
        } else {
            seq!['~']
        }
    } else {
        let rend = s.row@[i + s.rowoff].render@;
        if rend.len() < s.coloff {
            Seq::empty()
        } else {
            let shown = if rend.len() - s.coloff >= s.dimensions.columns as int {
                s.dimensions.columns as int
            } else {
                rend.len() - s.coloff
            };
            rend.subrange(s.coloff as int, s.coloff + shown)
        }
    }
}

} // verus!
