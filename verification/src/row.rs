//! The row store: one line of text, kept both raw and in a tab-expanded
//! rendered form, together with the column mapping between the two.

use vstd::prelude::*;

use crate::text::str_to_chars;

verus! {

/// Fixed column interval used when expanding tabs.
pub const TABSTOP: usize = 4;

/// A sequence of `n` spaces.
pub open spec fn spaces(n: nat) -> Seq<char> {
    Seq::new(n, |i: int| ' ')
}

/// Number of rendered columns a tab occupies when it begins at rendered
/// column `idx`: one space, then further spaces until the column is a
/// multiple of the tab stop. Always between 1 and `TABSTOP`.
pub open spec fn tab_pad(idx: nat) -> nat {
    (TABSTOP as int - idx as int % (TABSTOP as int)) as nat
}

/// The rendered (tab-expanded) form of raw row content: every character
/// other than a tab is copied through; a tab becomes `tab_pad` spaces.
pub open spec fn render_of(s: Seq<char>) -> Seq<char>
    decreases s.len(),
{
    if s.len() == 0 {
        Seq::empty()
    } else {
        let prefix = render_of(s.drop_last());
        if s.last() == '\t' {
            prefix + spaces(tab_pad(prefix.len()))
        } else {
            prefix.push(s.last())
        }
    }
}

/// The rendered column that raw column `cx` maps to: the rendered length of
/// the raw prefix `[0, cx)`. A `cx` beyond the row length is clamped to it.
pub open spec fn rx_of(s: Seq<char>, cx: int) -> int {
    let c = if cx < 0 {
        0
    } else if cx > s.len() {
        s.len() as int
    } else {
        cx
    };
    render_of(s.take(c)).len() as int
}

/// Unfolds `render_of` one raw character at a time, in the order the
/// rendering loop walks the row.
pub proof fn lemma_render_take_succ(s: Seq<char>, i: int)
    requires
        0 <= i < s.len(),
    ensures
        render_of(s.take(i + 1)) == if s[i] == '\t' {
            render_of(s.take(i)) + spaces(tab_pad(render_of(s.take(i)).len()))
        } else {
            render_of(s.take(i)).push(s[i])
        },
{
    let t = s.take(i + 1);
    assert(t.drop_last() =~= s.take(i));
    assert(t.last() == s[i]);
}

/// The rendered length of a raw prefix never shrinks as the prefix grows.
pub proof fn lemma_render_take_len_monotone(s: Seq<char>, i: int, j: int)
    requires
        0 <= i <= j <= s.len(),
    ensures
        render_of(s.take(i)).len() <= render_of(s.take(j)).len(),
    decreases j - i,
{
    if i < j {
        lemma_render_take_len_monotone(s, i, j - 1);
        lemma_render_take_succ(s, j - 1);
    }
}

/// `cxToRx` is monotonically non-decreasing in the raw column.
pub proof fn lemma_rx_monotone(s: Seq<char>, cx1: int, cx2: int)
    requires
        cx1 <= cx2,
    ensures
        rx_of(s, cx1) <= rx_of(s, cx2),
{
    let c1 = if cx1 < 0 {
        0
    } else if cx1 > s.len() {
        s.len() as int
    } else {
        cx1
    };
    let c2 = if cx2 < 0 {
        0
    } else if cx2 > s.len() {
        s.len() as int
    } else {
        cx2
    };
    lemma_render_take_len_monotone(s, c1, c2);
}

/// When the raw prefix holds no tab, the rendered column equals the raw one.
pub proof fn lemma_rx_no_tabs(s: Seq<char>, cx: int)
    requires
        0 <= cx <= s.len(),
        forall|i: int| 0 <= i < cx ==> s[i] != '\t',
    ensures
        rx_of(s, cx) == cx,
    decreases cx,
{
    if cx > 0 {
        lemma_rx_no_tabs(s, cx - 1);
        lemma_render_take_succ(s, cx - 1);
    } else {
        assert(s.take(0) =~= Seq::<char>::empty());
    }
}

/// Inserting a character into raw content and then deleting it at the same
/// position restores the content, and with it the rendered form: rendering
/// is a function of the raw characters alone.
pub proof fn lemma_insert_delete_inverse(s: Seq<char>, at: int, c: char)
    requires
        0 <= at <= s.len(),
    ensures
        s.insert(at, c).remove(at) == s,
        render_of(s.insert(at, c).remove(at)) == render_of(s),
{
    assert(s.insert(at, c).remove(at) =~= s);
}

/// Inserting a character into a row and then deleting at the column just
/// right of it restores the row completely: raw content, rendered form
/// and both sizes return to their pre-insert state.
pub proof fn lemma_row_insert_delete_inverse(r0: Erow, r1: Erow, r2: Erow, at: int, c: char)
    requires
        r0.wf(),
        r1.wf(),
        r2.wf(),
        0 <= at <= r0.chars@.len(),
        r1.chars@ == r0.chars@.insert(at, c),
        r2.chars@ == r1.chars@.remove(at),
    ensures
        r2.chars@ == r0.chars@,
        r2.render@ == r0.render@,
        r2.size == r0.size,
        r2.rsize == r0.rsize,
{
    lemma_insert_delete_inverse(r0.chars@, at, c);
}

/// One row of text. `chars` is the raw content (it may contain tabs) and
/// `size` its length; `render` is the tab-expanded form and `rsize` its
/// length.
#[derive(Debug)]
pub struct Erow {
    pub size: usize,
    pub chars: Vec<char>,
    pub rsize: usize,
    pub render: Vec<char>,
}

impl Erow {
    /// A row is well formed when the stored sizes mirror the contents and
    /// the rendered form is exactly the tab expansion of the raw characters.
    pub open spec fn wf(&self) -> bool {
        &&& self.size == self.chars@.len()
        &&& self.render@ == render_of(self.chars@)
        &&& self.rsize == self.render@.len()
    }

    pub fn new() -> (r: Self)
        ensures
            r.wf(),
            r.chars@ == Seq::<char>::empty(),
    {
        let r = Erow { size: 0, chars: Vec::new(), rsize: 0, render: Vec::new() };
        proof {
            assert(render_of(r.chars@) == Seq::<char>::empty());
        }
        r
    }

    /// A row with the given raw content. The rendered form is not yet
    /// computed; the caller updates it before the row is displayed.
    pub fn from(chars: &str) -> (r: Self)
        ensures
            r.chars@ == chars@,
            r.size == chars@.len(),
            r.render@ == Seq::<char>::empty(),
            r.rsize == 0,
    {
        let v = str_to_chars(chars);
        let n = v.len();
        Erow { size: n, chars: v, rsize: 0, render: Vec::new() }
    }

    /// Recomputes the rendered form and its length from the raw characters.
    pub fn editor_update_row(&mut self)
        ensures
            final(self).chars@ == old(self).chars@,
            final(self).size == old(self).size,
            final(self).render@ == render_of(old(self).chars@),
            final(self).rsize == final(self).render@.len(),
            old(self).size == old(self).chars@.len() ==> final(self).wf(),
    {
        let mut render: Vec<char> = Vec::new();
        proof {
            assert(self.chars@.take(0) =~= Seq::<char>::empty());
        }
        let mut i: usize = 0;
        while i < self.chars.len()
            invariant
                self.chars@ == old(self).chars@,
                self.size == old(self).size,
                i <= self.chars@.len(),
                render@ == render_of(self.chars@.take(i as int)),
            decreases self.chars@.len() - i,
        {
            proof {
                lemma_render_take_succ(self.chars@, i as int);
            }
            let c = self.chars[i];
            if c == '\t' {
                let ghost r0 = render@;
                let pad: usize = TABSTOP - render.len() % TABSTOP;
                let mut k: usize = 0;
                proof {
                    assert(r0 + spaces(0) =~= r0);
                }
                while k < pad
                    invariant
                        k <= pad,
                        render@ == r0 + spaces(k as nat),
                    decreases pad - k,
                {
                    render.push(' ');
                    proof {
                        assert((r0 + spaces(k as nat)).push(' ') =~= r0 + spaces((k + 1) as nat));
                    }
                    k = k + 1;
                }
                proof {
                    assert(pad == tab_pad(r0.len()));
                }
            } else {
                render.push(c);
            }
            i = i + 1;
        }
        proof {
            assert(self.chars@.take(self.chars@.len() as int) =~= self.chars@);
        }
        self.rsize = render.len();
        self.render = render;
    }

    /// Maps raw column `cx` to its rendered column, by the same tab-stop
    /// rule that renders the row.
    pub fn editor_row_cx_to_rx(&self, cx: usize) -> (rx: usize)
        requires
            self.wf(),
        ensures
            rx == rx_of(self.chars@, cx as int),
    {
        let end = if cx < self.chars.len() {
            cx
        } else {
            self.chars.len()
        };
        let mut rx: usize = 0;
        let mut i: usize = 0;
        proof {
            assert(self.chars@.take(0) =~= Seq::<char>::empty());
        }
        while i < end
            invariant
                self.wf(),
                end <= self.chars@.len(),
                i <= end,
                rx == render_of(self.chars@.take(i as int)).len(),
            decreases end - i,
        {
            proof {
                lemma_render_take_succ(self.chars@, i as int);
                lemma_render_take_len_monotone(self.chars@, i as int + 1, self.chars@.len() as int);
                assert(self.chars@.take(self.chars@.len() as int) =~= self.chars@);
            }
            let c = self.chars[i];
            if c == '\t' {
                rx = rx + (TABSTOP - rx % TABSTOP);
            } else {
                rx = rx + 1;
            }
            i = i + 1;
        }
        rx
    }

    /// Inserts `key` at raw index `at`, appending when `at` is at or past
    /// the end, and recomputes the rendered form. The effective insertion
    /// index is therefore `at` clamped to the row length.
    pub fn editor_row_insert_char(&mut self, at: usize, key: char)
        requires
            old(self).wf(),
        ensures
            final(self).wf(),
            final(self).chars@ == old(self).chars@.insert(
                if at as int <= old(self).chars@.len() {
                    at as int
                } else {
                    old(self).chars@.len() as int
                },
                key,
            ),
            final(self).size == old(self).size + 1,
    {
        if at >= self.size {
            self.chars.push(key);
            proof {
                assert(self.chars@ =~= old(self).chars@.insert(old(self).chars@.len() as int, key));
            }
        } else {
            self.chars.insert(at, key);
        }
        self.size = self.chars.len();
        self.editor_update_row();
    }

    /// Removes the character immediately before raw index `at` and
    /// recomputes the rendered form. Deleting at column 0 is not a row
    /// operation: it is the cross-row merge, handled by the mode controller.
    pub fn delete_char(&mut self, at: usize)
        requires
            old(self).wf(),
            1 <= at <= old(self).size,
        ensures
            final(self).wf(),
            final(self).chars@ == old(self).chars@.remove(at - 1),
            final(self).size == old(self).size - 1,
    {
        self.chars.remove(at - 1);
        self.size = self.chars.len();
        self.editor_update_row();
    }
}

} // verus!
