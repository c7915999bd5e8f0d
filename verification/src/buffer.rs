//! The editable text buffer: an always non-empty sequence of lines, a
//! clamped cursor, a select-all flag, and linear undo/redo over whole
//! buffer snapshots, bounded in depth. A mutating key first pushes the
//! pre-mutation buffer onto the undo stack — dropping the oldest
//! snapshot when the history is full — and clears the redo stack;
//! navigation keys touch neither stack.

use vstd::prelude::*;
use crate::text::{join_lines, join_text, lines_of, split_lines, string_from_chars, sub_chars};

verus! {

/// One key delivered to the editor.
#[derive(Clone, Copy, Debug, PartialEq, Eq, Structural)]
pub enum KeyInput {
    Char(char),
    Enter,
    Backspace,
    Delete,
    Tab,
    Left,
    Right,
    Up,
    Down,
    Home,
    End,
    PageUp,
    PageDown,
}

pub open spec fn is_mutating(k: KeyInput) -> bool {
    match k {
        KeyInput::Char(_) => true,
        KeyInput::Enter => true,
        KeyInput::Backspace => true,
        KeyInput::Delete => true,
        KeyInput::Tab => true,
        _ => false,
    }
}

pub fn is_mutating_key(k: &KeyInput) -> (r: bool)
    ensures
        r == is_mutating(*k),
{
    match k {
        KeyInput::Char(_) => true,
        KeyInput::Enter => true,
        KeyInput::Backspace => true,
        KeyInput::Delete => true,
        KeyInput::Tab => true,
        _ => false,
    }
}

/// How many snapshots the history holds at most, undo and redo
/// together.
pub const MAX_UNDO_SNAPSHOTS: usize = 100;

/// The mathematical state of a buffer.
#[verifier::ext_equal]
pub struct BufV {
    pub lines: Seq<Seq<char>>,
    pub cur_line: int,
    pub cur_col: int,
    pub select_all: bool,
    pub undo: Seq<Seq<Seq<char>>>,
    pub redo: Seq<Seq<Seq<char>>>,
}

pub open spec fn buf_wf(b: BufV) -> bool {
    &&& b.lines.len() >= 1
    &&& 0 <= b.cur_line < b.lines.len()
    &&& 0 <= b.cur_col <= b.lines[b.cur_line].len()
    &&& (forall|i: int| 0 <= i < b.undo.len() ==> #[trigger] b.undo[i].len() >= 1)
    &&& (forall|i: int| 0 <= i < b.redo.len() ==> #[trigger] b.redo[i].len() >= 1)
    &&& b.undo.len() + b.redo.len() <= MAX_UNDO_SNAPSHOTS
}

pub open spec fn empty_buf() -> BufV {
    BufV {
        lines: seq![Seq::<char>::empty()],
        cur_line: 0,
        cur_col: 0,
        select_all: false,
        undo: Seq::empty(),
        redo: Seq::empty(),
    }
}

/// The pure edit a mutating key performs on lines and cursor.
pub open spec fn spec_edit(lines: Seq<Seq<char>>, cl: int, cc: int, k: KeyInput) -> (
    Seq<Seq<char>>,
    int,
    int,
)
    recommends
        0 <= cl < lines.len(),
        0 <= cc <= lines[cl].len(),
{
    let ln = lines[cl];
    match k {
        KeyInput::Char(c) => (lines.update(cl, ln.take(cc) + seq![c] + ln.skip(cc)), cl, cc + 1),
        KeyInput::Tab => (lines.update(cl, ln.take(cc) + seq!['\t'] + ln.skip(cc)), cl, cc + 1),
        KeyInput::Enter => (
            lines.take(cl) + seq![ln.take(cc), ln.skip(cc)] + lines.skip(cl + 1),
            cl + 1,
            0,
        ),
        KeyInput::Backspace => if cc > 0 {
            (lines.update(cl, ln.take(cc - 1) + ln.skip(cc)), cl, cc - 1)
        } else if cl > 0 {
            (
                lines.take(cl - 1) + seq![lines[cl - 1] + ln] + lines.skip(cl + 1),
                cl - 1,
                lines[cl - 1].len() as int,
            )
        } else {
            (lines, cl, cc)
        },
        KeyInput::Delete => if cc < ln.len() {
            (lines.update(cl, ln.take(cc) + ln.skip(cc + 1)), cl, cc)
        } else if cl + 1 < lines.len() {
            (lines.take(cl) + seq![ln + lines[cl + 1]] + lines.skip(cl + 2), cl, cc)
        } else {
            (lines, cl, cc)
        },
        _ => (lines, cl, cc),
    }
}

/// Where a navigation key places the cursor.
pub open spec fn spec_navigate(lines: Seq<Seq<char>>, cl: int, cc: int, k: KeyInput) -> (int, int)
    recommends
        0 <= cl < lines.len(),
{
    match k {
        KeyInput::Left => if cc > 0 {
            (cl, cc - 1)
        } else if cl > 0 {
            (cl - 1, lines[cl - 1].len() as int)
        } else {
            (cl, cc)
        },
        KeyInput::Right => if cc < lines[cl].len() {
            (cl, cc + 1)
        } else if cl + 1 < lines.len() {
            (cl + 1, 0)
        } else {
            (cl, cc)
        },
        KeyInput::Up => if cl > 0 {
            (cl - 1, if cc <= lines[cl - 1].len() {
                cc
            } else {
                lines[cl - 1].len() as int
            })
        } else {
            (cl, 0)
        },
        KeyInput::Down => if cl + 1 < lines.len() {
            (cl + 1, if cc <= lines[cl + 1].len() {
                cc
            } else {
                lines[cl + 1].len() as int
            })
        } else {
            (cl, lines[cl].len() as int)
        },
        KeyInput::Home => (cl, 0),
        KeyInput::End => (cl, lines[cl].len() as int),
        KeyInput::PageUp => (0, if cc <= lines[0].len() {
            cc
        } else {
            lines[0].len() as int
        }),
        KeyInput::PageDown => (
            lines.len() - 1,
            if cc <= lines[lines.len() - 1].len() {
                cc
            } else {
                lines[lines.len() - 1].len() as int
            },
        ),
        _ => (cl, cc),
    }
}

/// One key applied to the buffer: a mutating key pushes the pre-mutation
/// snapshot and clears redo; with select-all active, delete or backspace
/// empties the buffer; any key clears the flag.
pub open spec fn spec_apply_key(b: BufV, k: KeyInput) -> BufV {
    if is_mutating(k) {
        let pushed = if b.undo.len() >= MAX_UNDO_SNAPSHOTS {
            b.undo.skip(1).push(b.lines)
        } else {
            b.undo.push(b.lines)
        };
        if b.select_all && (k is Delete || k is Backspace) {
            BufV {
                lines: seq![Seq::<char>::empty()],
                cur_line: 0,
                cur_col: 0,
                select_all: false,
                undo: pushed,
                redo: Seq::empty(),
            }
        } else {
            let e = spec_edit(b.lines, b.cur_line, b.cur_col, k);
            BufV {
                lines: e.0,
                cur_line: e.1,
                cur_col: e.2,
                select_all: false,
                undo: pushed,
                redo: Seq::empty(),
            }
        }
    } else {
        let nav = spec_navigate(b.lines, b.cur_line, b.cur_col, k);
        BufV { cur_line: nav.0, cur_col: nav.1, select_all: false, ..b }
    }
}

/// The cursor position after restoring a snapshot: the end of its content.
pub open spec fn end_cursor(lines: Seq<Seq<char>>) -> (int, int)
    recommends
        lines.len() >= 1,
{
    (lines.len() - 1, lines.last().len() as int)
}

/// Undo: restore the most recent snapshot, moving the current buffer to
/// the redo stack; a no-op when the undo stack is empty.
pub open spec fn spec_undo(b: BufV) -> BufV {
    if b.undo.len() == 0 {
        b
    } else {
        let restored = b.undo.last();
        BufV {
            lines: restored,
            cur_line: end_cursor(restored).0,
            cur_col: end_cursor(restored).1,
            select_all: false,
            undo: b.undo.drop_last(),
            redo: b.redo.push(b.lines),
        }
    }
}

/// Redo: the mirror of undo; a no-op when the redo stack is empty.
pub open spec fn spec_redo(b: BufV) -> BufV {
    if b.redo.len() == 0 {
        b
    } else {
        let restored = b.redo.last();
        BufV {
            lines: restored,
            cur_line: end_cursor(restored).0,
            cur_col: end_cursor(restored).1,
            select_all: false,
            undo: b.undo.push(b.lines),
            redo: b.redo.drop_last(),
        }
    }
}

// ---------------------------------------------------------------------------
// The executable buffer
// ---------------------------------------------------------------------------

pub struct TextBuffer {
    pub lines: Vec<Vec<char>>,
    pub cur_line: usize,
    pub cur_col: usize,
    pub select_all_flag: bool,
    pub undo_stack: Vec<Vec<Vec<char>>>,
    pub redo_stack: Vec<Vec<Vec<char>>>,
}

impl View for TextBuffer {
    type V = BufV;

    open spec fn view(&self) -> BufV {
        BufV {
            lines: self.lines.deep_view(),
            cur_line: self.cur_line as int,
            cur_col: self.cur_col as int,
            select_all: self.select_all_flag,
            undo: self.undo_stack.deep_view(),
            redo: self.redo_stack.deep_view(),
        }
    }
}

fn copy_line(v: &Vec<char>) -> (r: Vec<char>)
    ensures
        r@ == v@,
{
    let r = sub_chars(v, 0, v.len());
    proof {
        assert(r@ =~= v@);
    }
    r
}

fn copy_lines(v: &Vec<Vec<char>>) -> (r: Vec<Vec<char>>)
    ensures
        r.deep_view() == v.deep_view(),
{
    let mut r: Vec<Vec<char>> = Vec::new();
    let mut i: usize = 0;
    while i < v.len()
        invariant
            i <= v@.len(),
            r.deep_view() =~~= v.deep_view().take(i as int),
        decreases v@.len() - i,
    {
        let ghost pre = r.deep_view();
        r.push(copy_line(&v[i]));
        proof {
            assert(r.deep_view() =~~= pre.push(v@[i as int]@));
            assert(r.deep_view() =~~= v.deep_view().take(i + 1));
        }
        i = i + 1;
    }
    proof {
        assert(v.deep_view().take(v@.len() as int) =~~= v.deep_view());
    }
    r
}

impl TextBuffer {
    /// A fresh buffer: one empty line, empty history.
    pub fn new() -> (r: TextBuffer)
        ensures
            r@ == empty_buf(),
            buf_wf(r@),
    {
        let mut lines: Vec<Vec<char>> = Vec::new();
        lines.push(Vec::new());
        let r = TextBuffer {
            lines,
            cur_line: 0,
            cur_col: 0,
            select_all_flag: false,
            undo_stack: Vec::new(),
            redo_stack: Vec::new(),
        };
        proof {
            assert(r@ =~~= empty_buf());
        }
        r
    }

    /// Replace the content with the lines of `text`, clear both history
    /// stacks and the selection, and put the cursor at the end.
    pub fn set_content(&mut self, text: &str)
        ensures
            final(self)@.lines == (if lines_of(text@).len() == 0 {
                seq![Seq::<char>::empty()]
            } else {
                lines_of(text@)
            }),
            final(self)@.undo.len() == 0,
            final(self)@.redo.len() == 0,
            !final(self)@.select_all,
            (final(self)@.cur_line, final(self)@.cur_col) == end_cursor(final(self)@.lines),
            buf_wf(final(self)@),
    {
        let chars = crate::text::chars_of(text);
        let mut ls = split_lines(&chars);
        if ls.len() == 0 {
            ls.push(Vec::new());
            proof {
                assert(ls.deep_view() =~~= seq![Seq::<char>::empty()]);
            }
        }
        self.cur_line = ls.len() - 1;
        self.cur_col = ls[ls.len() - 1].len();
        self.lines = ls;
        self.select_all_flag = false;
        self.undo_stack = Vec::new();
        self.redo_stack = Vec::new();
        proof {
            assert(self.undo_stack.deep_view() =~~= Seq::<Seq<Seq<char>>>::empty());
            assert(self.redo_stack.deep_view() =~~= Seq::<Seq<Seq<char>>>::empty());
        }
    }

    /// The buffer's text: its lines joined with newlines.
    pub fn to_text(&self) -> (r: String)
        ensures
            r@ == join_lines(self@.lines),
    {
        let joined = join_text(&self.lines);
        string_from_chars(&joined)
    }

    /// Move the cursor, clamping to the nearest valid position.
    pub fn move_cursor(&mut self, line: usize, col: usize)
        requires
            buf_wf(old(self)@),
        ensures
            buf_wf(final(self)@),
            final(self)@.lines == old(self)@.lines,
            final(self)@.undo == old(self)@.undo,
            final(self)@.redo == old(self)@.redo,
            final(self)@.cur_line == (if line < old(self)@.lines.len() {
                line as int
            } else {
                old(self)@.lines.len() - 1
            }),
    {
        let n = self.lines.len();
        proof {
            assert(self@.lines.len() == n as int);
        }
        let cl = if line < n {
            line
        } else {
            n - 1
        };
        let max_col = self.lines[cl].len();
        proof {
            assert(self@.lines[cl as int].len() == max_col as int);
        }
        let cc = if col < max_col {
            col
        } else {
            max_col
        };
        self.cur_line = cl;
        self.cur_col = cc;
        proof {
            assert(self@.lines == old(self)@.lines);
            assert(self@.undo == old(self)@.undo);
            assert(self@.redo == old(self)@.redo);
            assert(buf_wf(self@));
        }
    }

    pub fn select_all(&mut self)
        ensures
            final(self)@ == (BufV { select_all: true, ..old(self)@ }),
    {
        self.select_all_flag = true;
    }

    pub fn clear_selection(&mut self)
        ensures
            final(self)@ == (BufV { select_all: false, ..old(self)@ }),
    {
        self.select_all_flag = false;
    }

    /// Apply one key.
    pub fn apply_key(&mut self, k: &KeyInput)
        requires
            buf_wf(old(self)@),
        ensures
            final(self)@ == spec_apply_key(old(self)@, *k),
            buf_wf(final(self)@),
    {
        if is_mutating_key(k) {
            let snapshot = copy_lines(&self.lines);
            let ghost pre = self@;
            if self.undo_stack.len() >= MAX_UNDO_SNAPSHOTS {
                self.undo_stack.remove(0);
                proof {
                    assert(self.undo_stack.deep_view() =~~= pre.undo.skip(1));
                }
            }
            self.undo_stack.push(snapshot);
            self.redo_stack = Vec::new();
            proof {
                if pre.undo.len() >= MAX_UNDO_SNAPSHOTS {
                    assert(self.undo_stack.deep_view() =~~= pre.undo.skip(1).push(pre.lines));
                } else {
                    assert(self.undo_stack.deep_view() =~~= pre.undo.push(pre.lines));
                }
                assert(self.redo_stack.deep_view() =~~= Seq::<Seq<Seq<char>>>::empty());
            }
            if self.select_all_flag && (matches!(k, KeyInput::Delete) || matches!(
                k,
                KeyInput::Backspace,
            )) {
                let mut nl: Vec<Vec<char>> = Vec::new();
                nl.push(Vec::new());
                self.lines = nl;
                self.cur_line = 0;
                self.cur_col = 0;
                self.select_all_flag = false;
                proof {
                    assert(self.lines.deep_view() =~~= seq![Seq::<char>::empty()]);
                    assert(self@ =~~= spec_apply_key(pre, *k));
                }
            } else {
                self.select_all_flag = false;
                self.do_edit(k);
                proof {
                    assert(self@ =~~= spec_apply_key(pre, *k));
                }
            }
        } else {
            let ghost pre = self@;
            self.select_all_flag = false;
            proof {
                assert(buf_wf(self@)) by {
                    assert(self@.lines == pre.lines);
                    assert(self@.undo == pre.undo);
                    assert(self@.redo == pre.redo);
                }
            }
            self.do_navigate(k);
            proof {
                assert(self@ =~~= spec_apply_key(pre, *k));
            }
        }
    }

    #[verifier::rlimit(100)]
    fn do_edit(&mut self, k: &KeyInput)
        requires
            buf_wf(old(self)@),
            is_mutating(*k),
        ensures
            buf_wf(final(self)@),
            final(self).select_all_flag == old(self).select_all_flag,
            final(self).undo_stack == old(self).undo_stack,
            final(self).redo_stack == old(self).redo_stack,
            ({
                let e = spec_edit(old(self)@.lines, old(self)@.cur_line, old(self)@.cur_col, *k);
                final(self)@.lines == e.0 && final(self)@.cur_line == e.1 && final(self)@.cur_col
                    == e.2
            }),
    {
        let cl = self.cur_line;
        let cc = self.cur_col;
        let ghost pre = self@;
        match k {
            KeyInput::Char(c) => {
                self.insert_char(cl, cc, *c);
                let l = self.lines[cl].len();
                proof {
                    assert(cc < l);
                    assert(pre.lines[cl as int] == old(self).lines@[cl as int]@);
                    assert(self@.lines =~~= spec_edit(pre.lines, pre.cur_line, pre.cur_col, *k).0);
                }
                self.cur_col = cc + 1;
            },
            KeyInput::Tab => {
                self.insert_char(cl, cc, '\t');
                let l = self.lines[cl].len();
                proof {
                    assert(cc < l);
                    assert(pre.lines[cl as int] == old(self).lines@[cl as int]@);
                    assert(self@.lines =~~= spec_edit(pre.lines, pre.cur_line, pre.cur_col, *k).0);
                }
                self.cur_col = cc + 1;
            },
            KeyInput::Enter => {
                let n0 = self.lines.len();
                proof {
                    assert(self@.lines.len() == n0 as int);
                }
                let left = sub_chars(&self.lines[cl], 0, cc);
                let right = sub_chars(&self.lines[cl], cc, self.lines[cl].len());
                let ghost pl = self.lines.deep_view();
                self.lines.remove(cl);
                self.lines.insert(cl, right);
                self.lines.insert(cl, left);
                self.cur_line = cl + 1;
                self.cur_col = 0;
                proof {
                    let e = spec_edit(pre.lines, pre.cur_line, pre.cur_col, *k);
                    assert(self.lines.deep_view() =~~= e.0);
                }
            },
            KeyInput::Backspace => {
                if cc > 0 {
                    let ln = &self.lines[cl];
                    let head = sub_chars(ln, 0, cc - 1);
                    let tail = sub_chars(ln, cc, ln.len());
                    let mut merged = head;
                    crate::num::push_all(&mut merged, &tail);
                    self.lines.remove(cl);
                    self.lines.insert(cl, merged);
                    self.cur_col = cc - 1;
                    proof {
                        let e = spec_edit(pre.lines, pre.cur_line, pre.cur_col, *k);
                        assert(self.lines.deep_view() =~~= e.0);
                    }
                } else if cl > 0 {
                    let prev_len = self.lines[cl - 1].len();
                    let cur = copy_line(&self.lines[cl]);
                    let mut merged = copy_line(&self.lines[cl - 1]);
                    crate::num::push_all(&mut merged, &cur);
                    self.lines.remove(cl);
                    self.lines.remove(cl - 1);
                    self.lines.insert(cl - 1, merged);
                    self.cur_line = cl - 1;
                    self.cur_col = prev_len;
                    proof {
                        let e = spec_edit(pre.lines, pre.cur_line, pre.cur_col, *k);
                        assert(self.lines.deep_view() =~~= e.0);
                    }
                }
            },
            KeyInput::Delete => {
                let n0 = self.lines.len();
                proof {
                    assert(self@.lines.len() == n0 as int);
                }
                let ln_len = self.lines[cl].len();
                if cc < ln_len {
                    let ln = &self.lines[cl];
                    let head = sub_chars(ln, 0, cc);
                    let tail = sub_chars(ln, cc + 1, ln.len());
                    let mut merged = head;
                    crate::num::push_all(&mut merged, &tail);
                    self.lines.remove(cl);
                    self.lines.insert(cl, merged);
                    proof {
                        let e = spec_edit(pre.lines, pre.cur_line, pre.cur_col, *k);
                        assert(self.lines.deep_view() =~~= e.0);
                    }
                } else if cl < n0 - 1 {
                    let nxt = copy_line(&self.lines[cl + 1]);
                    let mut merged = copy_line(&self.lines[cl]);
                    crate::num::push_all(&mut merged, &nxt);
                    self.lines.remove(cl + 1);
                    self.lines.remove(cl);
                    self.lines.insert(cl, merged);
                    proof {
                        let e = spec_edit(pre.lines, pre.cur_line, pre.cur_col, *k);
                        assert(self.lines.deep_view() =~~= e.0);
                    }
                }
            },
            _ => {
                proof {
                    assert(false);
                }
            },
        }
        proof {
            assert(self@.undo =~~= pre.undo);
            assert(self@.redo =~~= pre.redo);
        }
    }

    fn insert_char(&mut self, cl: usize, cc: usize, c: char)
        requires
            cl < old(self).lines@.len(),
            cc <= old(self).lines@[cl as int]@.len(),
        ensures
            final(self).lines.deep_view() == old(self).lines.deep_view().update(
                cl as int,
                old(self).lines@[cl as int]@.take(cc as int) + seq![c] + old(
                    self,
                ).lines@[cl as int]@.skip(cc as int),
            ),
            final(self).cur_line == old(self).cur_line,
            final(self).cur_col == old(self).cur_col,
            final(self).select_all_flag == old(self).select_all_flag,
            final(self).undo_stack == old(self).undo_stack,
            final(self).redo_stack == old(self).redo_stack,
            final(self).lines@.len() == old(self).lines@.len(),
            final(self).lines@[cl as int]@.len() == old(self).lines@[cl as int]@.len() + 1,
    {
        let ln = &self.lines[cl];
        let mut merged = sub_chars(ln, 0, cc);
        merged.push(c);
        let tail = sub_chars(ln, cc, ln.len());
        crate::num::push_all(&mut merged, &tail);
        let ghost pl = self.lines.deep_view();
        let ghost oldln = self.lines@[cl as int]@;
        self.lines.remove(cl);
        self.lines.insert(cl, merged);
        proof {
            assert(merged@ =~= oldln.take(cc as int) + seq![c] + oldln.skip(cc as int));
            assert(self.lines.deep_view() =~~= pl.update(
                cl as int,
                oldln.take(cc as int) + seq![c] + oldln.skip(cc as int),
            ));
            assert(self.lines@[cl as int]@.len() == oldln.len() + 1);
        }
    }

    fn do_navigate(&mut self, k: &KeyInput)
        requires
            buf_wf(old(self)@),
            !is_mutating(*k),
        ensures
            buf_wf(final(self)@),
            final(self).lines == old(self).lines,
            final(self).select_all_flag == old(self).select_all_flag,
            final(self).undo_stack == old(self).undo_stack,
            final(self).redo_stack == old(self).redo_stack,
            ({
                let nav = spec_navigate(old(self)@.lines, old(self)@.cur_line, old(self)@.cur_col, *k);
                final(self)@.cur_line == nav.0 && final(self)@.cur_col == nav.1
            }),
    {
        let cl = self.cur_line;
        let cc = self.cur_col;
        let nn = self.lines.len();
        proof {
            assert(self@.lines.len() == nn as int);
        }
        match k {
            KeyInput::Left => {
                if cc > 0 {
                    self.cur_col = cc - 1;
                } else if cl > 0 {
                    self.cur_line = cl - 1;
                    self.cur_col = self.lines[cl - 1].len();
                }
            },
            KeyInput::Right => {
                if cc < self.lines[cl].len() {
                    self.cur_col = cc + 1;
                } else if cl < nn - 1 {
                    self.cur_line = cl + 1;
                    self.cur_col = 0;
                }
            },
            KeyInput::Up => {
                if cl > 0 {
                    self.cur_line = cl - 1;
                    let m = self.lines[cl - 1].len();
                    if cc > m {
                        self.cur_col = m;
                    }
                } else {
                    self.cur_col = 0;
                }
            },
            KeyInput::Down => {
                if cl < nn - 1 {
                    self.cur_line = cl + 1;
                    let m = self.lines[cl + 1].len();
                    if cc > m {
                        self.cur_col = m;
                    }
                } else {
                    self.cur_col = self.lines[cl].len();
                }
            },
            KeyInput::Home => {
                self.cur_col = 0;
            },
            KeyInput::End => {
                self.cur_col = self.lines[cl].len();
            },
            KeyInput::PageUp => {
                self.cur_line = 0;
                let m = self.lines[0].len();
                if cc > m {
                    self.cur_col = m;
                }
            },
            KeyInput::PageDown => {
                let last = self.lines.len() - 1;
                self.cur_line = last;
                let m = self.lines[last].len();
                if cc > m {
                    self.cur_col = m;
                }
            },
            _ => {
                proof {
                    assert(false);
                }
            },
        }
        proof {
            assert(self@.lines == old(self)@.lines);
            assert(self@.undo == old(self)@.undo);
            assert(self@.redo == old(self)@.redo);
        }
    }

    /// Undo the most recent mutation; a no-op when nothing is left to undo.
    pub fn undo(&mut self)
        requires
            buf_wf(old(self)@),
        ensures
            final(self)@ == spec_undo(old(self)@),
            buf_wf(final(self)@),
    {
        let ghost pre = self@;
        if self.undo_stack.len() == 0 {
            return;
        }
        let restored = match self.undo_stack.pop() {
            Some(r) => r,
            None => {
                proof {
                    assert(false);
                }
                Vec::new()
            },
        };
        let current = copy_lines(&self.lines);
        self.redo_stack.push(current);
        self.lines = restored;
        self.select_all_flag = false;
        proof {
            assert(self.lines.deep_view() =~~= pre.undo.last());
            assert(pre.undo.last().len() >= 1);
        }
        self.cur_line = self.lines.len() - 1;
        self.cur_col = self.lines[self.lines.len() - 1].len();
        proof {
            assert(self.undo_stack.deep_view() =~~= pre.undo.drop_last());
            assert(self.redo_stack.deep_view() =~~= pre.redo.push(pre.lines));
            assert(self@ =~~= spec_undo(pre));
        }
    }

    /// Redo the most recently undone mutation; a no-op when nothing is
    /// left to redo.
    pub fn redo(&mut self)
        requires
            buf_wf(old(self)@),
        ensures
            final(self)@ == spec_redo(old(self)@),
            buf_wf(final(self)@),
    {
        let ghost pre = self@;
        if self.redo_stack.len() == 0 {
            return;
        }
        let restored = match self.redo_stack.pop() {
            Some(r) => r,
            None => {
                proof {
                    assert(false);
                }
                Vec::new()
            },
        };
        let current = copy_lines(&self.lines);
        self.undo_stack.push(current);
        self.lines = restored;
        self.select_all_flag = false;
        proof {
            assert(self.lines.deep_view() =~~= pre.redo.last());
            assert(pre.redo.last().len() >= 1);
        }
        self.cur_line = self.lines.len() - 1;
        self.cur_col = self.lines[self.lines.len() - 1].len();
        proof {
            assert(self.redo_stack.deep_view() =~~= pre.redo.drop_last());
            assert(self.undo_stack.deep_view() =~~= pre.undo.push(pre.lines));
            assert(self@ =~~= spec_redo(pre));
        }
    }
}

// ---------------------------------------------------------------------------
// The linear-history laws
// ---------------------------------------------------------------------------

pub open spec fn apply_keys(b: BufV, ks: Seq<KeyInput>) -> BufV
    decreases ks.len(),
{
    if ks.len() == 0 {
        b
    } else {
        apply_keys(spec_apply_key(b, ks[0]), ks.drop_first())
    }
}

pub open spec fn undo_n(b: BufV, n: nat) -> BufV
    decreases n,
{
    if n == 0 {
        b
    } else {
        spec_undo(undo_n(b, (n - 1) as nat))
    }
}

/// Undoing as many times as mutating keys were applied restores the
/// content and the undo history the buffer started with, as long as the
/// bounded history has room for the whole run (a longer run drops its
/// oldest snapshots).
pub proof fn lemma_undo_returns(b: BufV, ks: Seq<KeyInput>)
    requires
        forall|i: int| 0 <= i < ks.len() ==> is_mutating(#[trigger] ks[i]),
        b.undo.len() + ks.len() <= MAX_UNDO_SNAPSHOTS,
    ensures
        undo_n(apply_keys(b, ks), ks.len()).lines == b.lines,
        undo_n(apply_keys(b, ks), ks.len()).undo == b.undo,
    decreases ks.len(),
{
    if ks.len() > 0 {
        let b1 = spec_apply_key(b, ks[0]);
        assert(forall|i: int|
            0 <= i < ks.drop_first().len() ==> is_mutating(#[trigger] ks.drop_first()[i]));
        lemma_undo_returns(b1, ks.drop_first());
        let x = apply_keys(b, ks);
        assert(x == apply_keys(b1, ks.drop_first()));
        assert(b1.undo == b.undo.push(b.lines));
        let y = undo_n(x, (ks.len() - 1) as nat);
        assert(y.lines == b1.lines);
        assert(y.undo == b1.undo);
        assert(undo_n(x, ks.len() as nat) == spec_undo(y));
        assert(y.undo.len() > 0);
        assert(spec_undo(y).lines == b.lines);
        assert(spec_undo(y).undo =~~= b.undo);
    }
}

/// Undo/redo linearity, part one: for a sequence of mutating keys that
/// fits the bounded history, applied to an empty buffer, undoing once
/// per key returns the buffer to its single empty line, with no undo
/// history left.
pub proof fn lemma_undo_linearity(ks: Seq<KeyInput>)
    requires
        forall|i: int| 0 <= i < ks.len() ==> is_mutating(#[trigger] ks[i]),
        ks.len() <= MAX_UNDO_SNAPSHOTS,
    ensures
        undo_n(apply_keys(empty_buf(), ks), ks.len()).lines =~~= seq![Seq::<char>::empty()],
        undo_n(apply_keys(empty_buf(), ks), ks.len()).undo.len() == 0,
{
    lemma_undo_returns(empty_buf(), ks);
}

/// Undo/redo linearity, part two: a redo immediately after an undo
/// reproduces the pre-undo content and both histories exactly (the
/// cursor lands at the end of the content).
pub proof fn lemma_redo_after_undo(b: BufV)
    requires
        b.undo.len() > 0,
    ensures
        spec_redo(spec_undo(b)).lines == b.lines,
        spec_redo(spec_undo(b)).undo == b.undo,
        spec_redo(spec_undo(b)).redo == b.redo,
{
    let u = spec_undo(b);
    assert(u.redo == b.redo.push(b.lines));
    assert(u.redo.len() > 0);
    assert(spec_redo(u).lines == b.lines);
    assert(spec_redo(u).undo =~~= b.undo);
    assert(spec_redo(u).redo =~~= b.redo);
}

/// Undo/redo linearity, part three: any mutating key clears the redo
/// stack, so a redo right after it is a no-op.
pub proof fn lemma_mutate_clears_redo(b: BufV, k: KeyInput)
    requires
        is_mutating(k),
    ensures
        spec_apply_key(b, k).redo.len() == 0,
        spec_redo(spec_apply_key(b, k)) == spec_apply_key(b, k),
{
}

} // verus!
