//! The editing state machine: document lines, cursor, scroll offset and mode,
//! and the keystroke handlers that mutate them while keeping every index in
//! bounds.

use vstd::prelude::*;
use vstd::string::*;

use crate::document::Document;
use crate::position::Position;
use crate::text::{dec_rep, dec_str, insert_char, remove_char, strip_newlines, strip_nl};

verus! {

/// A keystroke, as the editor understands it. A terminal front end maps its
/// raw key events onto this type; anything the editor ignores maps to
/// `Other`.
#[derive(Clone, Copy, Debug, PartialEq, Eq, Structural)]
pub enum Key {
    Char(char),
    Backspace,
    Esc,
    Up,
    Down,
    Left,
    Right,
    Home,
    End,
    PageUp,
    PageDown,
    Other,
}

pub struct Editor {
    /// The session keeps running until a quit keystroke clears this.
    pub running: bool,
    /// Whether the options dispatch table is active instead of editing.
    pub options_mode: bool,
    /// How many leading document lines are scrolled out of the top of the
    /// viewport.
    pub scroll_position: usize,
    /// The status bar text shown on the last viewport row.
    pub status_bar: String,
    /// The cursor: `x` a character offset in the current line, `y` a viewport
    /// row.
    pub cursor: Position,
    /// The viewport height in rows; the last row holds the status bar.
    pub height: usize,
    /// The viewport width in columns.
    pub width: usize,
    /// The document being edited.
    pub open_document: Document,
}

impl Editor {
    /// The document lines as a mathematical sequence.
    pub open spec fn lines(&self) -> Seq<Seq<char>> {
        self.open_document.lines_view()
    }

    /// The absolute document line index the cursor addresses.
    pub open spec fn abs_row(&self) -> int {
        self.cursor.y + self.scroll_position
    }

    /// The line the cursor addresses.
    pub open spec fn current_line(&self) -> Seq<char> {
        self.lines()[self.abs_row()]
    }

    /// The positional invariants every keystroke preserves: the viewport has
    /// room for one text row and the status bar, the document has a line, the
    /// cursor stays on an editable row, addresses a document line, and sits
    /// no further than one past the end of that line.
    pub open spec fn wf(&self) -> bool {
        &&& self.height >= 2
        &&& self.open_document.wf()
        &&& self.cursor.y <= self.height - 2
        &&& self.abs_row() < self.lines().len()
        &&& self.cursor.x <= self.current_line().len()
    }
}

/// The fields no editing keystroke touches.
pub open spec fn same_session(pre: Editor, post: Editor) -> bool {
    &&& post.running == pre.running
    &&& post.options_mode == pre.options_mode
    &&& post.height == pre.height
    &&& post.width == pre.width
    &&& post.status_bar == pre.status_bar
    &&& post.open_document.path == pre.open_document.path
}

/// Character `c` was inserted at the cursor offset of the current line and
/// the cursor advanced one column.
pub open spec fn inserted(pre: Editor, post: Editor, c: char) -> bool {
    let i = pre.abs_row();
    let line = pre.lines()[i];
    let x = pre.cursor.x as int;
    &&& post.lines() == pre.lines().update(i, line.take(x) + seq![c] + line.skip(x))
    &&& post.cursor.x == pre.cursor.x + 1
    &&& post.cursor.y == pre.cursor.y
    &&& post.scroll_position == pre.scroll_position
    &&& same_session(pre, post)
}

/// Lines `l` with line `i` split at offset `x`: the head keeps index `i`,
/// the tail becomes a new line right after it.
pub open spec fn line_split_at(l: Seq<Seq<char>>, i: int, x: int) -> Seq<Seq<char>> {
    l.update(i, l[i].take(x)).insert(i + 1, l[i].skip(x))
}

/// Lines `l` with line `i` merged onto the end of line `i - 1`.
pub open spec fn line_merged_at(l: Seq<Seq<char>>, i: int) -> Seq<Seq<char>> {
    l.update(i - 1, l[i - 1] + l[i]).remove(i)
}

/// A newline keystroke split the current line at the cursor: the cursor
/// moved to the start of the tail line, by a row step when a row was free
/// and by a scroll step when the cursor sat on the last editable row.
pub open spec fn split_line(pre: Editor, post: Editor) -> bool {
    let i = pre.abs_row();
    &&& post.lines() == line_split_at(pre.lines(), i, pre.cursor.x as int)
    &&& post.cursor.x == 0
    &&& if pre.cursor.y + 1 > pre.height - 2 {
        post.scroll_position == pre.scroll_position + 1 && post.cursor.y == pre.cursor.y
    } else {
        post.cursor.y == pre.cursor.y + 1 && post.scroll_position == pre.scroll_position
    }
    &&& same_session(pre, post)
}

/// A backspace keystroke: mid-line it removes the character before the
/// cursor; at the start of a line it merges the line onto the previous one,
/// leaving the cursor where the previous line used to end; at the very start
/// of the document it does nothing.
pub open spec fn backspaced(pre: Editor, post: Editor) -> bool {
    let i = pre.abs_row();
    let x = pre.cursor.x as int;
    if pre.cursor.x > 0 {
        let line = pre.lines()[i];
        &&& post.lines() == pre.lines().update(i, line.take(x - 1) + line.skip(x))
        &&& post.cursor.x == pre.cursor.x - 1
        &&& post.cursor.y == pre.cursor.y
        &&& post.scroll_position == pre.scroll_position
        &&& same_session(pre, post)
    } else if i > 0 {
        &&& post.lines() == line_merged_at(pre.lines(), i)
        &&& post.cursor.x == pre.lines()[i - 1].len()
        &&& if pre.cursor.y == 0 {
            post.cursor.y == 0 && post.scroll_position == pre.scroll_position - 1
        } else {
            post.cursor.y == pre.cursor.y - 1 && post.scroll_position == pre.scroll_position
        }
        &&& same_session(pre, post)
    } else {
        post == pre
    }
}

/// `x` clamped down to `len`.
pub open spec fn clamp_to(x: int, len: int) -> int {
    if x <= len {
        x
    } else {
        len
    }
}

/// Only the cursor column changed, to `x2`.
pub open spec fn only_column_changed(pre: Editor, post: Editor, x2: int) -> bool {
    &&& post.cursor.x == x2
    &&& post.cursor.y == pre.cursor.y
    &&& post.scroll_position == pre.scroll_position
    &&& post.lines() == pre.lines()
    &&& same_session(pre, post)
}

/// The cursor-movement relation: vertical movement steps a row, or scrolls
/// at a viewport edge, and clamps the column to the target line's length;
/// horizontal movement never leaves the line. Keys with no movement meaning
/// leave the editor unchanged.
pub open spec fn arrow_moved(pre: Editor, post: Editor, key: Key) -> bool {
    match key {
        Key::Up => {
            let y2: int = if pre.cursor.y > 0 {
                pre.cursor.y - 1
            } else {
                0
            };
            let s2: int = if pre.cursor.y == 0 && pre.scroll_position > 0 {
                pre.scroll_position - 1
            } else {
                pre.scroll_position as int
            };
            &&& post.cursor.y == y2
            &&& post.scroll_position == s2
            &&& post.cursor.x == clamp_to(pre.cursor.x as int, pre.lines()[y2 + s2].len() as int)
            &&& post.lines() == pre.lines()
            &&& same_session(pre, post)
        },
        Key::Down => {
            if pre.abs_row() + 1 == pre.lines().len() {
                post == pre
            } else {
                let y2: int = if pre.cursor.y < pre.height - 2 {
                    pre.cursor.y + 1
                } else {
                    pre.cursor.y as int
                };
                let s2: int = if pre.cursor.y < pre.height - 2 {
                    pre.scroll_position as int
                } else {
                    pre.scroll_position + 1
                };
                &&& post.cursor.y == y2
                &&& post.scroll_position == s2
                &&& post.cursor.x == clamp_to(
                    pre.cursor.x as int,
                    pre.lines()[y2 + s2].len() as int,
                )
                &&& post.lines() == pre.lines()
                &&& same_session(pre, post)
            }
        },
        Key::Left => only_column_changed(
            pre,
            post,
            if pre.cursor.x > 0 {
                pre.cursor.x - 1
            } else {
                0
            },
        ),
        Key::Right => only_column_changed(
            pre,
            post,
            if pre.cursor.x < pre.current_line().len() {
                pre.cursor.x + 1
            } else {
                pre.cursor.x as int
            },
        ),
        Key::Home => only_column_changed(pre, post, 0),
        Key::End => only_column_changed(pre, post, pre.current_line().len() as int),
        _ => post == pre,
    }
}

/// Only the mode flag changed, to `mode`.
pub open spec fn mode_set(pre: Editor, post: Editor, mode: bool) -> bool {
    &&& post.options_mode == mode
    &&& post.running == pre.running
    &&& post.cursor == pre.cursor
    &&& post.scroll_position == pre.scroll_position
    &&& post.lines() == pre.lines()
    &&& post.open_document.path == pre.open_document.path
    &&& post.height == pre.height
    &&& post.width == pre.width
    &&& post.status_bar == pre.status_bar
}

impl Editor {
    /// A fresh editing session over `document` in a viewport of the given
    /// size: cursor at the top left, nothing scrolled, editing mode, running.
    pub fn new(document: Document, width: usize, height: usize) -> (e: Editor)
        requires
            document.wf(),
            height >= 2,
        ensures
            e.wf(),
            e.running == true,
            e.options_mode == false,
            e.scroll_position == 0,
            e.cursor.x == 0,
            e.cursor.y == 0,
            e.height == height,
            e.width == width,
            e.open_document == document,
            e.status_bar@ == "ESC to quit."@,
    {
        Editor {
            running: true,
            options_mode: false,
            scroll_position: 0,
            status_bar: String::from_str("ESC to quit."),
            cursor: Position { x: 0, y: 0 },
            height,
            width,
            open_document: document,
        }
    }

    /// The absolute document line index the cursor addresses; every line
    /// access goes through this one computation.
    pub fn current_row(&self) -> (r: usize)
        requires
            self.wf(),
        ensures
            r == self.abs_row(),
    {
        self.cursor.y + self.scroll_position
    }

    /// The character length of the document line at `idx`.
    fn line_len_at(&self, idx: usize) -> (n: usize)
        requires
            idx < self.lines().len(),
        ensures
            n == self.lines()[idx as int].len(),
    {
        self.open_document.lines[idx].as_str().unicode_len()
    }

    /// Insert `c` at the cursor and advance the cursor one column.
    pub fn insert_at_cursor(&mut self, c: char)
        requires
            old(self).wf(),
        ensures
            final(self).wf(),
            inserted(*old(self), *final(self), c),
    {
        let i = self.current_row();
        let new_line = insert_char(self.open_document.lines[i].as_str(), self.cursor.x, c);
        // The new length, held in a usize, bounds the advanced cursor column.
        let new_len = new_line.as_str().unicode_len();
        self.open_document.lines.set(i, new_line);
        proof {
            assert(self.lines() =~= old(self).lines().update(
                i as int,
                old(self).current_line().take(old(self).cursor.x as int) + seq![c]
                    + old(self).current_line().skip(old(self).cursor.x as int),
            ));
        }
        self.cursor.x = self.cursor.x + 1;
    }

    /// Split the current line at the cursor: the head keeps its index, the
    /// tail becomes the next line, and the cursor moves to the tail's start,
    /// scrolling instead of stepping when it sits on the last editable row.
    pub fn newline_at_cursor(&mut self)
        requires
            old(self).wf(),
        ensures
            final(self).wf(),
            split_line(*old(self), *final(self)),
    {
        let i = self.current_row();
        let x = self.cursor.x;
        let n = self.open_document.lines[i].as_str().unicode_len();
        let head = String::from_str(self.open_document.lines[i].as_str().substring_char(0, x));
        let tail = String::from_str(self.open_document.lines[i].as_str().substring_char(x, n));
        self.open_document.lines.set(i, head);
        self.open_document.lines.insert(i + 1, tail);
        proof {
            assert(self.lines() =~= line_split_at(
                old(self).lines(),
                i as int,
                old(self).cursor.x as int,
            ));
        }
        if self.cursor.y + 1 > self.height - 2 {
            self.scroll_position = self.scroll_position + 1;
        } else {
            self.cursor.y = self.cursor.y + 1;
        }
        self.cursor.x = 0;
    }

    /// Backspace at the cursor: remove the character before it, or at the
    /// start of a line merge the line onto the previous one; a no-op at the
    /// very start of the document.
    pub fn backspace_at_cursor(&mut self)
        requires
            old(self).wf(),
        ensures
            final(self).wf(),
            backspaced(*old(self), *final(self)),
    {
        let i = self.current_row();
        let x = self.cursor.x;
        if x > 0 {
            let new_line = remove_char(self.open_document.lines[i].as_str(), x - 1);
            self.open_document.lines.set(i, new_line);
            proof {
                assert(self.lines() =~= old(self).lines().update(
                    i as int,
                    old(self).current_line().take(old(self).cursor.x - 1)
                        + old(self).current_line().skip(old(self).cursor.x as int),
                ));
            }
            self.cursor.x = x - 1;
        } else if i > 0 {
            let prev_len = self.open_document.lines[i - 1].as_str().unicode_len();
            let mut merged = String::from_str(self.open_document.lines[i - 1].as_str());
            merged.append(self.open_document.lines[i].as_str());
            self.open_document.lines.set(i - 1, merged);
            self.open_document.lines.remove(i);
            proof {
                assert(self.lines() =~= line_merged_at(old(self).lines(), i as int));
            }
            if self.cursor.y == 0 {
                self.scroll_position = self.scroll_position - 1;
            } else {
                self.cursor.y = self.cursor.y - 1;
            }
            self.cursor.x = prev_len;
        }
    }

    /// Move the cursor for a navigation key, per `arrow_moved`.
    pub fn arrow_move(&mut self, key: Key)
        requires
            old(self).wf(),
        ensures
            final(self).wf(),
            arrow_moved(*old(self), *final(self), key),
    {
        let mut position = self.cursor;
        match key {
            Key::Up => {
                if position.y > 0 {
                    position.y = position.y - 1;
                } else if self.scroll_position > 0 {
                    self.scroll_position = self.scroll_position - 1;
                }
                let len = self.line_len_at(position.y + self.scroll_position);
                if position.x > len {
                    position.x = len;
                }
            },
            Key::Down => {
                let at_end = self.current_row() + 1 == self.open_document.lines.len();
                if !at_end {
                    if position.y < self.height - 2 {
                        position.y = position.y + 1;
                    } else {
                        self.scroll_position = self.scroll_position + 1;
                    }
                    let len = self.line_len_at(position.y + self.scroll_position);
                    if position.x > len {
                        position.x = len;
                    }
                }
            },
            Key::Left => {
                if position.x > 0 {
                    position.x = position.x - 1;
                }
            },
            Key::Right => {
                let len = self.line_len_at(self.current_row());
                if position.x < len {
                    position.x = position.x + 1;
                }
            },
            Key::Home => {
                position.x = 0;
            },
            Key::End => {
                position.x = self.line_len_at(self.current_row());
            },
            _ => {},
        }
        self.cursor = position;
    }

    /// Dispatch one keystroke in editing mode: printable characters insert,
    /// newline splits, backspace deletes or merges, navigation keys move the
    /// cursor, escape enters options mode, and anything else is ignored.
    pub fn process_input(&mut self, key: Key)
        requires
            old(self).wf(),
        ensures
            final(self).wf(),
            match key {
                Key::Char(c) => if c == '\n' {
                    split_line(*old(self), *final(self))
                } else {
                    inserted(*old(self), *final(self), c)
                },
                Key::Backspace => backspaced(*old(self), *final(self)),
                Key::Esc => mode_set(*old(self), *final(self), true),
                Key::Other => *final(self) == *old(self),
                _ => arrow_moved(*old(self), *final(self), key),
            },
    {
        match key {
            Key::Char(c) => {
                if c == '\n' {
                    self.newline_at_cursor();
                } else {
                    self.insert_at_cursor(c);
                }
            },
            Key::Backspace => self.backspace_at_cursor(),
            Key::Esc => self.options_mode = true,
            Key::Other => {},
            _ => self.arrow_move(key),
        }
    }

    /// Dispatch one keystroke in options mode: `q` quits without saving, `s`
    /// requests a save and returns to editing, `a` requests a save and
    /// quits, escape returns to editing, and anything else is ignored. The
    /// result says whether the document is to be saved now; the document,
    /// cursor and scroll are never touched.
    pub fn process_options(&mut self, key: Key) -> (save: bool)
        requires
            old(self).wf(),
        ensures
            final(self).wf(),
            final(self).cursor == old(self).cursor,
            final(self).scroll_position == old(self).scroll_position,
            final(self).lines() == old(self).lines(),
            final(self).open_document.path == old(self).open_document.path,
            final(self).height == old(self).height,
            final(self).width == old(self).width,
            final(self).status_bar == old(self).status_bar,
            match key {
                Key::Char(c) => if c == 'q' {
                    !save && !final(self).running && final(self).options_mode == old(
                        self,
                    ).options_mode
                } else if c == 's' {
                    save && !final(self).options_mode && final(self).running == old(self).running
                } else if c == 'a' {
                    save && !final(self).options_mode && !final(self).running
                } else {
                    *final(self) == *old(self) && !save
                },
                Key::Esc => !save && !final(self).options_mode && final(self).running == old(
                    self,
                ).running,
                _ => *final(self) == *old(self) && !save,
            },
    {
        match key {
            Key::Char(c) => {
                if c == 'q' {
                    self.running = false;
                    false
                } else if c == 's' {
                    self.options_mode = false;
                    true
                } else if c == 'a' {
                    self.options_mode = false;
                    self.running = false;
                    true
                } else {
                    false
                }
            },
            Key::Esc => {
                self.options_mode = false;
                false
            },
            _ => false,
        }
    }
}

/// Splitting line `i` at offset `x` and merging at the split point are
/// inverse: the merge restores the lines unchanged, and the head line's
/// length — where the merge puts the cursor — is exactly `x`.
pub proof fn lemma_split_merge_inverse(l: Seq<Seq<char>>, i: int, x: int)
    requires
        0 <= i < l.len(),
        0 <= x <= l[i].len(),
    ensures
        line_merged_at(line_split_at(l, i, x), i + 1) == l,
        line_split_at(l, i, x)[i].len() == x,
{
    let sp = line_split_at(l, i, x);
    assert(sp[i] + sp[i + 1] =~= l[i]);
    assert(line_merged_at(sp, i + 1) =~= l);
}

/// Pressing newline at offset `x` of a line and then backspace at the start
/// of the resulting new line restores the document lines, the cursor offset
/// `x`, and the absolute cursor row.
pub proof fn lemma_newline_backspace_inverse(pre: Editor, mid: Editor, post: Editor)
    requires
        pre.wf(),
        split_line(pre, mid),
        backspaced(mid, post),
    ensures
        post.lines() == pre.lines(),
        post.cursor.x == pre.cursor.x,
        post.abs_row() == pre.abs_row(),
{
    let i = pre.abs_row();
    let x = pre.cursor.x as int;
    lemma_split_merge_inverse(pre.lines(), i, x);
    assert(mid.abs_row() == i + 1);
    assert(mid.cursor.x == 0);
    assert(mid.lines()[i].len() == x);
}

/// Vertical cursor movement always clamps: afterwards the column is within
/// the line the cursor addresses, it never grew, and the document is
/// untouched.
pub proof fn lemma_vertical_clamp(pre: Editor, post: Editor, key: Key)
    requires
        pre.wf(),
        key == Key::Up || key == Key::Down,
        arrow_moved(pre, post, key),
    ensures
        post.cursor.x <= post.lines()[post.abs_row()].len(),
        post.cursor.x <= pre.cursor.x,
        post.lines() == pre.lines(),
{
}

/// The status bar text: in editing mode the 1-based absolute cursor row over
/// the line count, in options mode a fixed help line.
pub open spec fn status_spec(e: Editor) -> Seq<char> {
    if e.options_mode {
        "[Options] ESC: Back to Editor / a: Save and Exit / s: Save / q: Quit "@
    } else {
        "("@ + dec_rep(e.abs_row() + 1) + "/"@ + dec_rep(e.lines().len() as int)
            + ") ESC for Options "@
    }
}

/// `k` space characters.
pub open spec fn spaces(k: int) -> Seq<char>
    decreases k,
{
    if k <= 0 {
        Seq::empty()
    } else {
        spaces(k - 1).push(' ')
    }
}

/// `msg` padded on the left with half the leftover width, when the width
/// leaves room.
pub open spec fn centered(msg: Seq<char>, width: int) -> Seq<char> {
    if msg.len() < width {
        spaces((width - msg.len()) / 2) + msg
    } else {
        msg
    }
}

/// The welcome banner shown over a brand-new empty document.
pub open spec fn welcome_line(width: int) -> Seq<char> {
    centered("BIM (Bad vIM)"@, width)
}

/// Whether the document is exactly one empty line: a brand-new or empty
/// file.
pub open spec fn is_blank_document(e: Editor) -> bool {
    e.lines().len() <= 1 && e.lines()[0].len() == 0
}

/// The text of viewport row `r`: the document line there with control
/// newlines stripped; past the end of the document a filler tilde, or the
/// centered welcome banner on the vertical-center row of a blank document.
pub open spec fn row_view(e: Editor, r: int) -> Seq<char> {
    if r + e.scroll_position < e.lines().len() {
        strip_nl(e.lines()[r + e.scroll_position])
    } else if is_blank_document(e) && r == e.height / 2 - 2 {
        welcome_line(e.width as int)
    } else {
        "~"@
    }
}

impl Editor {
    /// The status bar text for the current mode, per `status_spec`.
    pub fn status_text(&self) -> (r: String)
        requires
            self.wf(),
        ensures
            r@ == status_spec(*self),
    {
        if self.options_mode {
            String::from_str("[Options] ESC: Back to Editor / a: Save and Exit / s: Save / q: Quit ")
        } else {
            let mut r = String::from_str("(");
            let row = dec_str(self.current_row() + 1);
            r.append(row.as_str());
            r.append("/");
            let total = dec_str(self.open_document.lines.len());
            r.append(total.as_str());
            r.append(") ESC for Options ");
            proof {
                assert(r@ =~= status_spec(*self));
            }
            r
        }
    }

    /// Recompute the status bar text from the current mode and cursor.
    pub fn update_status_bar(&mut self)
        requires
            old(self).wf(),
        ensures
            final(self).wf(),
            final(self).status_bar@ == status_spec(*old(self)),
            final(self).running == old(self).running,
            final(self).options_mode == old(self).options_mode,
            final(self).cursor == old(self).cursor,
            final(self).scroll_position == old(self).scroll_position,
            final(self).lines() == old(self).lines(),
            final(self).open_document.path == old(self).open_document.path,
            final(self).height == old(self).height,
            final(self).width == old(self).width,
    {
        let s = self.status_text();
        self.status_bar = s;
    }

    /// The welcome banner row, centered in the viewport width.
    fn welcome_row(&self) -> (row: String)
        ensures
            row@ == welcome_line(self.width as int),
    {
        let msg = "BIM (Bad vIM)";
        let msg_len = msg.unicode_len();
        let mut row = String::new();
        if msg_len < self.width {
            let pad = (self.width - msg_len) / 2;
            let mut k: usize = 0;
            while k < pad
                invariant
                    k <= pad,
                    row@ == spaces(k as int),
                decreases pad - k,
            {
                row.push(' ');
                k = k + 1;
            }
        }
        row.append(msg);
        proof {
            assert(row@ =~= welcome_line(self.width as int));
        }
        row
    }

    /// The text of every viewport row above the status bar, top to bottom,
    /// per `row_view`.
    pub fn render_rows(&self) -> (rows: Vec<String>)
        requires
            self.wf(),
        ensures
            rows.len() == self.height - 1,
            forall|r: int| 0 <= r < rows.len() ==> rows.deep_view()[r] == row_view(*self, r),
    {
        let rows_total = self.height - 1;
        let len = self.open_document.lines.len();
        let blank = len <= 1 && self.open_document.lines[0].as_str().is_empty();
        let mut rows: Vec<String> = Vec::new();
        let mut r: usize = 0;
        while r < rows_total
            invariant
                self.wf(),
                r == rows.len(),
                r <= rows_total,
                rows_total == self.height - 1,
                len == self.lines().len(),
                blank == is_blank_document(*self),
                forall|k: int| 0 <= k < r ==> rows.deep_view()[k] == row_view(*self, k),
            decreases rows_total - r,
        {
            let ghost prev = rows.deep_view();
            if r < len - self.scroll_position {
                let row = strip_newlines(
                    self.open_document.lines[r + self.scroll_position].as_str(),
                );
                rows.push(row);
            } else if blank && r + 2 == self.height / 2 {
                let row = self.welcome_row();
                rows.push(row);
            } else {
                rows.push(String::from_str("~"));
            }
            proof {
                assert(rows.deep_view() =~= prev.push(rows.deep_view().last()));
                assert(rows.deep_view()[r as int] == row_view(*self, r as int));
            }
            r = r + 1;
        }
        rows
    }
}

} // verus!
