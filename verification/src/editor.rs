//! The built-in text editor: a list of lines and a cursor given as a line
//! and a character position in it.

use vstd::prelude::*;
use crate::line_edit::{inserted, removed, insert_char, remove_chars, clip};
use crate::text::{to_chars, string_from_chars, append_str, char_count, push_char, copy_string};

verus! {

/// The lines as character sequences.
pub open spec fn text_of(lines: Seq<String>) -> Seq<Seq<char>> {
    lines.map_values(|s: String| s@)
}

/// Editor contents and cursor, as plain values: the lines, then the cursor
/// line and character position.
pub type EditView = (Seq<Seq<char>>, int, int);

/// A well-formed editor position: at least one line, the cursor on an
/// existing line, not past its last character.
pub open spec fn ed_wf(v: EditView) -> bool {
    &&& v.0.len() >= 1
    &&& 0 <= v.1 < v.0.len()
    &&& 0 <= v.2 <= v.0[v.1].len()
}

/// Typing `c`: it goes in before the cursor, which moves past it.
pub open spec fn ed_insert_of(v: EditView, c: char) -> EditView {
    (v.0.update(v.1, inserted(v.0[v.1], v.2, c)), v.1, v.2 + 1)
}

/// Backspace: removes the character before the cursor; at the start of a
/// line joins it to the end of the previous one.
pub open spec fn ed_backspace_of(v: EditView) -> EditView {
    let (t, r, c) = v;
    if c > 0 {
        (t.update(r, removed(t[r], c - 1, c)), r, c - 1)
    } else if r > 0 {
        (t.take(r - 1) + seq![t[r - 1] + t[r]] + t.skip(r + 1), r - 1, t[r - 1].len() as int)
    } else {
        v
    }
}

/// Delete: removes the character under the cursor; at the end of a line
/// joins the next line to it.
pub open spec fn ed_delete_of(v: EditView) -> EditView {
    let (t, r, c) = v;
    if c < t[r].len() {
        (t.update(r, removed(t[r], c, c + 1)), r, c)
    } else if r + 1 < t.len() {
        (t.take(r) + seq![t[r] + t[r + 1]] + t.skip(r + 2), r, c)
    } else {
        v
    }
}

/// Enter: splits the line at the cursor; the cursor goes to the start of the
/// new second half.
pub open spec fn ed_enter_of(v: EditView) -> EditView {
    let (t, r, c) = v;
    (t.take(r) + seq![t[r].take(c), t[r].skip(c)] + t.skip(r + 1), r + 1, 0)
}

/// The column kept when moving onto line `r`: the old one, or the end of
/// the line when that is shorter.
pub open spec fn col_on(t: Seq<Seq<char>>, r: int, c: int) -> int {
    if c > t[r].len() { t[r].len() as int } else { c }
}

pub open spec fn ed_up_of(v: EditView) -> EditView {
    let (t, r, c) = v;
    if r > 0 { (t, r - 1, col_on(t, r - 1, c)) } else { v }
}

pub open spec fn ed_down_of(v: EditView) -> EditView {
    let (t, r, c) = v;
    if r + 1 < t.len() { (t, r + 1, col_on(t, r + 1, c)) } else { v }
}

pub open spec fn ed_left_of(v: EditView) -> EditView {
    let (t, r, c) = v;
    if c > 0 {
        (t, r, c - 1)
    } else if r > 0 {
        (t, r - 1, t[r - 1].len() as int)
    } else {
        v
    }
}

pub open spec fn ed_right_of(v: EditView) -> EditView {
    let (t, r, c) = v;
    if c < t[r].len() {
        (t, r, c + 1)
    } else if r + 1 < t.len() {
        (t, r + 1, 0)
    } else {
        v
    }
}

pub open spec fn ed_page_up_of(v: EditView, visible: int) -> EditView {
    let (t, r, c) = v;
    let nr = if r >= visible { r - visible } else { 0 };
    (t, nr, col_on(t, nr, c))
}

pub open spec fn ed_page_down_of(v: EditView, visible: int) -> EditView {
    let (t, r, c) = v;
    let nr = vstd::math::min(r + visible, t.len() - 1);
    (t, nr, col_on(t, nr, c))
}

/// What `unicode_width::UnicodeWidthStr::width` gives for a string: its width
/// in terminal columns, which depends on the characters alone.
pub uninterp spec fn display_width(s: Seq<char>) -> usize;

/// Calls `UnicodeWidthStr::width`; besides naming the result the contract
/// states that the empty string takes no columns.
#[verifier::external_body]
fn str_display_width(s: &str) -> (w: usize)
    ensures
        w == display_width(s@),
        s@.len() == 0 ==> w == 0,
{
    unicode_width::UnicodeWidthStr::width(s)
}

/// The first line to show so that line `row` is inside a window of
/// `visible` lines that started at `top`.
pub open spec fn follow_of(top: int, row: int, visible: int) -> int {
    let t = if row < top { row } else { top };
    if visible > 0 && row >= t + visible { row - visible + 1 } else { t }
}

/// State of the editor.
pub struct EditorState {
    pub filepath: String,
    pub filename: String,
    pub lines: Vec<String>,
    pub cursor_row: usize,
    pub cursor_col: usize,
    pub scroll_row: usize,
    pub scroll_col: usize,
    pub modified: bool,
    pub message: Option<String>,
}

impl EditorState {
    /// Contents and cursor.
    pub open spec fn view_of(&self) -> EditView {
        (text_of(self.lines@), self.cursor_row as int, self.cursor_col as int)
    }

    pub open spec fn wf(&self) -> bool {
        ed_wf(self.view_of())
    }

    /// Everything but the text, the cursor and the modified flag is as in
    /// `old`.
    pub open spec fn keeps_rest(&self, old: &EditorState) -> bool {
        &&& self.filepath == old.filepath
        &&& self.filename == old.filename
        &&& self.scroll_row == old.scroll_row
        &&& self.scroll_col == old.scroll_col
        &&& self.message == old.message
    }

    /// A new editor on `lines`, cursor and scroll at the top, unmodified.
    pub fn new(filepath: String, filename: String, lines: Vec<String>) -> (e: EditorState)
        ensures
            e.filepath == filepath,
            e.filename == filename,
            e.lines == lines,
            e.cursor_row == 0 && e.cursor_col == 0,
            e.scroll_row == 0 && e.scroll_col == 0,
            !e.modified,
            e.message is None,
    {
        EditorState {
            filepath,
            filename,
            lines,
            cursor_row: 0,
            cursor_col: 0,
            scroll_row: 0,
            scroll_col: 0,
            modified: false,
            message: None,
        }
    }

    fn line_len(&self, row: usize) -> (n: usize)
        requires
            row < self.lines@.len(),
        ensures
            n == text_of(self.lines@)[row as int].len(),
    {
        char_count(self.lines[row].as_str())
    }

    fn replace_line(&mut self, row: usize, s: String)
        requires
            row < old(self).lines@.len(),
        ensures
            text_of(final(self).lines@) == text_of(old(self).lines@).update(row as int, s@),
            final(self).lines@.len() == old(self).lines@.len(),
            final(self).cursor_row == old(self).cursor_row,
            final(self).cursor_col == old(self).cursor_col,
            final(self).modified == old(self).modified,
            final(self).keeps_rest(old(self)),
    {
        self.lines.set(row, s);
        proof {
            assert(text_of(self.lines@) =~= text_of(old(self).lines@).update(row as int, s@));
        }
    }

    /// Typing a character.
    pub fn insert_char(&mut self, c: char)
        requires
            old(self).wf(),
        ensures
            final(self).view_of() == ed_insert_of(old(self).view_of(), c),
            final(self).modified,
            final(self).keeps_rest(old(self)),
    {
        let row = self.cursor_row;
        let line = insert_char(&self.lines[row], self.cursor_col, c);
        let _n = char_count(line.as_str());
        self.replace_line(row, line);
        self.cursor_col = self.cursor_col + 1;
        self.modified = true;
    }

    /// Backspace.
    pub fn backspace(&mut self)
        requires
            old(self).wf(),
        ensures
            final(self).view_of() == ed_backspace_of(old(self).view_of()),
            final(self).modified == (old(self).modified || old(self).cursor_col > 0
                || old(self).cursor_row > 0),
            final(self).keeps_rest(old(self)),
    {
        let ghost t = text_of(self.lines@);
        let row = self.cursor_row;
        let col = self.cursor_col;
        if col > 0 {
            let line = remove_chars(&self.lines[row], col - 1, col);
            self.replace_line(row, line);
            self.cursor_col = col - 1;
            self.modified = true;
        } else if row > 0 {
            let current_line = self.lines.remove(row);
            self.cursor_row = row - 1;
            let prev_len = self.line_len(row - 1);
            let mut joined = copy_string(&self.lines[row - 1]);
            append_str(&mut joined, current_line.as_str());
            proof {
                assert(text_of(self.lines@) =~= t.remove(row as int));
            }
            self.replace_line(row - 1, joined);
            self.cursor_col = prev_len;
            self.modified = true;
            proof {
                assert(text_of(self.lines@) =~= t.take(row - 1) + seq![t[row - 1] + t[row as int]]
                    + t.skip(row + 1));
            }
        }
    }

    /// Delete.
    pub fn delete(&mut self)
        requires
            old(self).wf(),
        ensures
            final(self).view_of() == ed_delete_of(old(self).view_of()),
            final(self).modified == (old(self).modified || old(self).cursor_col < text_of(
                old(self).lines@,
            )[old(self).cursor_row as int].len() || old(self).cursor_row + 1 < old(
                self,
            ).lines@.len()),
            final(self).keeps_rest(old(self)),
    {
        let ghost t = text_of(self.lines@);
        let row = self.cursor_row;
        let col = self.cursor_col;
        let line_len = self.line_len(row);
        let n = self.lines.len();
        if col < line_len {
            let line = remove_chars(&self.lines[row], col, col + 1);
            self.replace_line(row, line);
            self.modified = true;
        } else if row + 1 < n {
            let next_line = self.lines.remove(row + 1);
            let mut joined = copy_string(&self.lines[row]);
            append_str(&mut joined, next_line.as_str());
            proof {
                assert(text_of(self.lines@) =~= t.remove(row + 1));
            }
            self.replace_line(row, joined);
            self.modified = true;
            proof {
                assert(text_of(self.lines@) =~= t.take(row as int) + seq![t[row as int] + t[row + 1]]
                    + t.skip(row + 2));
            }
        }
    }

    /// Enter: splits the line at the cursor.
    pub fn enter(&mut self)
        requires
            old(self).wf(),
        ensures
            final(self).view_of() == ed_enter_of(old(self).view_of()),
            final(self).modified,
            final(self).keeps_rest(old(self)),
    {
        let ghost t = text_of(self.lines@);
        let row = self.cursor_row;
        let col = self.cursor_col;
        let n = self.lines.len();
        let chars = to_chars(self.lines[row].as_str());
        assert(chars@ == t[row as int]);
        let head = string_from_chars(&chars, 0, col);
        let rest = string_from_chars(&chars, col, chars.len());
        self.replace_line(row, head);
        let ghost mid = self.lines@;
        self.lines.insert(row + 1, rest);
        proof {
            assert(text_of(self.lines@) =~= text_of(mid).insert(row + 1, rest@));
        }
        self.cursor_row = row + 1;
        self.cursor_col = 0;
        self.modified = true;
        proof {
            assert(chars@.subrange(0, col as int) =~= t[row as int].take(col as int));
            assert(chars@.subrange(col as int, chars@.len() as int) =~= t[row as int].skip(
                col as int,
            ));
            assert(text_of(self.lines@) =~= t.take(row as int) + seq![
                t[row as int].take(col as int),
                t[row as int].skip(col as int),
            ] + t.skip(row + 1));
        }
    }

    fn clamp_col(&mut self)
        requires
            old(self).cursor_row < old(self).lines@.len(),
        ensures
            final(self).cursor_col == col_on(
                text_of(old(self).lines@),
                old(self).cursor_row as int,
                old(self).cursor_col as int,
            ),
            final(self).lines == old(self).lines,
            final(self).cursor_row == old(self).cursor_row,
            final(self).modified == old(self).modified,
            final(self).keeps_rest(old(self)),
    {
        let line_len = self.line_len(self.cursor_row);
        if self.cursor_col > line_len {
            self.cursor_col = line_len;
        }
    }

    /// Up arrow.
    pub fn move_up(&mut self)
        requires
            old(self).wf(),
        ensures
            final(self).view_of() == ed_up_of(old(self).view_of()),
            final(self).modified == old(self).modified,
            final(self).keeps_rest(old(self)),
    {
        if self.cursor_row > 0 {
            self.cursor_row = self.cursor_row - 1;
            self.clamp_col();
        }
    }

    /// Down arrow.
    pub fn move_down(&mut self)
        requires
            old(self).wf(),
        ensures
            final(self).view_of() == ed_down_of(old(self).view_of()),
            final(self).modified == old(self).modified,
            final(self).keeps_rest(old(self)),
    {
        let n = self.lines.len();
        if self.cursor_row + 1 < n {
            self.cursor_row = self.cursor_row + 1;
            self.clamp_col();
        }
    }

    /// Left arrow: at the start of a line, to the end of the previous one.
    pub fn move_left(&mut self)
        requires
            old(self).wf(),
        ensures
            final(self).view_of() == ed_left_of(old(self).view_of()),
            final(self).modified == old(self).modified,
            final(self).keeps_rest(old(self)),
    {
        if self.cursor_col > 0 {
            self.cursor_col = self.cursor_col - 1;
        } else if self.cursor_row > 0 {
            self.cursor_row = self.cursor_row - 1;
            self.cursor_col = self.line_len(self.cursor_row);
        }
    }

    /// Right arrow: at the end of a line, to the start of the next one.
    pub fn move_right(&mut self)
        requires
            old(self).wf(),
        ensures
            final(self).view_of() == ed_right_of(old(self).view_of()),
            final(self).modified == old(self).modified,
            final(self).keeps_rest(old(self)),
    {
        let line_len = self.line_len(self.cursor_row);
        let n = self.lines.len();
        if self.cursor_col < line_len {
            self.cursor_col = self.cursor_col + 1;
        } else if self.cursor_row + 1 < n {
            self.cursor_row = self.cursor_row + 1;
            self.cursor_col = 0;
        }
    }

    /// Home: start of the line.
    pub fn move_home(&mut self)
        ensures
            final(self).view_of() == (text_of(old(self).lines@), old(self).cursor_row as int, 0int),
            final(self).modified == old(self).modified,
            final(self).keeps_rest(old(self)),
    {
        self.cursor_col = 0;
    }

    /// End: end of the line.
    pub fn move_end(&mut self)
        requires
            old(self).wf(),
        ensures
            final(self).view_of() == (
                text_of(old(self).lines@),
                old(self).cursor_row as int,
                text_of(old(self).lines@)[old(self).cursor_row as int].len() as int,
            ),
            final(self).modified == old(self).modified,
            final(self).keeps_rest(old(self)),
    {
        self.cursor_col = self.line_len(self.cursor_row);
    }

    /// Page Up: `visible` lines up, not above the first.
    pub fn page_up(&mut self, visible: usize)
        requires
            old(self).wf(),
        ensures
            final(self).view_of() == ed_page_up_of(old(self).view_of(), visible as int),
            final(self).modified == old(self).modified,
            final(self).keeps_rest(old(self)),
    {
        self.cursor_row = self.cursor_row.saturating_sub(visible);
        self.clamp_col();
    }

    /// Page Down: `visible` lines down, not below the last.
    pub fn page_down(&mut self, visible: usize)
        requires
            old(self).wf(),
        ensures
            final(self).view_of() == ed_page_down_of(old(self).view_of(), visible as int),
            final(self).modified == old(self).modified,
            final(self).keeps_rest(old(self)),
    {
        let last = self.lines.len() - 1;
        if visible >= last - self.cursor_row {
            self.cursor_row = last;
        } else {
            self.cursor_row = self.cursor_row + visible;
        }
        self.clamp_col();
    }

    /// Moves the scroll position so that the cursor is inside a window of
    /// `visible_rows` lines and `visible_cols` columns; the cursor column is
    /// measured as the display width of the text before the cursor.
    pub fn adjust_scroll(&mut self, visible_rows: usize, visible_cols: usize)
        ensures
            final(self).scroll_row == follow_of(
                old(self).scroll_row as int,
                old(self).cursor_row as int,
                visible_rows as int,
            ),
            final(self).scroll_col == follow_of(
                old(self).scroll_col as int,
                (if old(self).cursor_row < old(self).lines@.len() {
                    display_width(
                        text_of(old(self).lines@)[old(self).cursor_row as int].take(
                            clip(
                                old(self).cursor_col as int,
                                text_of(old(self).lines@)[old(self).cursor_row as int].len() as int,
                            ),
                        ),
                    ) as int
                } else {
                    0
                }),
                visible_cols as int,
            ),
            final(self).lines == old(self).lines,
            final(self).cursor_row == old(self).cursor_row,
            final(self).cursor_col == old(self).cursor_col,
            final(self).modified == old(self).modified,
            final(self).filepath == old(self).filepath,
            final(self).filename == old(self).filename,
            final(self).message == old(self).message,
    {
        let row = self.cursor_row;
        if row < self.scroll_row {
            self.scroll_row = row;
        }
        if visible_rows > 0 && row - self.scroll_row >= visible_rows {
            self.scroll_row = row - visible_rows + 1;
        }
        let display_col: usize = if row < self.lines.len() {
            let chars = to_chars(self.lines[row].as_str());
            let k = if self.cursor_col < chars.len() { self.cursor_col } else { chars.len() };
            let prefix = string_from_chars(&chars, 0, k);
            proof {
                assert(chars@.subrange(0, k as int) =~= chars@.take(k as int));
            }
            str_display_width(prefix.as_str())
        } else {
            0
        };
        if display_col < self.scroll_col {
            self.scroll_col = display_col;
        }
        if visible_cols > 0 && display_col - self.scroll_col >= visible_cols {
            self.scroll_col = display_col - visible_cols + 1;
        }
    }
}


/// Every editing step keeps the editor well-formed: some line, the cursor on
/// a line and inside it.
pub proof fn law_editing_keeps_wf(v: EditView, c: char, visible: int)
    requires
        ed_wf(v),
        visible >= 0,
    ensures
        ed_wf(ed_insert_of(v, c)),
        ed_wf(ed_backspace_of(v)),
        ed_wf(ed_delete_of(v)),
        ed_wf(ed_enter_of(v)),
        ed_wf(ed_up_of(v)),
        ed_wf(ed_down_of(v)),
        ed_wf(ed_left_of(v)),
        ed_wf(ed_right_of(v)),
        ed_wf(ed_page_up_of(v, visible)),
        ed_wf(ed_page_down_of(v, visible)),
        ed_wf((v.0, v.1, 0)),
        ed_wf((v.0, v.1, v.0[v.1].len() as int)),
{
}

/// Backspace right after typing a character gives back the text and the
/// cursor from before.
pub proof fn law_insert_then_backspace(v: EditView, c: char)
    requires
        ed_wf(v),
    ensures
        ed_backspace_of(ed_insert_of(v, c)) == v,
{
    let (t, r, col) = v;
    let line = inserted(t[r], col, c);
    assert(removed(line, col, col + 1) =~= t[r]);
    assert(t.update(r, line).update(r, t[r]) =~= t);
}

/// Backspace at the start of the line that Enter just created joins the two
/// halves again: text and cursor are as before.
pub proof fn law_enter_then_backspace(v: EditView)
    requires
        ed_wf(v),
    ensures
        ed_backspace_of(ed_enter_of(v)) == v,
{
    let (t, r, c) = v;
    let t2 = t.take(r) + seq![t[r].take(c), t[r].skip(c)] + t.skip(r + 1);
    assert(t2[r] == t[r].take(c));
    assert(t2[r + 1] == t[r].skip(c));
    assert(t2[r] + t2[r + 1] =~= t[r]);
    assert(t2.take(r) + seq![t2[r] + t2[r + 1]] + t2.skip(r + 2) =~= t);
}

/// Delete at the end of a line joins the same two lines as Backspace at the
/// start of the next one.
pub proof fn law_delete_at_end_joins_like_backspace(v: EditView)
    requires
        ed_wf(v),
        v.2 == v.0[v.1].len(),
        v.1 + 1 < v.0.len(),
    ensures
        ed_delete_of(v).0 == ed_backspace_of((v.0, v.1 + 1, 0)).0,
        ed_backspace_of((v.0, v.1 + 1, 0)).1 == v.1,
        ed_backspace_of((v.0, v.1 + 1, 0)).2 == v.2,
{
}

/// A step right followed by a step left returns to the same place, also
/// across the end of a line.
pub proof fn law_right_then_left(v: EditView)
    requires
        ed_wf(v),
        v.2 < v.0[v.1].len() || v.1 + 1 < v.0.len(),
    ensures
        ed_left_of(ed_right_of(v)) == v,
{
}

/// The cursor moves of the editor, from a well-formed position: Up and Down
/// go one line and keep the column, pulled back to the end of a shorter
/// line, and stay on the first or last line; Left and Right go one
/// character, wrapping to the end of the line above or the start of the
/// line below; PageUp and PageDown go `visible` lines, not past the first
/// or last line, keeping the column the same way. None of them changes the
/// text.
pub proof fn law_cursor_moves(v: EditView, visible: int)
    requires
        ed_wf(v),
        0 <= visible,
    ensures
        ({
            let (t, r, c) = v;
            &&& ed_up_of(v).0 == t && ed_down_of(v).0 == t && ed_left_of(v).0 == t && ed_right_of(v).0 == t
            &&& ed_page_up_of(v, visible).0 == t && ed_page_down_of(v, visible).0 == t
            &&& r > 0 ==> ed_up_of(v).1 == r - 1 && ed_up_of(v).2 == vstd::math::min(c, t[r - 1].len() as int)
            &&& r == 0 ==> ed_up_of(v) == v
            &&& r + 1 < t.len() ==> ed_down_of(v).1 == r + 1 && ed_down_of(v).2 == vstd::math::min(
                c,
                t[r + 1].len() as int,
            )
            &&& r + 1 == t.len() ==> ed_down_of(v) == v
            &&& c > 0 ==> ed_left_of(v) == (t, r, c - 1)
            &&& c == 0 && r > 0 ==> ed_left_of(v) == (t, r - 1, t[r - 1].len() as int)
            &&& c < t[r].len() ==> ed_right_of(v) == (t, r, c + 1)
            &&& c == t[r].len() && r + 1 < t.len() ==> ed_right_of(v) == (t, r + 1, 0int)
            &&& ed_page_up_of(v, visible).1 == vstd::math::max(r - visible, 0)
            &&& ed_page_up_of(v, visible).2 == vstd::math::min(c, t[ed_page_up_of(v, visible).1].len() as int)
            &&& ed_page_down_of(v, visible).1 == vstd::math::min(r + visible, t.len() - 1)
            &&& ed_page_down_of(v, visible).2 == vstd::math::min(
                c,
                t[ed_page_down_of(v, visible).1].len() as int,
            )
        }),
{
}

} // verus!
