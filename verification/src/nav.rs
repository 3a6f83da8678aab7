//! Cursor and scroll arithmetic shared by the file list, the viewer, the
//! help screen and the editor.

use vstd::prelude::*;

verus! {

pub open spec fn up_of(cursor: int) -> int {
    if cursor > 0 { cursor - 1 } else { cursor }
}

pub open spec fn down_of(cursor: int, len: int) -> int {
    if cursor + 1 < len { cursor + 1 } else { cursor }
}

pub open spec fn left_of(cursor: int, rows: int) -> int {
    if cursor >= rows { cursor - rows } else { cursor }
}

pub open spec fn right_of(cursor: int, rows: int, len: int) -> int {
    if cursor + rows < len { cursor + rows } else { cursor }
}

pub open spec fn page_back_of(cursor: int, rows: int) -> int {
    if cursor >= rows { cursor - rows } else { 0 }
}

pub open spec fn page_forward_of(cursor: int, rows: int, len: int) -> int {
    if cursor + rows < len {
        cursor + rows
    } else if len > 0 {
        len - 1
    } else {
        cursor
    }
}

pub open spec fn last_of(cursor: int, len: int) -> int {
    if len > 0 { len - 1 } else { cursor }
}

pub open spec fn clamp_of(cursor: int, len: int) -> int {
    if len == 0 {
        0
    } else if cursor >= len {
        len - 1
    } else {
        cursor
    }
}

pub open spec fn saturating_sub_of(a: int, b: int) -> int {
    if a >= b { a - b } else { 0 }
}

pub open spec fn scroll_down_of(scroll: int, visible: int, total: int) -> int {
    if scroll + visible < total { scroll + 1 } else { scroll }
}

pub open spec fn scroll_page_down_of(scroll: int, visible: int, total: int) -> int {
    vstd::math::min(scroll + visible, saturating_sub_of(total, visible))
}

/// One step up, stopping at the first entry.
pub fn step_up(cursor: usize) -> (r: usize)
    ensures
        r == up_of(cursor as int),
{
    if cursor > 0 {
        cursor - 1
    } else {
        cursor
    }
}

/// One step down, stopping at the last of `len` entries.
pub fn step_down(cursor: usize, len: usize) -> (r: usize)
    ensures
        r == down_of(cursor as int, len as int),
{
    if cursor < len && 1 < len - cursor {
        cursor + 1
    } else {
        cursor
    }
}

/// One column to the left: back by `rows` when that stays in the list.
pub fn column_left(cursor: usize, rows: usize) -> (r: usize)
    ensures
        r == left_of(cursor as int, rows as int),
{
    if cursor >= rows {
        cursor - rows
    } else {
        cursor
    }
}

/// One column to the right: forward by `rows` when that stays in the list.
pub fn column_right(cursor: usize, rows: usize, len: usize) -> (r: usize)
    ensures
        r == right_of(cursor as int, rows as int, len as int),
{
    if cursor < len && rows < len - cursor {
        cursor + rows
    } else {
        cursor
    }
}

/// One page up: back by `rows`, stopping at the first entry.
pub fn page_back(cursor: usize, rows: usize) -> (r: usize)
    ensures
        r == page_back_of(cursor as int, rows as int),
{
    cursor.saturating_sub(rows)
}

/// One page down: forward by `rows`, or to the last entry when that would
/// leave the list.
pub fn page_forward(cursor: usize, rows: usize, len: usize) -> (r: usize)
    ensures
        r == page_forward_of(cursor as int, rows as int, len as int),
{
    if cursor < len && rows < len - cursor {
        cursor + rows
    } else if len > 0 {
        len - 1
    } else {
        cursor
    }
}

/// The last position of a list of `len` entries, or `cursor` when it is
/// empty.
pub fn last_position(cursor: usize, len: usize) -> (r: usize)
    ensures
        r == last_of(cursor as int, len as int),
{
    if len > 0 {
        len - 1
    } else {
        cursor
    }
}

/// Pulls a cursor back into a list of `len` entries (0 for an empty list).
pub fn clamp_cursor(cursor: usize, len: usize) -> (r: usize)
    ensures
        r == clamp_of(cursor as int, len as int),
{
    if len == 0 {
        0
    } else if cursor >= len {
        len - 1
    } else {
        cursor
    }
}

/// `a - b`, or 0 when `b` is larger.
pub fn saturating_sub(a: usize, b: usize) -> (r: usize)
    ensures
        r == saturating_sub_of(a as int, b as int),
{
    a.saturating_sub(b)
}

/// The top line can move down by one only while the window of `visible`
/// lines has not reached the end of the `total` lines.
pub fn scroll_down_one(scroll: usize, visible: usize, total: usize) -> (r: usize)
    ensures
        r == scroll_down_of(scroll as int, visible as int, total as int),
{
    if scroll < total && visible < total - scroll {
        scroll + 1
    } else {
        scroll
    }
}

/// A page further down, without passing the last top line that still fills
/// the window.
pub fn scroll_page_down(scroll: usize, visible: usize, total: usize) -> (r: usize)
    ensures
        r == scroll_page_down_of(scroll as int, visible as int, total as int),
{
    let max_scroll = saturating_sub(total, visible);
    if scroll < max_scroll && visible < max_scroll - scroll {
        scroll + visible
    } else {
        max_scroll
    }
}

/// A cursor inside a non-empty list stays inside it under every move.
pub proof fn law_moves_stay_in_list(cursor: int, rows: int, len: int)
    requires
        0 <= cursor < len,
        0 <= rows,
    ensures
        0 <= up_of(cursor) < len,
        0 <= down_of(cursor, len) < len,
        0 <= left_of(cursor, rows) < len,
        0 <= right_of(cursor, rows, len) < len,
        0 <= page_back_of(cursor, rows) < len,
        0 <= page_forward_of(cursor, rows, len) < len,
        0 <= last_of(cursor, len) < len,
{
}

/// Moving down one entry and back up returns to the same entry, and so does
/// moving one column right and back left.
pub proof fn law_moves_undo(cursor: int, rows: int, len: int)
    requires
        0 <= cursor,
        0 <= rows,
    ensures
        cursor + 1 < len ==> up_of(down_of(cursor, len)) == cursor,
        cursor + rows < len ==> left_of(right_of(cursor, rows, len), rows) == cursor,
{
}

/// Scrolling never passes the last top line that still fills the window,
/// once the window is there.
pub proof fn law_scroll_bounded(scroll: int, visible: int, total: int)
    requires
        0 <= scroll <= saturating_sub_of(total, visible),
        0 <= visible,
    ensures
        0 <= scroll_down_of(scroll, visible, total) <= saturating_sub_of(total, visible),
        0 <= scroll_page_down_of(scroll, visible, total) <= saturating_sub_of(total, visible),
        0 <= page_back_of(scroll, visible) <= saturating_sub_of(total, visible),
        0 <= up_of(scroll) <= saturating_sub_of(total, visible),
{
}

/// What each move does to a cursor on an entry of a non-empty list laid out
/// in columns of `rows` entries: Up and Down go one entry, not past either
/// end; Left and Right go one column when there is an entry there, else
/// stay; PageUp goes a column back, to the first entry at most; PageDown
/// goes a column on, to the last entry at most; End goes to the last entry.
pub proof fn law_list_moves(cursor: int, rows: int, len: int)
    requires
        0 <= cursor < len,
        1 <= rows,
    ensures
        cursor > 0 ==> up_of(cursor) == cursor - 1,
        cursor == 0 ==> up_of(cursor) == 0,
        cursor + 1 < len ==> down_of(cursor, len) == cursor + 1,
        cursor == len - 1 ==> down_of(cursor, len) == cursor,
        cursor >= rows ==> left_of(cursor, rows) == cursor - rows,
        cursor < rows ==> left_of(cursor, rows) == cursor,
        cursor + rows < len ==> right_of(cursor, rows, len) == cursor + rows,
        cursor + rows >= len ==> right_of(cursor, rows, len) == cursor,
        page_back_of(cursor, rows) >= 0,
        page_back_of(cursor, rows) >= cursor - rows,
        page_back_of(cursor, rows) == 0 || page_back_of(cursor, rows) == cursor - rows,
        page_forward_of(cursor, rows, len) <= len - 1,
        page_forward_of(cursor, rows, len) <= cursor + rows,
        page_forward_of(cursor, rows, len) == len - 1 || page_forward_of(cursor, rows, len) == cursor + rows,
        last_of(cursor, len) == len - 1,
{
}

} // verus!
