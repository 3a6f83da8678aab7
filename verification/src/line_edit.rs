//! Editing a one-line text field whose cursor counts characters, not bytes.

use vstd::prelude::*;
use crate::text::{to_chars, string_from_chars, append_chars, push_char, copy_string};

verus! {

/// `k` pulled into `0..=len`.
pub open spec fn clip(k: int, len: int) -> int {
    if k < len { k } else { len }
}

/// The text with `c` inserted before character `pos` (at the end when `pos`
/// is past it).
pub open spec fn inserted(s: Seq<char>, pos: int, c: char) -> Seq<char> {
    s.take(clip(pos, s.len() as int)) + seq![c] + s.skip(clip(pos, s.len() as int))
}

/// The text without the characters between positions `from` and `to`, both
/// pulled into the text first.
pub open spec fn removed(s: Seq<char>, from: int, to: int) -> Seq<char> {
    s.take(clip(from, s.len() as int)) + s.skip(clip(to, s.len() as int))
}

/// Text and cursor after typing `c`.
pub open spec fn type_char_of(s: Seq<char>, cursor: int, c: char) -> (Seq<char>, int) {
    (inserted(s, cursor, c), cursor + 1)
}

/// Text and cursor after Backspace: the character before the cursor goes.
pub open spec fn backspace_of(s: Seq<char>, cursor: int) -> (Seq<char>, int) {
    if cursor > 0 {
        (removed(s, cursor - 1, cursor), cursor - 1)
    } else {
        (s, cursor)
    }
}

/// Text after Delete: the character under the cursor goes.
pub open spec fn delete_of(s: Seq<char>, cursor: int) -> Seq<char> {
    if cursor < s.len() {
        removed(s, cursor, cursor + 1)
    } else {
        s
    }
}

/// Cursor after the right arrow: one further while inside the text.
pub open spec fn cursor_right_of(s: Seq<char>, cursor: int) -> int {
    if cursor < s.len() { cursor + 1 } else { cursor }
}

/// `s` with `c` inserted before character `pos`.
pub fn insert_char(s: &String, pos: usize, c: char) -> (r: String)
    ensures
        r@ == inserted(s@, pos as int, c),
{
    let v = to_chars(s.as_str());
    let k = if pos < v.len() { pos } else { v.len() };
    let mut r = string_from_chars(&v, 0, k);
    push_char(&mut r, c);
    append_chars(&mut r, &v, k, v.len());
    proof {
        assert(v@.subrange(0, k as int) =~= v@.take(k as int));
        assert(v@.subrange(k as int, v@.len() as int) =~= v@.skip(k as int));
    }
    r
}

/// `s` without the characters from position `from` up to `to`.
pub fn remove_chars(s: &String, from: usize, to: usize) -> (r: String)
    requires
        from <= to,
    ensures
        r@ == removed(s@, from as int, to as int),
{
    let v = to_chars(s.as_str());
    let a = if from < v.len() { from } else { v.len() };
    let b = if to < v.len() { to } else { v.len() };
    let mut r = string_from_chars(&v, 0, a);
    append_chars(&mut r, &v, b, v.len());
    proof {
        assert(v@.subrange(0, a as int) =~= v@.take(a as int));
        assert(v@.subrange(b as int, v@.len() as int) =~= v@.skip(b as int));
    }
    r
}

/// Typing a character: it goes in before the cursor, which moves past it.
pub fn type_char(buffer: &String, cursor: usize, c: char) -> (r: (String, usize))
    requires
        cursor <= buffer@.len(),
    ensures
        (r.0@, r.1 as int) == type_char_of(buffer@, cursor as int, c),
{
    let s = insert_char(buffer, cursor, c);
    let _longer = crate::text::char_count(s.as_str());
    (s, cursor + 1)
}

/// Backspace: the character before the cursor goes and the cursor moves back.
pub fn backspace(buffer: &String, cursor: usize) -> (r: (String, usize))
    ensures
        (r.0@, r.1 as int) == backspace_of(buffer@, cursor as int),
{
    if cursor > 0 {
        (remove_chars(buffer, cursor - 1, cursor), cursor - 1)
    } else {
        (copy_string(buffer), cursor)
    }
}

/// Delete: the character under the cursor goes; the cursor stays.
pub fn delete_at(buffer: &String, cursor: usize) -> (r: String)
    ensures
        r@ == delete_of(buffer@, cursor as int),
{
    let n = to_chars(buffer.as_str()).len();
    if cursor < n {
        remove_chars(buffer, cursor, cursor + 1)
    } else {
        copy_string(buffer)
    }
}

/// Right arrow: one character further, not past the end.
pub fn cursor_right(buffer: &String, cursor: usize) -> (r: usize)
    ensures
        r == cursor_right_of(buffer@, cursor as int),
{
    let n = to_chars(buffer.as_str()).len();
    if cursor < n {
        cursor + 1
    } else {
        cursor
    }
}

/// Backspace right after typing a character gives back the text and cursor
/// from before, wherever the cursor stood inside the text.
pub proof fn law_type_then_backspace(s: Seq<char>, cursor: int, c: char)
    requires
        0 <= cursor <= s.len(),
    ensures
        backspace_of(type_char_of(s, cursor, c).0, type_char_of(s, cursor, c).1) == (s, cursor),
{
    let t = inserted(s, cursor, c);
    assert(t.take(cursor) + t.skip(cursor + 1) =~= s);
}

/// Typing a character, stepping back over it and deleting it gives back the
/// text from before.
pub proof fn law_type_then_delete(s: Seq<char>, cursor: int, c: char)
    requires
        0 <= cursor <= s.len(),
    ensures
        delete_of(type_char_of(s, cursor, c).0, cursor) == s,
{
    let t = inserted(s, cursor, c);
    assert(t.take(cursor) + t.skip(cursor + 1) =~= s);
}

/// The cursor never leaves the text under any of the edits.
pub proof fn law_cursor_stays_in_text(s: Seq<char>, cursor: int, c: char)
    requires
        0 <= cursor <= s.len(),
    ensures
        type_char_of(s, cursor, c).1 <= type_char_of(s, cursor, c).0.len(),
        0 <= backspace_of(s, cursor).1 <= backspace_of(s, cursor).0.len(),
        cursor <= delete_of(s, cursor).len(),
        cursor_right_of(s, cursor) <= s.len(),
{
}

/// What each edit does to a field holding `s` with the cursor at `cursor`:
/// typing puts `c` at the cursor, keeps what stands before and after it,
/// and moves the cursor past it; Backspace takes out the character before
/// the cursor and steps back, and does nothing at the start; Delete takes
/// out the character under the cursor, and does nothing at the end; the
/// right arrow moves one character on inside the text and stays at its end.
pub proof fn law_edits_exact(s: Seq<char>, cursor: int, c: char)
    requires
        0 <= cursor <= s.len(),
    ensures
        ({
            let (t, k) = type_char_of(s, cursor, c);
            &&& t.len() == s.len() + 1
            &&& t[cursor] == c
            &&& t.take(cursor) == s.take(cursor)
            &&& t.skip(cursor + 1) == s.skip(cursor)
            &&& k == cursor + 1
        }),
        cursor > 0 ==> backspace_of(s, cursor) == (s.take(cursor - 1) + s.skip(cursor), cursor - 1),
        cursor > 0 ==> backspace_of(s, cursor).0.len() == s.len() - 1,
        cursor == 0 ==> backspace_of(s, cursor) == (s, 0int),
        cursor < s.len() ==> delete_of(s, cursor) == s.take(cursor) + s.skip(cursor + 1),
        cursor < s.len() ==> delete_of(s, cursor).len() == s.len() - 1,
        cursor == s.len() ==> delete_of(s, cursor) == s,
        cursor < s.len() ==> cursor_right_of(s, cursor) == cursor + 1,
        cursor == s.len() ==> cursor_right_of(s, cursor) == cursor,
{
    let t = inserted(s, cursor, c);
    assert(t.take(cursor) =~= s.take(cursor));
    assert(t.skip(cursor + 1) =~= s.skip(cursor));
}

} // verus!
