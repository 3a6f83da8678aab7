//! What the screen shows, as text: which screen fills the terminal, the
//! titles, the rows of the file list and of the viewer, the status and
//! information lines, and how a text field splits around its cursor.
//! Colours and the drawing itself are left to the terminal side.

use vstd::prelude::*;
use vstd::utf8::{encode_utf8, is_char_boundary};
use crate::app::{App, AppMode, count_dirs, count_files};
use crate::file_entry::{FileEntry, EntryType};
use crate::viewer::ViewerState;
use crate::format::{decimal, push_decimal, bytes_text, format_bytes, size_text, date_text, permissions_text};
use crate::layout::{truncated_path, truncate_path, entry_row, format_entry_name, pad_left, push_padded_left};
use crate::line_edit::clip;
use crate::text::{to_chars, append_str, push_char, string_from_chars};

verus! {

broadcast use vstd::std_specs::hash::group_hash_axioms;

/// What fills the terminal.
#[derive(Debug, Clone, Copy, PartialEq, Eq, Structural)]
pub enum ScreenKind {
    /// A terminal under 40 by 10 gets only a warning.
    TooSmall,
    /// The viewer, also while a search is typed.
    Viewer,
    Help,
    /// The file list with its status and information lines.
    FileList,
}

pub open spec fn screen_kind_of(mode: AppMode, width: int, height: int) -> ScreenKind {
    if width < 40 || height < 10 {
        ScreenKind::TooSmall
    } else if mode is Viewer || mode is ViewerSearch {
        ScreenKind::Viewer
    } else if mode is Help {
        ScreenKind::Help
    } else {
        ScreenKind::FileList
    }
}

/// Which screen to draw for a mode and a terminal size.
pub fn screen_kind(mode: &AppMode, width: u16, height: u16) -> (k: ScreenKind)
    ensures
        k == screen_kind_of(*mode, width as int, height as int),
{
    if width < 40 || height < 10 {
        return ScreenKind::TooSmall;
    }
    match mode {
        AppMode::Viewer | AppMode::ViewerSearch { .. } => ScreenKind::Viewer,
        AppMode::Help { .. } => ScreenKind::Help,
        _ => ScreenKind::FileList,
    }
}

/// The title of the file list: the number of search results, or the
/// current directory shortened to the width inside the frame.
pub open spec fn list_title_text(search_results: bool, count: nat, dir: Seq<char>, width: int) -> Seq<char> {
    if search_results {
        " 검색 결과: "@ + decimal(count) + "개 "@
    } else {
        truncated_path(dir, width - 2)
    }
}

/// The title of the file list for a terminal `width` columns wide. The
/// directory is cut in bytes, so the cut must fall on a character boundary.
pub fn list_title(app: &App, width: u16) -> (t: String)
    requires
        width >= 2,
        !app.search_results && encode_utf8(app.current_dir@).len() > width - 2 > 6 ==> is_char_boundary(
            encode_utf8(app.current_dir@),
            encode_utf8(app.current_dir@).len() - (width - 2 - 4),
        ),
    ensures
        t@ == list_title_text(app.search_results, app.entries@.len(), app.current_dir@, width as int),
{
    if app.search_results {
        let mut t = String::new();
        append_str(&mut t, " 검색 결과: ");
        push_decimal(&mut t, app.entries.len() as u128);
        append_str(&mut t, "개 ");
        t
    } else {
        truncate_path(app.current_dir.as_str(), (width - 2) as usize)
    }
}

/// The first entry of the page of `rows * columns` entries that holds the
/// cursor.
pub fn page_start(cursor: usize, rows: usize, columns: usize) -> (p: usize)
    requires
        rows > 0,
        columns > 0,
        rows * columns <= usize::MAX,
    ensures
        p == (cursor as int / (rows * columns)) * (rows * columns),
        p <= cursor,
        cursor < p + rows * columns,
{
    let per_page = rows * columns;
    assert(per_page > 0) by (nonlinear_arith)
        requires
            rows > 0,
            columns > 0,
            per_page == rows * columns,
    ;
    let page = cursor / per_page;
    proof {
        vstd::arithmetic::div_mod::lemma_fundamental_div_mod(cursor as int, per_page as int);
        vstd::arithmetic::div_mod::lemma_mod_pos_bound(cursor as int, per_page as int);
        vstd::arithmetic::mul::lemma_mul_is_commutative(page as int, per_page as int);
    }
    page * per_page
}

/// How a row of the file list is highlighted.
#[derive(Debug, Clone, Copy, PartialEq, Eq, Structural)]
pub enum CellMark {
    /// Under the cursor.
    Cursor,
    /// Selected, not under the cursor.
    Selected,
    /// Neither: the entry's own colour.
    Plain,
}

fn vec_contains(v: &Vec<usize>, x: usize) -> (r: bool)
    ensures
        r == v@.contains(x),
{
    let mut i: usize = 0;
    while i < v.len()
        invariant
            i <= v@.len(),
            forall|j: int| 0 <= j < i ==> v@[j] != x,
        decreases v@.len() - i,
    {
        if v[i] == x {
            return true;
        }
        i = i + 1;
    }
    false
}

/// The row of the file list for entry `idx`, `width` characters wide, and
/// its highlight; nothing past the last entry.
pub fn list_cell(app: &App, idx: usize, width: usize) -> (r: Option<(String, CellMark)>)
    ensures
        idx >= app.entries@.len() ==> r is None,
        idx < app.entries@.len() ==> {
            let sel = app.selected_indices@.contains(idx);
            r matches Some(c) && c.0@ == entry_row(app.entries@[idx as int], width as int, sel) && c.1 == (if idx
                == app.cursor {
                CellMark::Cursor
            } else if sel {
                CellMark::Selected
            } else {
                CellMark::Plain
            })
        },
{
    if idx >= app.entries.len() {
        return None;
    }
    let sel = app.selected_indices.contains(&idx);
    let text = format_entry_name(&app.entries[idx], width, sel);
    let mark = if idx == app.cursor {
        CellMark::Cursor
    } else if sel {
        CellMark::Selected
    } else {
        CellMark::Plain
    };
    Some((text, mark))
}

/// ` [n개 선택]` when entries are selected, else nothing.
pub open spec fn selection_note(n: nat) -> Seq<char> {
    if n > 0 {
        " ["@ + decimal(n) + "개 선택]"@
    } else {
        Seq::empty()
    }
}

/// The modification time as the status line shows it.
pub open spec fn date_of(e: FileEntry) -> Seq<char> {
    match e.modified {
        Some(t) => date_text(t),
        None => Seq::empty(),
    }
}

/// The status line: name, size, time and permissions of the entry under the
/// cursor, then the selection count.
pub open spec fn status_text(entries: Seq<FileEntry>, cursor: int, selected: nat, mode: Option<u32>) -> Seq<char> {
    if 0 <= cursor < entries.len() {
        let e = entries[cursor];
        " "@ + e.name@ + " │ "@ + size_text(e.entry_type == EntryType::Directory, e.size as nat) + " │ "@
            + date_of(e) + " │ "@ + permissions_text(mode) + selection_note(selected)
    } else {
        selection_note(selected)
    }
}

fn push_selection_note(s: &mut String, n: usize)
    ensures
        final(s)@ == old(s)@ + selection_note(n as nat),
{
    if n > 0 {
        append_str(s, " [");
        push_decimal(s, n as u128);
        append_str(s, "개 선택]");
        proof {
            assert(final(s)@ =~= old(s)@ + selection_note(n as nat));
        }
    } else {
        proof {
            assert(old(s)@ + selection_note(n as nat) =~= old(s)@);
        }
    }
}

/// The status line; `mode` is the mode of the entry under the cursor, read
/// without following a link.
pub fn status_line(app: &App, mode: Option<u32>) -> (s: String)
    ensures
        s@ == status_text(app.entries@, app.cursor as int, app.selected_indices@.len(), mode),
{
    let mut s = String::new();
    if app.cursor < app.entries.len() {
        let e = &app.entries[app.cursor];
        append_str(&mut s, " ");
        append_str(&mut s, e.name.as_str());
        append_str(&mut s, " │ ");
        let size = e.display_size();
        append_str(&mut s, size.as_str());
        append_str(&mut s, " │ ");
        let date = e.display_date();
        append_str(&mut s, date.as_str());
        append_str(&mut s, " │ ");
        let perms = e.display_permissions(mode);
        append_str(&mut s, perms.as_str());
        push_selection_note(&mut s, app.selected_indices.len());
        proof {
            assert(s@ =~= status_text(app.entries@, app.cursor as int, app.selected_indices@.len(), mode));
        }
    } else {
        push_selection_note(&mut s, app.selected_indices.len());
        proof {
            assert(s@ =~= status_text(app.entries@, app.cursor as int, app.selected_indices@.len(), mode));
        }
    }
    s
}

/// The disk part of the information line: used and total space and the
/// percentage used, when known.
pub open spec fn disk_note(disk: Option<(u64, u64, u8)>) -> Seq<char> {
    match disk {
        Some(d) => " │ 디스크: "@ + bytes_text(d.0 as nat) + "/"@ + bytes_text(d.1 as nat) + " ("@ + decimal(
            d.2 as nat,
        ) + "%)"@,
        None => Seq::empty(),
    }
}

/// The information line: the error if there is one, else the keys of the
/// search results, else the counts, the disk and the keys of the list.
pub open spec fn info_text(error: Option<String>, search_results: bool, dirs: nat, files: nat, disk: Option<(u64, u64, u8)>) -> Seq<char> {
    match error {
        Some(m) => " ⚠ "@ + m@,
        None => if search_results {
            " Enter:이동 │ Backspace:검색종료 │ Q:종료"@
        } else {
            " Dir:"@ + decimal(dirs) + " File:"@ + decimal(files) + disk_note(disk) + " │ ? V F N C M D R K Q"@
        },
    }
}

/// The information line under the list; it is drawn in red when it holds
/// an error. `disk` is the used and total space and the percentage used.
pub fn info_line(app: &App, disk: Option<(u64, u64, u8)>) -> (s: String)
    ensures
        s@ == info_text(
            app.error_message,
            app.search_results,
            count_dirs(app.entries@, app.entries@.len() as int),
            count_files(app.entries@, app.entries@.len() as int),
            disk,
        ),
{
    let mut s = String::new();
    match &app.error_message {
        Some(m) => {
            append_str(&mut s, " ⚠ ");
            append_str(&mut s, m.as_str());
        },
        None => {
            if app.search_results {
                append_str(&mut s, " Enter:이동 │ Backspace:검색종료 │ Q:종료");
            } else {
                append_str(&mut s, " Dir:");
                push_decimal(&mut s, app.dir_count() as u128);
                append_str(&mut s, " File:");
                push_decimal(&mut s, app.file_count() as u128);
                let ghost before = s@;
                match disk {
                    Some(d) => {
                        append_str(&mut s, " │ 디스크: ");
                        let u = format_bytes(d.0);
                        append_str(&mut s, u.as_str());
                        append_str(&mut s, "/");
                        let t = format_bytes(d.1);
                        append_str(&mut s, t.as_str());
                        append_str(&mut s, " (");
                        push_decimal(&mut s, d.2 as u128);
                        append_str(&mut s, "%)");
                        proof {
                            assert(s@ =~= before + disk_note(disk));
                        }
                    },
                    None => {
                        proof {
                            assert(s@ =~= before + disk_note(disk));
                        }
                    },
                }
                append_str(&mut s, " │ ? V F N C M D R K Q");
            }
        },
    }
    proof {
        assert(s@ =~= info_text(
            app.error_message,
            app.search_results,
            count_dirs(app.entries@, app.entries@.len() as int),
            count_files(app.entries@, app.entries@.len() as int),
            disk,
        ));
    }
    s
}

/// A text field as drawn: the prompt between spaces, the text before the
/// cursor, the character under the cursor (a space at the end) and the
/// text after it.
pub open spec fn input_bar_text(prompt: Seq<char>, buffer: Seq<char>, cursor: int) -> (Seq<char>, Seq<char>, Seq<char>, Seq<char>) {
    (
        " "@ + prompt + " "@,
        buffer.take(clip(cursor, buffer.len() as int)),
        if cursor < buffer.len() { seq![buffer[cursor]] } else { seq![' '] },
        if cursor < buffer.len() { buffer.skip(cursor + 1) } else { Seq::empty() },
    )
}

/// Splits a text field around its cursor for drawing.
pub fn input_bar(prompt: &str, buffer: &str, cursor_pos: usize) -> (r: (String, String, String, String))
    ensures
        (r.0@, r.1@, r.2@, r.3@) == input_bar_text(prompt@, buffer@, cursor_pos as int),
{
    let mut prefix = String::new();
    append_str(&mut prefix, " ");
    append_str(&mut prefix, prompt);
    append_str(&mut prefix, " ");
    let chars = to_chars(buffer);
    let n = chars.len();
    let k = if cursor_pos < n { cursor_pos } else { n };
    let before = string_from_chars(&chars, 0, k);
    let mut at = String::new();
    let after = if cursor_pos < n {
        push_char(&mut at, chars[cursor_pos]);
        string_from_chars(&chars, cursor_pos + 1, n)
    } else {
        push_char(&mut at, ' ');
        String::new()
    };
    proof {
        assert(prefix@ =~= " "@ + prompt@ + " "@);
        assert(chars@.subrange(0, k as int) =~= chars@.take(k as int));
        if cursor_pos < n {
            assert(chars@.subrange(cursor_pos + 1, n as int) =~= chars@.skip(cursor_pos + 1));
            assert(at@ =~= seq![chars@[cursor_pos as int]]);
        } else {
            assert(at@ =~= seq![' ']);
        }
    }
    (prefix, before, at, after)
}

/// The confirmation line.
pub fn confirm_line(message: &str) -> (s: String)
    ensures
        s@ == " "@ + message@,
{
    let mut s = String::new();
    append_str(&mut s, " ");
    append_str(&mut s, message);
    proof {
        assert(s@ =~= " "@ + message@);
    }
    s
}

/// The viewer's title: the file name and its number of lines.
pub open spec fn viewer_title_text(name: Seq<char>, lines: nat) -> Seq<char> {
    " "@ + name + " ("@ + decimal(lines) + " lines) "@
}

pub fn viewer_title(v: &ViewerState) -> (t: String)
    ensures
        t@ == viewer_title_text(v.filename@, v.lines@.len()),
{
    let mut t = String::new();
    append_str(&mut t, " ");
    append_str(&mut t, v.filename.as_str());
    append_str(&mut t, " (");
    push_decimal(&mut t, v.lines.len() as u128);
    append_str(&mut t, " lines) ");
    proof {
        assert(t@ =~= viewer_title_text(v.filename@, v.lines@.len()));
    }
    t
}

/// How a row of the viewer is drawn.
#[derive(Debug, Clone, Copy, PartialEq, Eq, Structural)]
pub enum LineMark {
    /// Past the end of the file.
    Filler,
    Plain,
    /// A line that holds the search query.
    Match,
    /// The match the viewer is at.
    CurrentMatch,
}

pub open spec fn line_mark(v: ViewerState, idx: int) -> LineMark {
    if idx >= v.lines@.len() {
        LineMark::Filler
    } else if v.search_matches@.len() > 0 && v.current_match < v.search_matches@.len()
        && v.search_matches@[v.current_match as int] == idx {
        LineMark::CurrentMatch
    } else if v.search_matches@.contains(idx as usize) {
        LineMark::Match
    } else {
        LineMark::Plain
    }
}

/// The line number column: the number counted from one, right-aligned in
/// four characters, and a space.
pub open spec fn line_number_text(idx: int) -> Seq<char> {
    pad_left(decimal((idx + 1) as nat), 4) + " "@
}

/// Row `i` of the viewer's window: the line number column and the line, or
/// `~` past the end of the file, and how the row is marked.
pub fn viewer_row(v: &ViewerState, i: usize) -> (r: (String, String, LineMark))
    requires
        v.scroll + i + 1 <= usize::MAX,
    ensures
        r.2 == line_mark(*v, v.scroll + i),
        v.scroll + i >= v.lines@.len() ==> r.0@ == "~"@ && r.1@.len() == 0,
        v.scroll + i < v.lines@.len() ==> r.0@ == line_number_text(v.scroll + i) && r.1@ == v.lines@[v.scroll
            + i]@,
{
    let idx = v.scroll + i;
    if idx >= v.lines.len() {
        let mut t = String::new();
        append_str(&mut t, "~");
        proof {
            assert(t@ =~= "~"@);
        }
        return (t, String::new(), LineMark::Filler);
    }
    let current = v.search_matches.len() > 0 && v.current_match < v.search_matches.len()
        && v.search_matches[v.current_match] == idx;
    let mark = if current {
        LineMark::CurrentMatch
    } else if vec_contains(&v.search_matches, idx) {
        LineMark::Match
    } else {
        LineMark::Plain
    };
    let mut num = String::new();
    push_decimal(&mut num, (idx + 1) as u128);
    let mut col = String::new();
    push_padded_left(&mut col, num.as_str(), 4);
    append_str(&mut col, " ");
    proof {
        assert(col@ =~= line_number_text(idx as int));
    }
    let mut text = String::new();
    append_str(&mut text, v.lines[idx].as_str());
    proof {
        assert(text@ =~= v.lines@[idx as int]@);
    }
    (col, text, mark)
}

/// The search part of the viewer's status line.
pub open spec fn search_note(v: ViewerState) -> Seq<char> {
    match v.search_query {
        Some(q) => if v.search_matches@.len() == 0 {
            " │ '"@ + q@ + "' 매치 없음"@
        } else {
            " │ '"@ + q@ + "' "@ + decimal((v.current_match + 1) as nat) + "/"@ + decimal(v.search_matches@.len())
        },
        None => Seq::empty(),
    }
}

/// The viewer's status line: the top line shown, the number of lines, how
/// far down that is in percent, the search, and the keys.
pub open spec fn viewer_status_text(v: ViewerState) -> Seq<char> {
    let n = v.lines@.len();
    let percent: nat = if n == 0 { 0 } else { ((v.scroll * 100) as nat / n) as nat };
    " L"@ + decimal((v.scroll + 1) as nat) + "/"@ + decimal(n) + " ("@ + decimal(percent) + "%)"@ + search_note(v)
        + " │ ↑↓ PgUp/Dn / n/N Q"@
}

pub fn viewer_status(v: &ViewerState) -> (s: String)
    requires
        v.scroll * 100 <= usize::MAX,
        v.current_match + 1 <= usize::MAX,
    ensures
        s@ == viewer_status_text(*v),
{
    let n = v.lines.len();
    let percent: usize = if n == 0 { 0 } else { (v.scroll * 100) / n };
    let mut s = String::new();
    append_str(&mut s, " L");
    push_decimal(&mut s, (v.scroll + 1) as u128);
    append_str(&mut s, "/");
    push_decimal(&mut s, n as u128);
    append_str(&mut s, " (");
    push_decimal(&mut s, percent as u128);
    append_str(&mut s, "%)");
    let ghost before = s@;
    match &v.search_query {
        Some(q) => {
            append_str(&mut s, " │ '");
            append_str(&mut s, q.as_str());
            if v.search_matches.len() == 0 {
                append_str(&mut s, "' 매치 없음");
            } else {
                append_str(&mut s, "' ");
                push_decimal(&mut s, (v.current_match + 1) as u128);
                append_str(&mut s, "/");
                push_decimal(&mut s, v.search_matches.len() as u128);
            }
        },
        None => {},
    }
    proof {
        assert(s@ =~= before + search_note(*v));
    }
    append_str(&mut s, " │ ↑↓ PgUp/Dn / n/N Q");
    proof {
        assert(s@ =~= viewer_status_text(*v));
    }
    s
}

/// The help screen's status line.
pub open spec fn help_status_text(scroll: nat, total: nat) -> Seq<char> {
    let percent: nat = if total == 0 { 0 } else { (scroll * 100) / total };
    " "@ + decimal(scroll + 1) + "/"@ + decimal(total) + " ("@ + decimal(percent) + "%) │ ↑↓ PgUp/Dn │ Q/Esc/? 닫기"@
}

pub fn help_status(scroll: usize, total: usize) -> (s: String)
    requires
        scroll * 100 <= usize::MAX,
    ensures
        s@ == help_status_text(scroll as nat, total as nat),
{
    let percent: usize = if total == 0 { 0 } else { (scroll * 100) / total };
    let mut s = String::new();
    append_str(&mut s, " ");
    push_decimal(&mut s, (scroll as u128) + 1);
    append_str(&mut s, "/");
    push_decimal(&mut s, total as u128);
    append_str(&mut s, " (");
    push_decimal(&mut s, percent as u128);
    append_str(&mut s, "%) │ ↑↓ PgUp/Dn │ Q/Esc/? 닫기");
    proof {
        assert(s@ =~= help_status_text(scroll as nat, total as nat));
    }
    s
}

} // verus!
