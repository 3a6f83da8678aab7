//! Decisions behind what the screen shows: where a help line splits into
//! key and description, how paths and entry names are shortened, how sizes
//! are written.

use vstd::prelude::*;
use vstd::utf8::{encode_utf8, decode_utf8, is_char_boundary};
use crate::text::{push_char, append_str, to_chars, string_from_chars, char_count, contains_char};
use crate::file_entry::{FileEntry, EntryType};
use crate::format::size_text;

verus! {

/// The space byte.
pub open spec fn is_space(b: u8) -> bool {
    b == 32u8
}

/// First index at or after `i` that does not hold a space.
pub open spec fn skip_spaces(b: Seq<u8>, i: int) -> int
    decreases b.len() - i,
{
    if 0 <= i < b.len() && is_space(b[i]) {
        skip_spaces(b, i + 1)
    } else {
        i
    }
}

/// First index at or after `i` that holds a space.
pub open spec fn skip_word(b: Seq<u8>, i: int) -> int
    decreases b.len() - i,
{
    if 0 <= i < b.len() && !is_space(b[i]) {
        skip_word(b, i + 1)
    } else {
        i
    }
}

/// End of the key: the first word after the leading spaces.
pub open spec fn key_end(b: Seq<u8>) -> int {
    skip_word(b, skip_spaces(b, 0))
}

/// Two spaces start at `j`, and some later byte is not a space.
pub open spec fn gap_at(b: Seq<u8>, j: int) -> bool {
    &&& 0 <= j
    &&& j + 1 < b.len()
    &&& is_space(b[j])
    &&& is_space(b[j + 1])
    &&& exists|t: int| j + 1 < t < b.len() && !is_space(#[trigger] b[t])
}

proof fn lemma_skip_spaces_facts(b: Seq<u8>, i: int)
    requires
        0 <= i <= b.len(),
    ensures
        i <= skip_spaces(b, i) <= b.len(),
        forall|t: int| i <= t < skip_spaces(b, i) ==> is_space(#[trigger] b[t]),
        skip_spaces(b, i) < b.len() ==> !is_space(b[skip_spaces(b, i)]),
    decreases b.len() - i,
{
    if i < b.len() && is_space(b[i]) {
        lemma_skip_spaces_facts(b, i + 1);
    }
}

proof fn lemma_skip_word_facts(b: Seq<u8>, i: int)
    requires
        0 <= i <= b.len(),
    ensures
        i <= skip_word(b, i) <= b.len(),
        forall|t: int| i <= t < skip_word(b, i) ==> !is_space(#[trigger] b[t]),
        skip_word(b, i) < b.len() ==> is_space(b[skip_word(b, i)]),
    decreases b.len() - i,
{
    if i < b.len() && !is_space(b[i]) {
        lemma_skip_word_facts(b, i + 1);
    }
}

/// `r` is the start of the first gap at or after the end of the key, if
/// there is one.
pub open spec fn separator_spec(b: Seq<u8>, r: Option<usize>) -> bool {
    match r {
        Some(k) => key_end(b) <= k && gap_at(b, k as int) && forall|j: int|
            key_end(b) <= j < k ==> !#[trigger] gap_at(b, j),
        None => forall|j: int| key_end(b) <= j ==> !#[trigger] gap_at(b, j),
    }
}

/// Where the key part of a help line ends and its description begins: the
/// first run of two or more spaces after the key word that is followed by
/// more text. `None` when there is no such run.
pub fn find_key_desc_separator(s: &str) -> (r: Option<usize>)
    ensures
        separator_spec(vstd::utf8::encode_utf8(s@), r),
{
    let bytes = s.as_bytes();
    let ghost b = bytes@;
    assert(b == vstd::utf8::encode_utf8(s@));
    let mut i: usize = 0;
    proof {
        lemma_skip_spaces_facts(b, 0);
    }
    while i < bytes.len() && bytes[i] == 32u8
        invariant
            b == bytes@,
            b == vstd::utf8::encode_utf8(s@),
            i <= b.len(),
            skip_spaces(b, i as int) == skip_spaces(b, 0),
        decreases bytes.len() - i,
    {
        i = i + 1;
    }
    proof {
        assert(i == skip_spaces(b, 0));
        lemma_skip_word_facts(b, i as int);
    }
    let ghost i0 = i as int;
    while i < bytes.len() && bytes[i] != 32u8
        invariant
            b == bytes@,
            b == vstd::utf8::encode_utf8(s@),
            i0 == skip_spaces(b, 0),
            i0 <= i <= b.len(),
            skip_word(b, i as int) == skip_word(b, i0),
        decreases bytes.len() - i,
    {
        i = i + 1;
    }
    let ghost ke = i as int;
    proof {
        assert(ke == skip_word(b, i0));
        assert(ke == key_end(b));
    }
    let mut space_start: usize = i;
    let mut space_count: usize = 0;
    while i < bytes.len()
        invariant
            b == bytes@,
            b == vstd::utf8::encode_utf8(s@),
            ke == key_end(b),
            ke <= i <= b.len(),
            space_count <= i - ke,
            space_count > 0 ==> space_start == i - space_count,
            forall|t: int| i - space_count <= t < i ==> is_space(#[trigger] b[t]),
            i - space_count > ke ==> !is_space(b[i - space_count - 1]),
            forall|j: int|
                ke <= j && j + 1 < i - space_count ==> !(is_space(#[trigger] b[j]) && is_space(
                    b[j + 1],
                )),
        decreases b.len() - i,
    {
        if bytes[i] == 32u8 {
            if space_count == 0 {
                space_start = i;
            }
            space_count = space_count + 1;
        } else {
            if space_count >= 2 {
                proof {
                    let k = space_start as int;
                    assert(is_space(b[k]) && is_space(b[k + 1]));
                    assert(!is_space(b[i as int]));
                    assert(gap_at(b, k));
                    assert forall|j: int| ke <= j < k implies !#[trigger] gap_at(b, j) by {
                        if j + 1 < k {
                        } else {
                            assert(!is_space(b[j]));
                        }
                    }
                    assert(separator_spec(b, Some(space_start)));
                }
                return Some(space_start);
            }
            proof {
                assert forall|j: int|
                    ke <= j && j + 1 < i + 1 implies !(is_space(#[trigger] b[j]) && is_space(
                    b[j + 1],
                )) by {
                    if j + 1 < i - space_count {
                    } else if j + 1 == i {
                    } else if space_count == 1 {
                        assert(j + 1 == i - 1);
                        if j >= ke && j == i - 2 && i - 1 > ke {
                            assert(!is_space(b[j]));
                        }
                    }
                }
            }
            space_count = 0;
        }
        i = i + 1;
    }
    proof {
        assert forall|j: int| ke <= j implies !#[trigger] gap_at(b, j) by {
            if gap_at(b, j) {
                let t = choose|t: int| j + 1 < t < b.len() && !is_space(#[trigger] b[t]);
                if j + 1 < b.len() - space_count {
                } else if j >= b.len() - space_count {
                    assert(is_space(b[t]));
                } else {
                    assert(j == b.len() - space_count - 1);
                    assert(!is_space(b[j]));
                }
            }
        }
    }
    None
}


/// How a path is shown in the title of the file list for a width of
/// `max_len` bytes: whole if it fits, else `...` and its end, else just
/// `...`; one space on each side.
pub open spec fn truncated_path(path: Seq<char>, max_len: int) -> Seq<char> {
    let b = encode_utf8(path);
    if b.len() <= max_len {
        seq![' '] + path + seq![' ']
    } else if max_len > 6 {
        seq![' ', '.', '.', '.'] + decode_utf8(b.subrange(b.len() - (max_len - 4), b.len() as int))
            + seq![' ']
    } else {
        seq![' ', '.', '.', '.', ' ']
    }
}

/// Shortens a path to fit a title. The cut is made in bytes, so it must
/// fall on a character boundary.
pub fn truncate_path(path: &str, max_len: usize) -> (r: String)
    requires
        encode_utf8(path@).len() > max_len > 6 ==> is_char_boundary(
            encode_utf8(path@),
            encode_utf8(path@).len() - (max_len - 4),
        ),
    ensures
        r@ == truncated_path(path@, max_len as int),
{
    let len = path.as_bytes().len();
    let mut r = String::new();
    if len <= max_len {
        push_char(&mut r, ' ');
        append_str(&mut r, path);
        push_char(&mut r, ' ');
        proof {
            assert(r@ =~= truncated_path(path@, max_len as int));
        }
    } else if max_len > 6 {
        let (_, tail) = path.split_at(len - (max_len - 4));
        push_char(&mut r, ' ');
        push_char(&mut r, '.');
        push_char(&mut r, '.');
        push_char(&mut r, '.');
        append_str(&mut r, tail);
        push_char(&mut r, ' ');
        proof {
            vstd::utf8::encode_utf8_decode_utf8(tail@);
            assert(r@ =~= truncated_path(path@, max_len as int));
        }
    } else {
        push_char(&mut r, ' ');
        push_char(&mut r, '.');
        push_char(&mut r, '.');
        push_char(&mut r, '.');
        push_char(&mut r, ' ');
        proof {
            assert(r@ =~= truncated_path(path@, max_len as int));
        }
    }
    r
}

/// `n` spaces.
pub open spec fn spaces(n: int) -> Seq<char> {
    Seq::new(if n > 0 { n as nat } else { 0 }, |i: int| ' ')
}

/// `s` padded with spaces on the right to `w` characters, as `{:<w}` does.
pub open spec fn pad_right(s: Seq<char>, w: int) -> Seq<char> {
    s + spaces(w - s.len())
}

/// `s` padded with spaces on the left to `w` characters, as `{:>w}` does.
pub open spec fn pad_left(s: Seq<char>, w: int) -> Seq<char> {
    spaces(w - s.len()) + s
}

fn push_spaces(s: &mut String, n: usize)
    ensures
        final(s)@ == old(s)@ + spaces(n as int),
{
    let mut i: usize = 0;
    while i < n
        invariant
            i <= n,
            s@ == old(s)@ + spaces(i as int),
        decreases n - i,
    {
        push_char(s, ' ');
        proof {
            assert(spaces(i as int).push(' ') =~= spaces(i + 1));
        }
        i = i + 1;
    }
}

/// Width of the size column of the file list.
pub const SIZE_COLUMN: usize = 8;

/// The name as a row of the file list shows it for `name_max` characters:
/// cut to `name_max - 3` characters and `...` when longer and there is
/// room for more than the dots.
pub open spec fn shown_name(name: Seq<char>, name_max: int) -> Seq<char> {
    if name.len() > name_max && name_max > 3 {
        name.take(name_max - 3) + seq!['.', '.', '.']
    } else {
        name
    }
}

/// A row of the file list `max_width` characters wide: a selection marker,
/// the name padded to its column, a space and the size right-aligned in
/// eight characters.
pub open spec fn entry_row(e: FileEntry, max_width: int, selected: bool) -> Seq<char> {
    let name_max = if max_width >= SIZE_COLUMN + 2 { max_width - (SIZE_COLUMN + 2) } else { 0 };
    let name = if e.is_parent { seq!['.', '.'] } else { e.name@ };
    seq![if selected { '*' } else { ' ' }] + pad_right(shown_name(name, name_max), name_max)
        + seq![' '] + pad_left(size_text(e.entry_type == EntryType::Directory, e.size as nat), SIZE_COLUMN as int)
}

fn shown_name_string(name: &Vec<char>, name_max: usize) -> (r: String)
    ensures
        r@ == shown_name(name@, name_max as int),
{
    if name.len() > name_max && name_max > 3 {
        let mut r = string_from_chars(name, 0, name_max - 3);
        push_char(&mut r, '.');
        push_char(&mut r, '.');
        push_char(&mut r, '.');
        proof {
            assert(name@.subrange(0, name_max - 3) =~= name@.take(name_max - 3));
            assert(r@ =~= shown_name(name@, name_max as int));
        }
        r
    } else {
        let r = string_from_chars(name, 0, name.len());
        proof {
            assert(name@.subrange(0, name@.len() as int) =~= name@);
        }
        r
    }
}

fn push_padded_right(r: &mut String, s: &str, w: usize)
    ensures
        final(r)@ == old(r)@ + pad_right(s@, w as int),
{
    let n = char_count(s);
    append_str(r, s);
    if n < w {
        push_spaces(r, w - n);
    } else {
        push_spaces(r, 0);
        proof {
            assert(spaces(0) =~= spaces(w - n));
        }
    }
    proof {
        assert(final(r)@ =~= old(r)@ + pad_right(s@, w as int));
    }
}

pub(crate) fn push_padded_left(r: &mut String, s: &str, w: usize)
    ensures
        final(r)@ == old(r)@ + pad_left(s@, w as int),
{
    let n = char_count(s);
    if n < w {
        push_spaces(r, w - n);
    } else {
        push_spaces(r, 0);
        proof {
            assert(spaces(0) =~= spaces(w - n));
        }
    }
    append_str(r, s);
    proof {
        assert(final(r)@ =~= old(r)@ + pad_left(s@, w as int));
    }
}

/// Writes one row of the file list.
pub fn format_entry_name(entry: &FileEntry, max_width: usize, selected: bool) -> (r: String)
    ensures
        r@ == entry_row(*entry, max_width as int, selected),
{
    let size_str = entry.display_size();
    let name_max = max_width.saturating_sub(SIZE_COLUMN + 2);
    let name_chars: Vec<char> = if entry.is_parent {
        let mut v = Vec::new();
        v.push('.');
        v.push('.');
        proof {
            assert(v@ =~= seq!['.', '.']);
        }
        v
    } else {
        to_chars(entry.name.as_str())
    };
    let shown = shown_name_string(&name_chars, name_max);
    let mut r = String::new();
    push_char(&mut r, if selected { '*' } else { ' ' });
    push_padded_right(&mut r, shown.as_str(), name_max);
    push_char(&mut r, ' ');
    push_padded_left(&mut r, size_str.as_str(), SIZE_COLUMN);
    proof {
        assert(r@ =~= entry_row(*entry, max_width as int, selected));
    }
    r
}

fn append_chars_range(r: &mut String, v: &Vec<char>, from: usize, to: usize)
    requires
        from <= to <= v.len(),
    ensures
        final(r)@ == old(r)@ + v@.subrange(from as int, to as int),
{
    crate::text::append_chars(r, v, from, to);
}


/// Colour of an entry's name in the list.
#[derive(Debug, Clone, Copy, PartialEq, Eq, Structural)]
pub enum EntryColor {
    Cyan,
    Magenta,
    Yellow,
    Green,
    White,
}

/// Directories cyan, links magenta, archives yellow, executables green,
/// everything else white, in that order of precedence. `exec_mode` is the
/// mode of what the entry points to.
pub fn entry_color(entry: &FileEntry, exec_mode: Option<u32>) -> (c: EntryColor)
    ensures
        c == (if entry.entry_type == EntryType::Directory {
            EntryColor::Cyan
        } else if entry.entry_type == EntryType::Symlink {
            EntryColor::Magenta
        } else if exists|i: int|
            0 <= i < 13 && crate::file_entry::ends_with(
                crate::text::lowercase(entry.name@),
                #[trigger] crate::file_entry::ARCHIVE_EXTS@[i]@,
            ) {
            EntryColor::Yellow
        } else if !entry.is_parent && match exec_mode {
            Some(m) => m & 0o111u32 != 0,
            None => false,
        } {
            EntryColor::Green
        } else {
            EntryColor::White
        }),
{
    if entry.is_dir() {
        EntryColor::Cyan
    } else if entry.is_symlink() {
        EntryColor::Magenta
    } else if entry.is_archive() {
        EntryColor::Yellow
    } else if entry.is_executable(exec_mode) {
        EntryColor::Green
    } else {
        EntryColor::White
    }
}

/// The characters with the Unicode `White_Space` property, the ones
/// `char::is_whitespace` accepts: tab to carriage return, space, next line,
/// no-break space, Ogham space mark, the spaces from en quad to hair space,
/// line and paragraph separator, narrow no-break space, medium mathematical
/// space and ideographic space.
pub open spec fn white(c: char) -> bool {
    let u = c as u32;
    ||| 0x09 <= u <= 0x0d
    ||| u == 0x20 || u == 0x85 || u == 0xa0 || u == 0x1680
    ||| 0x2000 <= u <= 0x200a
    ||| u == 0x2028 || u == 0x2029 || u == 0x202f || u == 0x205f || u == 0x3000
}

/// Whether `c` is white space.
fn is_white(c: char) -> (r: bool)
    ensures
        r == white(c),
{
    let u = c as u32;
    (0x09 <= u && u <= 0x0d) || u == 0x20 || u == 0x85 || u == 0xa0 || u == 0x1680 || (0x2000 <= u && u
        <= 0x200a) || u == 0x2028 || u == 0x2029 || u == 0x202f || u == 0x205f || u == 0x3000
}

/// Index of the first character that is not white space, or the length.
pub open spec fn first_non_white(s: Seq<char>, i: int) -> int
    decreases s.len() - i,
{
    if 0 <= i < s.len() && white(s[i]) {
        first_non_white(s, i + 1)
    } else {
        i
    }
}

fn first_non_white_exec(s: &Vec<char>) -> (k: usize)
    ensures
        k == first_non_white(s@, 0),
{
    let mut i: usize = 0;
    while i < s.len() && is_white(s[i])
        invariant
            i <= s.len(),
            first_non_white(s@, i as int) == first_non_white(s@, 0),
        decreases s.len() - i,
    {
        i = i + 1;
    }
    i
}

/// How a line of the help screen is drawn.
#[derive(Debug, Clone, Copy, PartialEq, Eq, Structural)]
pub enum HelpLineStyle {
    /// A section title in brackets.
    Section,
    /// A line of the frame around the title.
    Border,
    /// A key and its description; the key part ends at the byte given.
    KeyDesc(usize),
    /// An indented line with no description to split off.
    KeyOnly,
    /// A note starting with `*`.
    Note,
    Plain,
}

/// The style of a help line: a section title starts, after white space,
/// with `[` and holds `]`; a frame line holds one of the frame corners or
/// sides; a key line starts with four spaces and is not all white space;
/// a note starts, after white space, with `*`.
pub open spec fn help_style(text: Seq<char>) -> HelpLineStyle {
    let lead = first_non_white(text, 0);
    if lead < text.len() && text[lead] == '[' && text.contains(']') {
        HelpLineStyle::Section
    } else if text.contains('\u{2554}') || text.contains('\u{255a}') || text.contains('\u{2551}') {
        HelpLineStyle::Border
    } else if text.len() >= 4 && text.take(4) == seq![' ', ' ', ' ', ' '] && lead < text.len() {
        let b = encode_utf8(text.skip(4));
        if exists|k: int| key_end(b) <= k && gap_at(b, k) {
            HelpLineStyle::KeyDesc(
                (4 + choose|k: int| key_end(b) <= k && gap_at(b, k) && forall|j: int| key_end(b) <= j < k ==> !#[trigger] gap_at(b, j)) as usize,
            )
        } else {
            HelpLineStyle::KeyOnly
        }
    } else if lead < text.len() && text[lead] == '*' {
        HelpLineStyle::Note
    } else {
        HelpLineStyle::Plain
    }
}


/// The style of a help screen line.
pub fn classify_help_line(text: &str) -> (st: HelpLineStyle)
    ensures
        st == help_style(text@),
{
    let chars = to_chars(text);
    let lead = first_non_white_exec(&chars);
    if lead < chars.len() && chars[lead] == '[' && contains_char(&chars, ']') {
        return HelpLineStyle::Section;
    }
    if contains_char(&chars, '\u{2554}') || contains_char(&chars, '\u{255a}') || contains_char(
        &chars,
        '\u{2551}',
    ) {
        return HelpLineStyle::Border;
    }
    if chars.len() >= 4 && chars[0] == ' ' && chars[1] == ' ' && chars[2] == ' ' && chars[3] == ' '
        && lead < chars.len() {
        proof {
            assert(chars@.take(4) =~= seq![' ', ' ', ' ', ' ']);
        }
        let rest = string_from_chars(&chars, 4, chars.len());
        proof {
            assert(rest@ =~= text@.skip(4));
        }
        let ghost b = encode_utf8(text@.skip(4));
        match find_key_desc_separator(rest.as_str()) {
            Some(k) => {
                proof {
                    let c = choose|k: int|
                        key_end(b) <= k && gap_at(b, k) && forall|j: int|
                            key_end(b) <= j < k ==> !#[trigger] gap_at(b, j);
                    assert(key_end(b) <= k && gap_at(b, k as int) && forall|j: int|
                        key_end(b) <= j < k ==> !#[trigger] gap_at(b, j));
                    if c < k {
                        assert(!gap_at(b, c));
                    }
                    if k < c {
                        assert(!gap_at(b, k as int));
                    }
                    assert(c == k);
                }
                if k <= usize::MAX - 4 {
                    return HelpLineStyle::KeyDesc(4 + k);
                } else {
                    let total = text.as_bytes().len();
                    proof {
                        crate::text::lemma_encode_utf8_concat(text@.take(4), text@.skip(4));
                        assert(text@.take(4) + text@.skip(4) =~= text@);
                        let sp = seq![' ', ' ', ' ', ' '];
                        assert(encode_utf8(sp).len() == 4) by {
                            crate::text::lemma_encode_utf8_concat(seq![' '], seq![' ', ' ', ' ']);
                            crate::text::lemma_encode_utf8_concat(seq![' '], seq![' ', ' ']);
                            crate::text::lemma_encode_utf8_concat(seq![' '], seq![' ']);
                            assert(seq![' '] + seq![' '] =~= seq![' ', ' ']);
                            assert(seq![' '] + seq![' ', ' '] =~= seq![' ', ' ', ' ']);
                            assert(seq![' '] + seq![' ', ' ', ' '] =~= sp);
                            assert(seq![' '].drop_first() =~= Seq::<char>::empty());
                        }
                        assert(false);
                    }
                    return HelpLineStyle::KeyOnly;
                }
            },
            None => {
                return HelpLineStyle::KeyOnly;
            },
        }
    } else {
        proof {
            if chars@.len() >= 4 && chars@.take(4) == seq![' ', ' ', ' ', ' '] {
                assert(chars@[0] == chars@.take(4)[0]);
                assert(chars@[1] == chars@.take(4)[1]);
                assert(chars@[2] == chars@.take(4)[2]);
                assert(chars@[3] == chars@.take(4)[3]);
            }
        }
    }
    if lead < chars.len() && chars[lead] == '*' {
        HelpLineStyle::Note
    } else {
        HelpLineStyle::Plain
    }
}


/// The UTF-8 length of a text of single-byte characters is its length.
proof fn lemma_ascii_len(s: Seq<char>)
    requires
        forall|i: int| 0 <= i < s.len() ==> (#[trigger] s[i] as u32) < 0x80,
    ensures
        encode_utf8(s).len() == s.len(),
    decreases s.len(),
{
    if s.len() > 0 {
        vstd::utf8::char_u32_cast(s[0], s[0] as u32);
        assert forall|i: int| 0 <= i < s.drop_first().len() implies (#[trigger] s.drop_first()[i] as u32) < 0x80 by {
            assert(s.drop_first()[i] == s[i + 1]);
        }
        lemma_ascii_len(s.drop_first());
    }
}

/// A shortened path in the list's title takes at most four bytes more than
/// the room given for it, once that room is at least one byte.
pub proof fn law_title_fits(path: Seq<char>, max_len: int)
    requires
        max_len >= 1,
        encode_utf8(path).len() > max_len > 6 ==> is_char_boundary(
            encode_utf8(path),
            encode_utf8(path).len() - (max_len - 4),
        ),
    ensures
        encode_utf8(truncated_path(path, max_len)).len() <= max_len + 4,
{
    let b = encode_utf8(path);
    let sp = seq![' '];
    lemma_ascii_len(sp);
    if b.len() <= max_len {
        crate::text::lemma_encode_utf8_concat(sp, path);
        crate::text::lemma_encode_utf8_concat(sp + path, sp);
    } else if max_len > 6 {
        let dots = seq![' ', '.', '.', '.'];
        lemma_ascii_len(dots);
        let k = b.len() - (max_len - 4);
        let tail = b.subrange(k, b.len() as int);
        vstd::utf8::encode_utf8_valid_utf8(path);
        vstd::utf8::valid_utf8_split(b, k);
        vstd::utf8::decode_utf8_encode_utf8(tail);
        let d = decode_utf8(tail);
        crate::text::lemma_encode_utf8_concat(dots, d);
        crate::text::lemma_encode_utf8_concat(dots + d, sp);
    } else {
        lemma_ascii_len(seq![' ', '.', '.', '.', ' ']);
    }
}
} // verus!
