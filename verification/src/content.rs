//! File contents as the viewer and the editor see them: binary detection,
//! decoding, splitting into lines and joining them back for saving.

use vstd::prelude::*;
use crate::text::{to_chars, push_char, string_from_chars, append_str};

verus! {

/// How many leading bytes are checked for a NUL byte.
pub const BINARY_PROBE_LEN: usize = 512;

/// A file counts as binary when a NUL byte occurs among its first 512 bytes.
pub open spec fn looks_binary(b: Seq<u8>) -> bool {
    exists|i: int| 0 <= i < b.len() && i < BINARY_PROBE_LEN && #[trigger] b[i] == 0u8
}

/// Whether the file contents look binary.
pub fn is_binary(bytes: &Vec<u8>) -> (r: bool)
    ensures
        r == looks_binary(bytes@),
{
    let check_len = if bytes.len() < BINARY_PROBE_LEN { bytes.len() } else { BINARY_PROBE_LEN };
    let mut i: usize = 0;
    while i < check_len
        invariant
            check_len <= bytes.len(),
            check_len <= BINARY_PROBE_LEN,
            check_len == bytes.len() || check_len == BINARY_PROBE_LEN,
            i <= check_len,
            forall|j: int| 0 <= j < i ==> bytes@[j] != 0u8,
        decreases check_len - i,
    {
        if bytes[i] == 0u8 {
            return true;
        }
        i = i + 1;
    }
    false
}

/// What `String::from_utf8_lossy` gives for some bytes: the decoded text,
/// with each invalid sequence replaced by U+FFFD.
pub uninterp spec fn lossy_text(b: Seq<u8>) -> Seq<char>;

/// Calls `String::from_utf8_lossy`. As its documentation states, valid UTF-8
/// comes back decoded as it is, and every invalid sequence becomes one
/// U+FFFD, so the text is empty exactly when the bytes are.
#[verifier::external_body]
pub(crate) fn decode_lossy(bytes: &Vec<u8>) -> (s: String)
    ensures
        s@ == lossy_text(bytes@),
        vstd::utf8::valid_utf8(bytes@) ==> s@ == vstd::utf8::decode_utf8(bytes@),
        s@.len() == 0 <==> bytes@.len() == 0,
{
    String::from_utf8_lossy(bytes.as_slice()).into_owned()
}

/// A line without its line break: a `\r` that ended the line goes too.
pub open spec fn strip_cr(line: Seq<char>) -> Seq<char> {
    if line.len() > 0 && line.last() == '\r' {
        line.drop_last()
    } else {
        line
    }
}

/// The lines of `s[i..]`, given the part `cur` of the current line read so
/// far and the lines `acc` already complete. A line ends at `\n` (the `\n`
/// and a `\r` right before it are dropped); a last line without `\n` is
/// kept as it is; a `\n` at the very end starts no further line.
pub open spec fn lines_from(s: Seq<char>, i: int, cur: Seq<char>, acc: Seq<Seq<char>>) -> Seq<
    Seq<char>,
>
    decreases s.len() - i,
{
    if i < 0 || i >= s.len() {
        if cur.len() > 0 {
            acc.push(cur)
        } else {
            acc
        }
    } else if s[i] == '\n' {
        lines_from(s, i + 1, Seq::empty(), acc.push(strip_cr(cur)))
    } else {
        lines_from(s, i + 1, cur.push(s[i]), acc)
    }
}

/// The lines of a text, as `str::lines` splits it.
pub open spec fn lines_of(s: Seq<char>) -> Seq<Seq<char>> {
    lines_from(s, 0, Seq::empty(), Seq::empty())
}

proof fn lemma_lines_from_grows(s: Seq<char>, i: int, cur: Seq<char>, acc: Seq<Seq<char>>)
    requires
        0 <= i,
    ensures
        lines_from(s, i, cur, acc).len() >= acc.len(),
        (cur.len() > 0 || i < s.len()) ==> lines_from(s, i, cur, acc).len() > acc.len(),
    decreases s.len() - i,
{
    if i < s.len() {
        if s[i] == '\n' {
            lemma_lines_from_grows(s, i + 1, Seq::empty(), acc.push(strip_cr(cur)));
        } else {
            lemma_lines_from_grows(s, i + 1, cur.push(s[i]), acc);
        }
    }
}

/// A text that is not empty has at least one line.
pub proof fn lemma_nonempty_text_has_lines(s: Seq<char>)
    ensures
        s.len() > 0 ==> lines_of(s).len() > 0,
{
    lemma_lines_from_grows(s, 0, Seq::empty(), Seq::empty());
}

/// Splits a text into lines as `str::lines` does.
pub fn split_lines(s: &str) -> (lines: Vec<String>)
    ensures
        lines@.map_values(|l: String| l@) == lines_of(s@),
{
    let chars = to_chars(s);
    let mut lines: Vec<String> = Vec::new();
    let mut cur = String::new();
    let mut i: usize = 0;
    proof {
        assert(lines@.map_values(|l: String| l@) =~= Seq::<Seq<char>>::empty());
    }
    while i < chars.len()
        invariant
            chars@ == s@,
            i <= chars.len(),
            lines_from(s@, i as int, cur@, lines@.map_values(|l: String| l@)) == lines_of(s@),
        decreases chars.len() - i,
    {
        let c = chars[i];
        if c == '\n' {
            let n = to_chars(cur.as_str());
            let line = if n.len() > 0 && n[n.len() - 1] == '\r' {
                string_from_chars(&n, 0, n.len() - 1)
            } else {
                string_from_chars(&n, 0, n.len())
            };
            proof {
                assert(n@.subrange(0, n@.len() - 1) =~= n@.drop_last());
                assert(n@.subrange(0, n@.len() as int) =~= n@);
                assert(line@ == strip_cr(cur@));
            }
            let ghost before = lines@;
            lines.push(line);
            proof {
                assert(lines@.map_values(|l: String| l@) =~= before.map_values(|l: String| l@).push(
                    strip_cr(cur@),
                ));
            }
            cur = String::new();
        } else {
            push_char(&mut cur, c);
        }
        i = i + 1;
    }
    let n = to_chars(cur.as_str());
    if n.len() > 0 {
        let ghost before = lines@;
        lines.push(cur);
        proof {
            assert(lines@.map_values(|l: String| l@) =~= before.map_values(|l: String| l@).push(
                n@,
            ));
        }
    }
    lines
}

/// The lines put back together for saving, each followed by `\n`.
pub open spec fn joined_lines(t: Seq<Seq<char>>) -> Seq<char>
    decreases t.len(),
{
    if t.len() == 0 {
        Seq::empty()
    } else {
        joined_lines(t.drop_last()) + t.last() + seq!['\n']
    }
}

/// The file contents the editor writes for its lines.
pub fn join_lines(lines: &Vec<String>) -> (s: String)
    ensures
        s@ == joined_lines(lines@.map_values(|l: String| l@)),
{
    let mut s = String::new();
    let mut i: usize = 0;
    while i < lines.len()
        invariant
            i <= lines.len(),
            s@ == joined_lines(lines@.take(i as int).map_values(|l: String| l@)),
        decreases lines.len() - i,
    {
        let ghost t = lines@.take(i + 1).map_values(|l: String| l@);
        append_str(&mut s, lines[i].as_str());
        push_char(&mut s, '\n');
        proof {
            assert(t.drop_last() =~= lines@.take(i as int).map_values(|l: String| l@));
        }
        i = i + 1;
    }
    proof {
        assert(lines@.take(lines@.len() as int) =~= lines@);
    }
    s
}


/// No line holds a line break, and none ends with a carriage return.
pub open spec fn plain_lines(t: Seq<Seq<char>>) -> bool {
    forall|k: int| 0 <= k < t.len() ==> !(#[trigger] t[k]).contains('\n') && !(t[k].len() > 0 && t[k].last() == '\r')
}

/// Reading a line `line` that starts at `i` and is ended by `\n` adds it to
/// the lines read so far and goes on after the `\n`.
proof fn lemma_read_line(s: Seq<char>, i: int, cur: Seq<char>, acc: Seq<Seq<char>>, line: Seq<char>)
    requires
        0 <= i,
        i + line.len() < s.len(),
        s.subrange(i, i + line.len()) == line,
        !line.contains('\n'),
        s[i + line.len()] == '\n',
    ensures
        lines_from(s, i, cur, acc) == lines_from(s, i + line.len() + 1, Seq::empty(), acc.push(strip_cr(cur + line))),
    decreases line.len(),
{
    if line.len() == 0 {
        assert(cur + line =~= cur);
    } else {
        assert(s[i] == s.subrange(i, i + line.len())[0]);
        assert(line[0] != '\n') by {
            if line[0] == '\n' {
                assert(line.contains('\n'));
            }
        }
        let rest = line.drop_first();
        assert(s.subrange(i + 1, i + 1 + rest.len()) =~= rest) by {
            assert forall|m: int| 0 <= m < rest.len() implies s.subrange(i + 1, i + 1 + rest.len())[m] == rest[m] by {
                assert(s.subrange(i, i + line.len())[m + 1] == line[m + 1]);
            }
        }
        assert(!rest.contains('\n')) by {
            if rest.contains('\n') {
                let m = choose|m: int| 0 <= m < rest.len() && rest[m] == '\n';
                assert(line[m + 1] == '\n');
                assert(line.contains('\n'));
            }
        }
        lemma_read_line(s, i + 1, cur.push(line[0]), acc, rest);
        assert(cur.push(line[0]) + rest =~= cur + line);
    }
}

/// The text of the first `k` lines is the start of the text of them all.
proof fn lemma_joined_prefix(t: Seq<Seq<char>>, k: int)
    requires
        0 <= k <= t.len(),
    ensures
        joined_lines(t.take(k)).len() <= joined_lines(t).len(),
        joined_lines(t).take(joined_lines(t.take(k)).len() as int) == joined_lines(t.take(k)),
    decreases t.len(),
{
    if k == t.len() {
        assert(t.take(k) =~= t);
        assert(joined_lines(t).take(joined_lines(t).len() as int) =~= joined_lines(t));
    } else {
        let d = t.drop_last();
        lemma_joined_prefix(d, k);
        assert(d.take(k) =~= t.take(k));
        let a = joined_lines(d);
        let b = joined_lines(t.take(k));
        assert(joined_lines(t) == a + t.last() + seq!['\n']);
        assert(joined_lines(t).take(b.len() as int) =~= a.take(b.len() as int));
    }
}

/// Reading on from the end of the first `k` lines of a saved text gives
/// back all the lines.
proof fn lemma_lines_rest(t: Seq<Seq<char>>, k: int)
    requires
        plain_lines(t),
        0 <= k <= t.len(),
    ensures
        lines_from(joined_lines(t), joined_lines(t.take(k)).len() as int, Seq::empty(), t.take(k)) == t,
    decreases t.len() - k,
{
    let s = joined_lines(t);
    let p = joined_lines(t.take(k)).len() as int;
    if k == t.len() {
        assert(t.take(k) =~= t);
    } else {
        lemma_joined_prefix(t, k + 1);
        let q = joined_lines(t.take(k + 1));
        assert(t.take(k + 1).drop_last() =~= t.take(k));
        assert(t.take(k + 1).last() == t[k]);
        assert(q == joined_lines(t.take(k)) + t[k] + seq!['\n']);
        let line = t[k];
        assert(s.take(q.len() as int) == q);
        assert(s.subrange(p, p + line.len()) =~= line) by {
            assert forall|m: int| 0 <= m < line.len() implies s.subrange(p, p + line.len())[m] == line[m] by {
                assert(s.take(q.len() as int)[p + m] == q[p + m]);
            }
        }
        assert(s[p + line.len()] == '\n') by {
            assert(s.take(q.len() as int)[p + line.len()] == q[p + line.len()]);
        }
        assert(!line.contains('\n'));
        lemma_read_line(s, p, Seq::empty(), t.take(k), line);
        assert(Seq::<char>::empty() + line =~= line);
        assert(strip_cr(line) == line);
        assert(t.take(k).push(line) =~= t.take(k + 1));
        assert(q.len() == p + line.len() + 1);
        lemma_lines_rest(t, k + 1);
    }
}

/// Lines saved by the editor split back into the same lines, as long as no
/// line holds a line break or ends with a carriage return.
pub proof fn law_saved_lines_read_back(t: Seq<Seq<char>>)
    requires
        plain_lines(t),
    ensures
        lines_of(joined_lines(t)) == t,
{
    assert(t.take(0) =~= Seq::<Seq<char>>::empty());
    lemma_lines_rest(t, 0);
}
} // verus!
