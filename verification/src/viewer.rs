//! The built-in read-only viewer: scrolling through a file's lines and
//! searching them.

use vstd::prelude::*;
use crate::nav::{
    scroll_down_one, scroll_page_down, saturating_sub, page_back, up_of, scroll_down_of,
    scroll_page_down_of, saturating_sub_of, page_back_of,
};
use crate::text::{to_lowercase, lowercase, to_chars, contains_sub, contains_chars, copy_string};
use crate::editor::text_of;

verus! {

/// Line `i` holds the query, both compared in lowercase.
pub open spec fn line_hit(lines: Seq<Seq<char>>, query: Seq<char>, i: int) -> bool {
    contains_sub(lowercase(lines[i]), lowercase(query))
}

/// The numbers of the lines among the first `n` that hold the query, in
/// increasing order.
pub open spec fn hits_upto(lines: Seq<Seq<char>>, query: Seq<char>, n: int) -> Seq<usize>
    decreases n,
{
    if n <= 0 {
        Seq::empty()
    } else if line_hit(lines, query, n - 1) {
        hits_upto(lines, query, n - 1).push((n - 1) as usize)
    } else {
        hits_upto(lines, query, n - 1)
    }
}

/// The numbers of all lines that hold the query.
pub open spec fn hits(lines: Seq<Seq<char>>, query: Seq<char>) -> Seq<usize> {
    hits_upto(lines, query, lines.len() as int)
}

/// State of the viewer.
pub struct ViewerState {
    pub filename: String,
    pub lines: Vec<String>,
    pub scroll: usize,
    pub search_query: Option<String>,
    pub search_matches: Vec<usize>,
    pub current_match: usize,
}

impl ViewerState {
    /// The match pointer designates a match whenever there is one.
    pub open spec fn wf(&self) -> bool {
        self.search_matches@.len() == 0 || self.current_match < self.search_matches@.len()
    }

    /// A viewer on `lines`, at the top, with no search.
    pub fn new(filename: String, lines: Vec<String>) -> (v: ViewerState)
        ensures
            v.filename == filename,
            v.lines == lines,
            v.scroll == 0,
            v.search_query is None,
            v.search_matches@.len() == 0,
            v.current_match == 0,
            v.wf(),
    {
        ViewerState {
            filename,
            lines,
            scroll: 0,
            search_query: None,
            search_matches: Vec::new(),
            current_match: 0,
        }
    }

    /// Everything except the scroll position is as in `old`.
    pub open spec fn only_scroll_changed(&self, old: &ViewerState) -> bool {
        &&& self.filename == old.filename
        &&& self.lines == old.lines
        &&& self.search_query == old.search_query
        &&& self.search_matches == old.search_matches
        &&& self.current_match == old.current_match
    }

    /// Up arrow: one line up.
    pub fn scroll_up(&mut self)
        ensures
            final(self).scroll == up_of(old(self).scroll as int),
            final(self).only_scroll_changed(old(self)),
    {
        self.scroll = self.scroll.saturating_sub(1);
    }

    /// Down arrow: one line down while the window is not at the end.
    pub fn scroll_down(&mut self, visible: usize)
        ensures
            final(self).scroll == scroll_down_of(
                old(self).scroll as int,
                visible as int,
                old(self).lines@.len() as int,
            ),
            final(self).only_scroll_changed(old(self)),
    {
        self.scroll = scroll_down_one(self.scroll, visible, self.lines.len());
    }

    /// Page Up.
    pub fn page_up(&mut self, visible: usize)
        ensures
            final(self).scroll == page_back_of(old(self).scroll as int, visible as int),
            final(self).only_scroll_changed(old(self)),
    {
        self.scroll = page_back(self.scroll, visible);
    }

    /// Page Down, not past the last full window.
    pub fn page_down(&mut self, visible: usize)
        ensures
            final(self).scroll == scroll_page_down_of(
                old(self).scroll as int,
                visible as int,
                old(self).lines@.len() as int,
            ),
            final(self).only_scroll_changed(old(self)),
    {
        self.scroll = scroll_page_down(self.scroll, visible, self.lines.len());
    }

    /// Home: the first line on top.
    pub fn scroll_home(&mut self)
        ensures
            final(self).scroll == 0,
            final(self).only_scroll_changed(old(self)),
    {
        self.scroll = 0;
    }

    /// End: the last full window.
    pub fn scroll_end(&mut self, visible: usize)
        ensures
            final(self).scroll == saturating_sub_of(old(self).lines@.len() as int, visible as int),
            final(self).only_scroll_changed(old(self)),
    {
        self.scroll = saturating_sub(self.lines.len(), visible);
    }

    /// `n`: to the next match, after the last one back to the first.
    pub fn next_match(&mut self)
        requires
            old(self).wf(),
        ensures
            old(self).search_matches@.len() == 0 ==> *final(self) == *old(self),
            old(self).search_matches@.len() > 0 ==> {
                &&& final(self).current_match == (old(self).current_match + 1)
                    % old(self).search_matches@.len() as int
                &&& final(self).scroll == old(self).search_matches@[final(self).current_match as int]
                &&& final(self).filename == old(self).filename
                &&& final(self).lines == old(self).lines
                &&& final(self).search_query == old(self).search_query
                &&& final(self).search_matches == old(self).search_matches
            },
            final(self).wf(),
    {
        if self.search_matches.len() > 0 {
            self.current_match = (self.current_match + 1) % self.search_matches.len();
            self.scroll = self.search_matches[self.current_match];
        }
    }

    /// `N`: to the previous match, before the first one to the last.
    pub fn prev_match(&mut self)
        requires
            old(self).wf(),
        ensures
            old(self).search_matches@.len() == 0 ==> *final(self) == *old(self),
            old(self).search_matches@.len() > 0 ==> {
                &&& final(self).current_match == (if old(self).current_match == 0 {
                    old(self).search_matches@.len() - 1
                } else {
                    old(self).current_match - 1
                })
                &&& final(self).scroll == old(self).search_matches@[final(self).current_match as int]
                &&& final(self).filename == old(self).filename
                &&& final(self).lines == old(self).lines
                &&& final(self).search_query == old(self).search_query
                &&& final(self).search_matches == old(self).search_matches
            },
            final(self).wf(),
    {
        if self.search_matches.len() > 0 {
            if self.current_match == 0 {
                self.current_match = self.search_matches.len() - 1;
            } else {
                self.current_match = self.current_match - 1;
            }
            self.scroll = self.search_matches[self.current_match];
        }
    }

    /// Searches all lines for `query`, ignoring case. An empty query clears
    /// the search; otherwise the matches are the numbers of the lines that
    /// hold the query, and the view jumps to the first of them.
    pub fn search(&mut self, query: &str)
        ensures
            final(self).filename == old(self).filename,
            final(self).lines == old(self).lines,
            final(self).current_match == 0,
            final(self).wf(),
            query@.len() == 0 ==> {
                &&& final(self).search_query is None
                &&& final(self).search_matches@.len() == 0
                &&& final(self).scroll == old(self).scroll
            },
            query@.len() > 0 ==> {
                &&& final(self).search_query matches Some(q) && q@ == query@
                &&& final(self).search_matches@ == hits(text_of(old(self).lines@), query@)
                &&& final(self).scroll == (if final(self).search_matches@.len() > 0 {
                    final(self).search_matches@[0] as int
                } else {
                    old(self).scroll as int
                })
            },
    {
        if query.is_empty() {
            self.search_query = None;
            self.search_matches = Vec::new();
            self.current_match = 0;
            return;
        }
        let lower_query = to_lowercase(query);
        let qchars = to_chars(lower_query.as_str());
        let ghost t = text_of(self.lines@);
        let mut matches: Vec<usize> = Vec::new();
        let mut i: usize = 0;
        while i < self.lines.len()
            invariant
                t == text_of(self.lines@),
                qchars@ == lowercase(query@),
                i <= self.lines@.len(),
                matches@ == hits_upto(t, query@, i as int),
            decreases self.lines@.len() - i,
        {
            let lower_line = to_lowercase(self.lines[i].as_str());
            let lchars = to_chars(lower_line.as_str());
            proof {
                assert(t[i as int] == self.lines@[i as int]@);
            }
            if contains_chars(&lchars, &qchars) {
                matches.push(i);
            }
            i = i + 1;
        }
        self.search_query = Some(copy_string_from_str(query));
        self.search_matches = matches;
        self.current_match = 0;
        if self.search_matches.len() > 0 {
            self.scroll = self.search_matches[0];
        }
    }
}

/// A new `String` holding `s`.
fn copy_string_from_str(s: &str) -> (r: String)
    ensures
        r@ == s@,
{
    let mut r = String::new();
    crate::text::append_str(&mut r, s);
    r
}

/// Every match is the number of a line that holds the query; the numbers
/// are increasing; and every line that holds the query is among them.
pub proof fn law_hits_exact(lines: Seq<Seq<char>>, query: Seq<char>, n: int)
    requires
        0 <= n <= lines.len(),
        n <= usize::MAX,
    ensures
        forall|k: int|
            0 <= k < hits_upto(lines, query, n).len() ==> {
                let i = #[trigger] hits_upto(lines, query, n)[k] as int;
                0 <= i < n && line_hit(lines, query, i)
            },
        forall|k1: int, k2: int|
            0 <= k1 < k2 < hits_upto(lines, query, n).len() ==> hits_upto(lines, query, n)[k1]
                < hits_upto(lines, query, n)[k2],
        forall|i: int|
            0 <= i < n && line_hit(lines, query, i) ==> hits_upto(lines, query, n).contains(
                i as usize,
            ),
    decreases n,
{
    if n > 0 {
        law_hits_exact(lines, query, n - 1);
        let prev = hits_upto(lines, query, n - 1);
        if line_hit(lines, query, n - 1) {
            let cur = prev.push((n - 1) as usize);
            assert(cur == hits_upto(lines, query, n));
            assert forall|k: int| 0 <= k < cur.len() implies {
                let i = #[trigger] cur[k] as int;
                0 <= i < n && line_hit(lines, query, i)
            } by {
                if k < prev.len() {
                    assert(cur[k] == prev[k]);
                }
            }
            assert forall|k1: int, k2: int| 0 <= k1 < k2 < cur.len() implies cur[k1] < cur[k2] by {
                if k2 < prev.len() {
                    assert(cur[k1] == prev[k1]);
                    assert(cur[k2] == prev[k2]);
                } else {
                    assert(cur[k1] == prev[k1]);
                    assert(0 <= prev[k1] < n - 1);
                }
            }
            assert forall|i: int| 0 <= i < n && line_hit(lines, query, i) implies cur.contains(
                i as usize,
            ) by {
                if i < n - 1 {
                    let k = choose|k: int| 0 <= k < prev.len() && prev[k] == i as usize;
                    assert(cur[k] == i as usize);
                } else {
                    assert(cur[prev.len() as int] == i as usize);
                }
            }
        }
    }
}

/// Going to the next match and back to the previous one returns to the same
/// match.
pub proof fn law_next_then_prev(len: int, current: int)
    requires
        0 <= current < len,
    ensures
        ({
            let next = (current + 1) % len;
            let back = if next == 0 { len - 1 } else { next - 1 };
            back == current
        }),
{
    if current + 1 < len {
        assert((current + 1) % len == current + 1) by (nonlinear_arith)
            requires
                0 <= current + 1 < len,
        ;
    } else {
        assert((current + 1) % len == 0) by (nonlinear_arith)
            requires
                current + 1 == len,
                len > 0,
        ;
    }
}

/// A line holds the query exactly when the query in lowercase occurs, as a
/// run of consecutive characters, in the line in lowercase.
pub proof fn law_line_hit_meaning(lines: Seq<Seq<char>>, query: Seq<char>, i: int)
    ensures
        ({
            let l = lowercase(lines[i]);
            let q = lowercase(query);
            line_hit(lines, query, i) <==> exists|k: int|
                0 <= k && k + q.len() <= l.len() && #[trigger] l.subrange(k, k + q.len()) == q
        }),
{
}

/// Case plays no part in a search: lines, and queries, that are the same in
/// lowercase give the same matches.
pub proof fn law_search_ignores_case(
    lines1: Seq<Seq<char>>,
    lines2: Seq<Seq<char>>,
    q1: Seq<char>,
    q2: Seq<char>,
    n: int,
)
    requires
        lines1.len() == lines2.len(),
        forall|i: int| 0 <= i < lines1.len() ==> lowercase(#[trigger] lines1[i]) == lowercase(lines2[i]),
        lowercase(q1) == lowercase(q2),
        0 <= n <= lines1.len(),
    ensures
        hits_upto(lines1, q1, n) == hits_upto(lines2, q2, n),
    decreases n,
{
    if n > 0 {
        law_search_ignores_case(lines1, lines2, q1, q2, n - 1);
        assert(lowercase(lines1[n - 1]) == lowercase(lines2[n - 1]));
        assert(line_hit(lines1, q1, n - 1) == line_hit(lines2, q2, n - 1));
    }
}

} // verus!
