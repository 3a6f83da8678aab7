//! Case-insensitive file name matching with `*` and `?` wildcards.

use vstd::prelude::*;
use crate::text::{to_chars, to_lowercase, lowercase, contains_sub, contains_chars, contains_char};

verus! {

/// `*`: matches any run of characters, the empty run included.
pub open spec fn is_star(c: char) -> bool {
    c == '*'
}

/// `?`: matches exactly one character.
pub open spec fn is_any(c: char) -> bool {
    c == '?'
}

/// `p[i..]` matches `n[j..]`, where `*` in the pattern stands for any run of
/// characters and `?` for any single character; every other pattern
/// character stands for itself.
pub open spec fn glob_from(p: Seq<char>, n: Seq<char>, i: int, j: int) -> bool
    decreases p.len() - i, n.len() - j,
{
    if i < 0 || j < 0 {
        false
    } else if i >= p.len() {
        j == n.len()
    } else if is_star(p[i]) {
        glob_from(p, n, i + 1, j) || (j < n.len() && glob_from(p, n, i, j + 1))
    } else if j >= n.len() {
        false
    } else if is_any(p[i]) || p[i] == n[j] {
        glob_from(p, n, i + 1, j + 1)
    } else {
        false
    }
}

/// The whole pattern matches the whole name.
pub open spec fn glob_chars(p: Seq<char>, n: Seq<char>) -> bool {
    glob_from(p, n, 0, 0)
}

/// `p[a..b]` holds no `*` and matches `n[c..c + (b - a)]` character by
/// character.
pub open spec fn seg_match(p: Seq<char>, n: Seq<char>, a: int, b: int, c: int) -> bool {
    &&& 0 <= a <= b <= p.len()
    &&& 0 <= c
    &&& c + (b - a) <= n.len()
    &&& forall|t: int|
        a <= t < b ==> !is_star(#[trigger] p[t]) && (is_any(p[t]) || p[t] == n[c + t - a])
}

proof fn lemma_match_bounded(p: Seq<char>, n: Seq<char>, i: int, j: int)
    requires
        glob_from(p, n, i, j),
    ensures
        0 <= j <= n.len(),
    decreases p.len() - i, n.len() - j,
{
    if i >= p.len() {
    } else if is_star(p[i]) {
        if glob_from(p, n, i + 1, j) {
            lemma_match_bounded(p, n, i + 1, j);
        }
    } else {
    }
}

proof fn lemma_seg_forced(p: Seq<char>, n: Seq<char>, a: int, b: int, c: int)
    requires
        seg_match(p, n, a, b, c),
    ensures
        glob_from(p, n, a, c) == glob_from(p, n, b, c + (b - a)),
    decreases b - a,
{
    if a < b {
        assert(!is_star(p[a]) && (is_any(p[a]) || p[a] == n[c]));
        assert(seg_match(p, n, a + 1, b, c + 1)) by {
            assert forall|t: int| a + 1 <= t < b implies !is_star(#[trigger] p[t]) && (is_any(p[t])
                || p[t] == n[(c + 1) + t - (a + 1)]) by {
                assert(a <= t < b);
            }
        }
        lemma_seg_forced(p, n, a + 1, b, c + 1);
    }
}

proof fn lemma_seg_prefix(p: Seq<char>, n: Seq<char>, a: int, b: int, k: int)
    requires
        0 <= a <= b <= p.len(),
        forall|t: int| a <= t < b ==> !is_star(#[trigger] p[t]),
        glob_from(p, n, a, k),
    ensures
        k + (b - a) <= n.len(),
        glob_from(p, n, b, k + (b - a)),
    decreases b - a,
{
    lemma_match_bounded(p, n, a, k);
    if a < b {
        assert(!is_star(p[a]));
        lemma_seg_prefix(p, n, a + 1, b, k + 1);
    }
}

proof fn lemma_star_witness(p: Seq<char>, n: Seq<char>, s: int, j: int) -> (k: int)
    requires
        0 <= s < p.len(),
        is_star(p[s]),
        glob_from(p, n, s, j),
    ensures
        j <= k <= n.len(),
        glob_from(p, n, s + 1, k),
    decreases n.len() - j,
{
    lemma_match_bounded(p, n, s, j);
    if glob_from(p, n, s + 1, j) {
        j
    } else {
        lemma_star_witness(p, n, s, j + 1)
    }
}

proof fn lemma_star_monotone(p: Seq<char>, n: Seq<char>, i: int, j: int, j2: int)
    requires
        0 <= i < p.len(),
        is_star(p[i]),
        0 <= j <= j2,
        glob_from(p, n, i, j2),
    ensures
        glob_from(p, n, i, j),
    decreases j2 - j,
{
    lemma_match_bounded(p, n, i, j2);
    if j < j2 {
        lemma_star_monotone(p, n, i, j + 1, j2);
    }
}

proof fn lemma_tail_stars(p: Seq<char>, n: Seq<char>, i: int)
    requires
        0 <= i <= p.len(),
    ensures
        glob_from(p, n, i, n.len() as int) == (forall|t: int| i <= t < p.len() ==> is_star(
            #[trigger] p[t],
        )),
    decreases p.len() - i,
{
    if i < p.len() {
        lemma_tail_stars(p, n, i + 1);
        if is_star(p[i]) {
            assert forall|t: int| i <= t < p.len() && (forall|u: int|
                i + 1 <= u < p.len() ==> is_star(#[trigger] p[u])) implies is_star(
                #[trigger] p[t],
            ) by {
                if t > i {
                    assert(i + 1 <= t < p.len());
                }
            }
        }
    }
}

/// Wildcard matching over characters: `*` matches any run of characters,
/// `?` any single character. Runs in one pass with one backtracking point,
/// the most recent `*`.
pub fn glob_match_inner(pattern: &[char], name: &[char]) -> (r: bool)
    ensures
        r == glob_chars(pattern@, name@),
{
    let ghost p = pattern@;
    let ghost n = name@;
    let mut pi: usize = 0;
    let mut ni: usize = 0;
    let mut star_pi: usize = usize::MAX;
    let mut star_ni: usize = 0;

    while ni < name.len()
        invariant
            p == pattern@,
            n == name@,
            pi <= p.len(),
            ni <= n.len(),
            star_ni <= ni,
            star_pi == usize::MAX ==> glob_chars(p, n) == glob_from(p, n, pi as int, ni as int),
            star_pi != usize::MAX ==> {
                &&& star_pi < pi
                &&& is_star(p[star_pi as int])
                &&& seg_match(p, n, star_pi + 1, pi as int, star_ni as int)
                &&& ni - star_ni == pi - star_pi - 1
                &&& glob_chars(p, n) == glob_from(p, n, star_pi as int, star_ni as int)
            },
        decreases n.len() + 1 - star_ni, p.len() + n.len() - pi - ni,
    {
        if pi < pattern.len() && pattern[pi] == '?' {
            proof {
                if star_pi != usize::MAX {
                    assert(seg_match(p, n, star_pi + 1, pi + 1, star_ni as int)) by {
                        assert forall|t: int| star_pi + 1 <= t < pi + 1 implies !is_star(
                            #[trigger] p[t],
                        ) && (is_any(p[t]) || p[t] == n[star_ni + t - (star_pi + 1)]) by {
                            if t < pi {
                                assert(star_pi + 1 <= t < pi);
                            }
                        }
                    }
                }
            }
            pi = pi + 1;
            ni = ni + 1;
        } else if pi < pattern.len() && pattern[pi] == '*' {
            proof {
                if star_pi != usize::MAX {
                    let s = star_pi as int;
                    let sn = star_ni as int;
                    lemma_seg_forced(p, n, s + 1, pi as int, sn);
                    if glob_from(p, n, s, sn) {
                        let k = lemma_star_witness(p, n, s, sn);
                        lemma_seg_prefix(p, n, s + 1, pi as int, k);
                        lemma_star_monotone(p, n, pi as int, ni as int, k + (pi - (s + 1)));
                    }
                }
            }
            star_pi = pi;
            star_ni = ni;
            pi = pi + 1;
        } else if pi < pattern.len() && pattern[pi] == name[ni] {
            proof {
                if star_pi != usize::MAX {
                    assert(seg_match(p, n, star_pi + 1, pi + 1, star_ni as int)) by {
                        assert forall|t: int| star_pi + 1 <= t < pi + 1 implies !is_star(
                            #[trigger] p[t],
                        ) && (is_any(p[t]) || p[t] == n[star_ni + t - (star_pi + 1)]) by {
                            if t < pi {
                                assert(star_pi + 1 <= t < pi);
                            }
                        }
                    }
                }
            }
            pi = pi + 1;
            ni = ni + 1;
        } else if star_pi != usize::MAX {
            proof {
                let s = star_pi as int;
                let sn = star_ni as int;
                lemma_seg_forced(p, n, s + 1, pi as int, sn);
                assert(!glob_from(p, n, pi as int, ni as int));
                assert(glob_from(p, n, s, sn) == glob_from(p, n, s, sn + 1));
            }
            pi = star_pi + 1;
            star_ni = star_ni + 1;
            ni = star_ni;
            proof {
                assert(seg_match(p, n, star_pi + 1, pi as int, star_ni as int));
            }
        } else {
            return false;
        }
    }

    proof {
        if star_pi != usize::MAX {
            let s = star_pi as int;
            let sn = star_ni as int;
            lemma_seg_forced(p, n, s + 1, pi as int, sn);
            if glob_from(p, n, s, sn) {
                let k = lemma_star_witness(p, n, s, sn);
                lemma_seg_prefix(p, n, s + 1, pi as int, k);
            }
        }
        assert(glob_chars(p, n) == glob_from(p, n, pi as int, n.len() as int));
    }

    while pi < pattern.len() && pattern[pi] == '*'
        invariant
            p == pattern@,
            n == name@,
            pi <= p.len(),
            glob_chars(p, n) == glob_from(p, n, pi as int, n.len() as int),
        decreases p.len() - pi,
    {
        pi = pi + 1;
    }
    proof {
        lemma_tail_stars(p, n, pi as int);
    }
    pi == pattern.len()
}

} // verus!

verus! {

/// What `glob_match` decides for a pattern and a name, both compared in
/// lowercase: a pattern without `*` and `?` matches every name that holds
/// it; any other pattern must match the whole name, `?` standing for one
/// character and `*` for any run of them.
pub open spec fn glob_spec(pattern: Seq<char>, name: Seq<char>) -> bool {
    let p = lowercase(pattern);
    let n = lowercase(name);
    if !p.contains('*') && !p.contains('?') {
        contains_sub(n, p)
    } else {
        glob_chars(p, n)
    }
}

/// Case-insensitive match of a file name against a search pattern.
pub fn glob_match(pattern: &str, name: &str) -> (r: bool)
    ensures
        r == glob_spec(pattern@, name@),
{
    let lower_pattern = to_lowercase(pattern);
    let lower_name = to_lowercase(name);
    let pchars = to_chars(lower_pattern.as_str());
    if !contains_char(&pchars, '*') && !contains_char(&pchars, '?') {
        let nchars = to_chars(lower_name.as_str());
        return contains_chars(&nchars, &pchars);
    }
    let nchars = to_chars(lower_name.as_str());
    glob_match_inner(pchars.as_slice(), nchars.as_slice())
}


/// `?` matches exactly one character, whatever it is: not the empty name,
/// and not two characters.
pub proof fn law_any_matches_one_character(c: char, d: char)
    ensures
        glob_chars(seq!['?'], seq![c]),
        !glob_chars(seq!['?'], Seq::<char>::empty()),
        !glob_chars(seq!['?'], seq![c, d]),
{
    assert(glob_from(seq!['?'], seq![c], 1, 1));
    assert(!glob_from(seq!['?'], seq![c, d], 1, 1));
}
/// Case plays no part: names, and patterns, that are the same in lowercase
/// give the same answer.
pub proof fn law_case_ignored(p1: Seq<char>, p2: Seq<char>, n1: Seq<char>, n2: Seq<char>)
    requires
        lowercase(p1) == lowercase(p2),
        lowercase(n1) == lowercase(n2),
    ensures
        glob_spec(p1, n1) == glob_spec(p2, n2),
{
}

/// A pattern without `*` and `?` matches exactly the names that hold it,
/// in lowercase, as a run of consecutive characters anywhere; a pattern
/// with them must match the whole lowercase name.
pub proof fn law_plain_pattern_found_anywhere(pattern: Seq<char>, name: Seq<char>)
    ensures
        ({
            let p = lowercase(pattern);
            let n = lowercase(name);
            &&& !p.contains('*') && !p.contains('?') ==> (glob_spec(pattern, name) <==> exists|k: int|
                0 <= k && k + p.len() <= n.len() && #[trigger] n.subrange(k, k + p.len()) == p)
            &&& (p.contains('*') || p.contains('?')) ==> glob_spec(pattern, name) == glob_from(p, n, 0, 0)
        }),
{
}

/// `*` matches every rest of a name, the empty rest included.
proof fn lemma_star_matches_rest(n: Seq<char>, j: int)
    requires
        0 <= j <= n.len(),
    ensures
        glob_from(seq!['*'], n, 0, j),
    decreases n.len() - j,
{
    if j < n.len() {
        lemma_star_matches_rest(n, j + 1);
    } else {
        assert(glob_from(seq!['*'], n, 1, j));
    }
}

/// A pattern without wildcards matches a name exactly when they are equal,
/// from position `i` of the pattern and `j` of the name on.
proof fn lemma_literal_matches_equal(p: Seq<char>, n: Seq<char>, i: int, j: int)
    requires
        0 <= i <= p.len(),
        0 <= j <= n.len(),
        forall|t: int| 0 <= t < p.len() ==> !is_star(#[trigger] p[t]) && !is_any(p[t]),
    ensures
        glob_from(p, n, i, j) <==> p.skip(i) == n.skip(j),
    decreases p.len() - i,
{
    if i < p.len() {
        if j < n.len() {
            lemma_literal_matches_equal(p, n, i + 1, j + 1);
            if p.skip(i) == n.skip(j) {
                assert(p[i] == p.skip(i)[0]);
                assert(n[j] == n.skip(j)[0]);
                assert(p.skip(i + 1) =~= p.skip(i).skip(1));
                assert(n.skip(j + 1) =~= n.skip(j).skip(1));
            }
            if p[i] == n[j] && p.skip(i + 1) == n.skip(j + 1) {
                assert(p.skip(i) =~= seq![p[i]] + p.skip(i + 1));
                assert(n.skip(j) =~= seq![n[j]] + n.skip(j + 1));
            }
        } else {
            assert(p.skip(i).len() > 0);
        }
    } else {
        assert(p.skip(i).len() == 0);
        if j < n.len() {
            assert(n.skip(j).len() > 0);
        } else {
            assert(n.skip(j) =~= p.skip(i));
        }
    }
}

/// `*` alone matches every name, and a pattern without wildcards matches
/// exactly the name equal to it.
pub proof fn law_star_and_literal(p: Seq<char>, n: Seq<char>)
    ensures
        glob_chars(seq!['*'], n),
        (forall|t: int| 0 <= t < p.len() ==> !is_star(#[trigger] p[t]) && !is_any(p[t])) ==> (glob_chars(p, n)
            <==> p == n),
{
    lemma_star_matches_rest(n, 0);
    if forall|t: int| 0 <= t < p.len() ==> !is_star(#[trigger] p[t]) && !is_any(p[t]) {
        lemma_literal_matches_equal(p, n, 0, 0);
        assert(p.skip(0) =~= p);
        assert(n.skip(0) =~= n);
    }
}

} // verus!
