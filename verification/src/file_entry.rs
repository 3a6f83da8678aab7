//! Directory entries, their order in the list, and the list of a directory.

use vstd::prelude::*;
use vstd::multiset::Multiset;
use crate::text::{to_chars, to_lowercase, lowercase, append_str, copy_string};
use crate::format::{format_size, size_text, format_local_time, date_text, format_permissions, permissions_text};

verus! {

broadcast use vstd::seq_lib::group_to_multiset_ensures;

/// Kind of an entry.
#[derive(Debug, Clone, Copy, PartialEq, Eq, Structural)]
pub enum EntryType {
    Directory,
    File,
    Symlink,
}

/// A local date and time of day, to the minute.
#[derive(Debug, Clone, Copy, PartialEq, Eq, Structural)]
pub struct LocalTime {
    pub year: i32,
    pub month: u32,
    pub day: u32,
    pub hour: u32,
    pub minute: u32,
}

/// One entry of a directory list. The parent entry `..` stands first in
/// every directory that has a parent.
#[derive(Debug, Clone)]
pub struct FileEntry {
    pub name: String,
    pub path: String,
    pub entry_type: EntryType,
    pub size: u64,
    pub modified: Option<LocalTime>,
    pub is_parent: bool,
}

/// What `Path::parent` gives for a path: the path without its last
/// component, or nothing for a root or empty path.
pub uninterp spec fn path_parent(p: Seq<char>) -> Option<Seq<char>>;

/// Calls `Path::parent` on the path; the contract names its result.
#[verifier::external_body]
pub(crate) fn parent_of(p: &str) -> (r: Option<String>)
    ensures
        r is Some == path_parent(p@) is Some,
        r matches Some(q) ==> q@ == path_parent(p@)->0,
{
    std::path::Path::new(p).parent().map(|q| q.to_string_lossy().into_owned())
}

/// What `Path::file_name` gives for a path: its last component, if it is a
/// normal name.
pub uninterp spec fn path_file_name(p: Seq<char>) -> Option<Seq<char>>;

/// Calls `Path::file_name` on the path; the contract names its result.
#[verifier::external_body]
pub(crate) fn file_name_of(p: &str) -> (r: Option<String>)
    ensures
        r is Some == path_file_name(p@) is Some,
        r matches Some(q) ==> q@ == path_file_name(p@)->0,
{
    std::path::Path::new(p).file_name().map(|q| q.to_string_lossy().into_owned())
}

/// The name an entry at path `p` is listed under: the path's last
/// component, or nothing when it has none.
pub open spec fn name_in_path(p: Seq<char>) -> Seq<char> {
    match path_file_name(p) {
        Some(n) => n,
        None => Seq::empty(),
    }
}

/// The name an entry at `path` is listed under.
pub fn entry_name(path: &str) -> (r: String)
    ensures
        r@ == name_in_path(path@),
{
    match file_name_of(path) {
        Some(n) => n,
        None => String::new(),
    }
}

impl FileEntry {
    /// The entry for what was read at `path`: named by the path's last
    /// component, and not the parent entry.
    pub fn from_parts(path: String, entry_type: EntryType, size: u64, modified: Option<LocalTime>) -> (e: FileEntry)
        ensures
            e.name@ == name_in_path(path@),
            e.path == path,
            e.entry_type == entry_type,
            e.size == size,
            e.modified == modified,
            !e.is_parent,
    {
        let name = entry_name(path.as_str());
        FileEntry { name, path, entry_type, size, modified, is_parent: false }
    }
}

/// The rank of an entry in the list: the parent entry, then directories,
/// then everything else.
pub open spec fn rank(e: FileEntry) -> int {
    if e.is_parent {
        0
    } else if e.entry_type == EntryType::Directory {
        1
    } else {
        2
    }
}

/// `a` comes before `b` in code-point order, a proper prefix first.
pub open spec fn seq_less(a: Seq<char>, b: Seq<char>) -> bool
    decreases a.len(),
{
    if a.len() == 0 {
        b.len() > 0
    } else if b.len() == 0 {
        false
    } else if a[0] != b[0] {
        (a[0] as u32) < (b[0] as u32)
    } else {
        seq_less(a.drop_first(), b.drop_first())
    }
}

/// `a` strictly precedes `b` in the list: lower rank, or the same rank and
/// a lowercase name that comes first.
pub open spec fn entry_before(a: FileEntry, b: FileEntry) -> bool {
    rank(a) < rank(b) || (rank(a) == rank(b) && seq_less(lowercase(a.name@), lowercase(b.name@)))
}

/// The entries are in list order.
pub open spec fn sorted_entries(s: Seq<FileEntry>) -> bool {
    forall|i: int, j: int| 0 <= i < j < s.len() ==> !entry_before(#[trigger] s[j], #[trigger] s[i])
}

fn chars_less(a: &Vec<char>, b: &Vec<char>) -> (r: bool)
    ensures
        r == seq_less(a@, b@),
{
    let mut i: usize = 0;
    proof {
        assert(a@.skip(0) =~= a@);
        assert(b@.skip(0) =~= b@);
    }
    while i < a.len() && i < b.len() && a[i] == b[i]
        invariant
            i <= a.len(),
            i <= b.len(),
            seq_less(a@, b@) == seq_less(a@.skip(i as int), b@.skip(i as int)),
        decreases a.len() - i,
    {
        proof {
            assert(a@.skip(i as int).drop_first() =~= a@.skip(i + 1));
            assert(b@.skip(i as int).drop_first() =~= b@.skip(i + 1));
        }
        i = i + 1;
    }
    if i == a.len() {
        i < b.len()
    } else if i == b.len() {
        false
    } else {
        (a[i] as u32) < (b[i] as u32)
    }
}

impl FileEntry {
    /// The parent entry `..` of the directory at `path`: it points to the
    /// parent directory, or to `path` itself when there is none.
    pub fn parent_entry(path: &str) -> (e: FileEntry)
        ensures
            e.name@ == seq!['.', '.'],
            e.path@ == (match path_parent(path@) {
                Some(q) => q,
                None => path@,
            }),
            e.entry_type == EntryType::Directory,
            e.size == 0,
            e.modified is None,
            e.is_parent,
    {
        let mut name = String::new();
        crate::text::push_char(&mut name, '.');
        crate::text::push_char(&mut name, '.');
        let target = match parent_of(path) {
            Some(q) => q,
            None => {
                let mut s = String::new();
                append_str(&mut s, path);
                s
            },
        };
        proof {
            assert(Seq::<char>::empty().push('.').push('.') =~= seq!['.', '.']);
        }
        FileEntry {
            name,
            path: target,
            entry_type: EntryType::Directory,
            size: 0,
            modified: None,
            is_parent: true,
        }
    }

    pub fn is_dir(&self) -> (r: bool)
        ensures
            r == (self.entry_type == EntryType::Directory),
    {
        self.entry_type == EntryType::Directory
    }

    pub fn is_symlink(&self) -> (r: bool)
        ensures
            r == (self.entry_type == EntryType::Symlink),
    {
        self.entry_type == EntryType::Symlink
    }

    /// Names starting with a dot are hidden.
    pub fn is_hidden(&self) -> (r: bool)
        ensures
            r == (self.name@.len() > 0 && self.name@[0] == '.'),
    {
        let chars = to_chars(self.name.as_str());
        chars.len() > 0 && chars[0] == '.'
    }
}

/// Whether `a` strictly precedes `b` in the list.
pub fn entry_less(a: &FileEntry, b: &FileEntry) -> (r: bool)
    ensures
        r == entry_before(*a, *b),
{
    let ra: u8 = if a.is_parent {
        0
    } else if a.is_dir() {
        1
    } else {
        2
    };
    let rb: u8 = if b.is_parent {
        0
    } else if b.is_dir() {
        1
    } else {
        2
    };
    if ra != rb {
        return ra < rb;
    }
    let la = to_chars(to_lowercase(a.name.as_str()).as_str());
    let lb = to_chars(to_lowercase(b.name.as_str()).as_str());
    chars_less(&la, &lb)
}

/// Neither entry precedes the other: same group, same lowercase name.
pub open spec fn equivalent(a: FileEntry, b: FileEntry) -> bool {
    !entry_before(a, b) && !entry_before(b, a)
}

/// `to` holds the entries of `from` rearranged: `to[k]` is `from[perm[k]]`,
/// each entry of `from` is used once, and entries that compare equal keep
/// the order they had in `from`.
pub open spec fn stable_arrangement(from: Seq<FileEntry>, to: Seq<FileEntry>, perm: Seq<int>) -> bool {
    &&& perm.len() == to.len() && to.len() == from.len()
    &&& forall|k: int| 0 <= k < perm.len() ==> 0 <= #[trigger] perm[k] < from.len() && to[k] == from[perm[k]]
    &&& forall|k1: int, k2: int| 0 <= k1 < k2 < perm.len() ==> #[trigger] perm[k1] != #[trigger] perm[k2]
    &&& forall|k1: int, k2: int|
        0 <= k1 < k2 < perm.len() && equivalent(to[k1], to[k2]) ==> #[trigger] perm[k1] < #[trigger] perm[k2]
}

/// The two entries agree in everything a listing shows of them.
pub open spec fn same_entry(a: FileEntry, b: FileEntry) -> bool {
    &&& a.name@ == b.name@
    &&& a.path@ == b.path@
    &&& a.entry_type == b.entry_type
    &&& a.size == b.size
    &&& a.modified == b.modified
    &&& a.is_parent == b.is_parent
}

/// The two lists agree entry by entry.
pub open spec fn same_entries(s: Seq<FileEntry>, t: Seq<FileEntry>) -> bool {
    &&& s.len() == t.len()
    &&& forall|i: int| 0 <= i < s.len() ==> same_entry(#[trigger] s[i], t[i])
}

/// A rearrangement of `n` positions uses each of them.
proof fn lemma_arrangement_onto(perm: Seq<int>, n: int, v: int)
    requires
        perm.len() == n,
        forall|k: int| 0 <= k < n ==> 0 <= #[trigger] perm[k] < n,
        forall|k1: int, k2: int| 0 <= k1 < k2 < n ==> #[trigger] perm[k1] != #[trigger] perm[k2],
        0 <= v < n,
    ensures
        exists|k: int| 0 <= k < n && perm[k] == v,
{
    assert(perm.no_duplicates()) by {
        assert forall|i: int, j: int| 0 <= i < perm.len() && 0 <= j < perm.len() && i != j implies perm[i]
            != perm[j] by {
            if i < j {
                assert(perm[i] != perm[j]);
            } else {
                assert(perm[j] != perm[i]);
            }
        }
    }
    perm.unique_seq_to_set();
    let r = vstd::set_lib::set_int_range(0, n);
    vstd::set_lib::lemma_int_range(0, n);
    vstd::seq_lib::seq_to_set_is_finite(perm);
    assert(perm.to_set().subset_of(r));
    vstd::set_lib::lemma_subset_equality(perm.to_set(), r);
    assert(r.contains(v));
    assert(perm.to_set().contains(v));
}

/// Two sorted stable rearrangements of lists that agree entry by entry
/// take the entries from the same places, up to position `k`.
proof fn lemma_same_places(
    f1: Seq<FileEntry>,
    f2: Seq<FileEntry>,
    e1: Seq<FileEntry>,
    e2: Seq<FileEntry>,
    p1: Seq<int>,
    p2: Seq<int>,
    k: int,
)
    requires
        same_entries(f1, f2),
        sorted_entries(e1),
        sorted_entries(e2),
        stable_arrangement(f1, e1, p1),
        stable_arrangement(f2, e2, p2),
        0 <= k <= e1.len(),
    ensures
        forall|i: int| 0 <= i < k ==> p1[i] == p2[i],
    decreases k,
{
    if k > 0 {
        lemma_same_places(f1, f2, e1, e2, p1, p2, k - 1);
        let n = e1.len() as int;
        let i = k - 1;
        let a = p1[i];
        let b = p2[i];
        if a != b {
            lemma_arrangement_onto(p2, n, a);
            let k2 = choose|x: int| 0 <= x < n && p2[x] == a;
            if k2 < i {
                assert(p1[k2] == p2[k2]);
                assert(p1[k2] != p1[i]);
            }
            lemma_arrangement_onto(p1, n, b);
            let k1 = choose|x: int| 0 <= x < n && p1[x] == b;
            if k1 < i {
                assert(p1[k1] == p2[k1]);
                assert(p2[k1] != p2[i]);
            }
            assert(same_entry(f1[a], f2[a]));
            assert(same_entry(f1[b], f2[b]));
            assert(!entry_before(e2[k2], e2[i]));
            assert(!entry_before(e1[k1], e1[i]));
            assert(equivalent(e2[i], e2[k2]));
            assert(p2[i] < p2[k2]);
            assert(equivalent(e1[i], e1[k1]));
            assert(p1[i] < p1[k1]);
        }
    }
}

/// Sorting is stable, so it has one outcome: sorted stable rearrangements
/// of lists that agree entry by entry agree entry by entry.
pub proof fn law_stable_sort_unique(
    f1: Seq<FileEntry>,
    f2: Seq<FileEntry>,
    e1: Seq<FileEntry>,
    e2: Seq<FileEntry>,
    p1: Seq<int>,
    p2: Seq<int>,
)
    requires
        same_entries(f1, f2),
        sorted_entries(e1),
        sorted_entries(e2),
        stable_arrangement(f1, e1, p1),
        stable_arrangement(f2, e2, p2),
    ensures
        same_entries(e1, e2),
{
    lemma_same_places(f1, f2, e1, e2, p1, p2, e1.len() as int);
    assert forall|i: int| 0 <= i < e1.len() implies same_entry(#[trigger] e1[i], e2[i]) by {
        assert(p1[i] == p2[i]);
        assert(same_entry(f1[p1[i]], f2[p1[i]]));
    }
}

/// The state of the sort after `i` entries: `cur` is `orig` rearranged by
/// `perm`, the first `i` positions sorted and stable, the rest untouched.
spec fn sorting_state(orig: Seq<FileEntry>, cur: Seq<FileEntry>, perm: Seq<int>, i: int) -> bool {
    &&& 0 <= i <= orig.len()
    &&& perm.len() == orig.len() && cur.len() == orig.len()
    &&& forall|k: int| 0 <= k < perm.len() ==> 0 <= #[trigger] perm[k] < orig.len() && cur[k] == orig[perm[k]]
    &&& forall|k1: int, k2: int| 0 <= k1 < k2 < perm.len() ==> #[trigger] perm[k1] != #[trigger] perm[k2]
    &&& forall|k: int| i <= k < perm.len() ==> #[trigger] perm[k] == k
    &&& forall|k: int| 0 <= k < i ==> #[trigger] perm[k] < i
    &&& forall|k1: int, k2: int|
        0 <= k1 < k2 < i && equivalent(cur[k1], cur[k2]) ==> #[trigger] perm[k1] < #[trigger] perm[k2]
    &&& sorted_entries(cur.take(i))
}

/// Puts the entries in list order: the parent entry first, then
/// directories, then the rest, each group by lowercase name. Entries that
/// compare equal keep their order.
pub fn sort_entries(entries: &mut Vec<FileEntry>)
    ensures
        sorted_entries(final(entries)@),
        final(entries)@.to_multiset() == old(entries)@.to_multiset(),
        exists|perm: Seq<int>| stable_arrangement(old(entries)@, final(entries)@, perm),
{
    let n = entries.len();
    let ghost orig = entries@;
    let ghost mut perm: Seq<int> = Seq::new(n as nat, |k: int| k);
    let mut i: usize = 0;
    proof {
        assert(entries@.take(0) =~= Seq::<FileEntry>::empty());
    }
    while i < n
        invariant
            n == entries@.len(),
            orig == old(entries)@,
            sorting_state(orig, entries@, perm, i as int),
            entries@.to_multiset() == old(entries)@.to_multiset(),
        decreases n - i,
    {
        let ghost before = entries@;
        let e = entries.remove(i);
        let mut p: usize = 0;
        while p < i && !entry_less(&e, &entries[p])
            invariant
                entries@ == before.remove(i as int),
                before.len() == n,
                p <= i,
                i < n,
                forall|k: int| 0 <= k < p ==> !entry_before(e, #[trigger] entries@[k]),
            decreases i - p,
        {
            p = p + 1;
        }
        entries.insert(p, e);
        proof {
            lemma_insert_keeps_order(before, i as int, p as int, entries@);
            lemma_insert_keeps_arrangement(orig, before, perm, i as int, p as int, entries@);
            perm = perm.remove(i as int).insert(p as int, i as int);
        }
        i = i + 1;
    }
    proof {
        assert(entries@.take(n as int) =~= entries@);
        assert(stable_arrangement(orig, entries@, perm));
    }
}

/// One insertion step keeps the sort's arrangement: the entry taken from
/// position `i` came from there, and it lands after everything equal to it.
proof fn lemma_insert_keeps_arrangement(
    orig: Seq<FileEntry>,
    before: Seq<FileEntry>,
    perm: Seq<int>,
    i: int,
    p: int,
    after: Seq<FileEntry>,
)
    requires
        sorting_state(orig, before, perm, i),
        0 <= p <= i < before.len(),
        after == before.remove(i).insert(p, before[i]),
        forall|k: int| 0 <= k < p ==> !entry_before(before[i], #[trigger] before.remove(i)[k]),
        p < i ==> entry_before(before[i], before.remove(i)[p]),
        sorted_entries(after.take(i + 1)),
    ensures
        sorting_state(orig, after, perm.remove(i).insert(p, i), i + 1),
{
    let e = before[i];
    let s = before.remove(i);
    let q = perm.remove(i).insert(p, i);
    assert(perm[i] == i);
    assert(q.len() == perm.len());
    assert forall|k: int| 0 <= k < q.len() implies 0 <= #[trigger] q[k] < orig.len() && after[k] == orig[q[k]] by {
        if k < p {
            assert(q[k] == perm[k] && after[k] == before[k]);
        } else if k == p {
            assert(q[k] == i && after[k] == e);
        } else if k <= i {
            assert(q[k] == perm[k - 1] && after[k] == before[k - 1]);
        } else {
            assert(q[k] == perm[k] && after[k] == before[k]);
        }
    }
    assert forall|k1: int, k2: int| 0 <= k1 < k2 < q.len() implies #[trigger] q[k1] != #[trigger] q[k2] by {
        let j1 = if k1 < p { k1 } else if k1 == p { i } else if k1 <= i { k1 - 1 } else { k1 };
        let j2 = if k2 < p { k2 } else if k2 == p { i } else if k2 <= i { k2 - 1 } else { k2 };
        assert(q[k1] == perm[j1] && q[k2] == perm[j2]);
        assert(j1 != j2);
        if j1 < j2 {
            assert(perm[j1] != perm[j2]);
        } else {
            assert(perm[j2] != perm[j1]);
        }
    }
    assert forall|k: int| i + 1 <= k < q.len() implies #[trigger] q[k] == k by {
        assert(q[k] == perm[k]);
    }
    assert forall|k: int| 0 <= k < i + 1 implies #[trigger] q[k] < i + 1 by {
        if k < p {
            assert(q[k] == perm[k]);
        } else if k > p {
            assert(q[k] == perm[k - 1]);
        }
    }
    assert forall|k1: int, k2: int|
        0 <= k1 < k2 < i + 1 && equivalent(after[k1], after[k2]) implies #[trigger] q[k1] < #[trigger] q[k2] by {
        if k2 == p {
            assert(q[k2] == i);
            if k1 < p {
                assert(q[k1] == perm[k1]);
            }
        } else if k1 == p {
            assert(p < i);
            let b = s[k2 - 1];
            assert(after[k2] == b && after[k1] == e);
            if k2 - 1 == p {
                assert(entry_before(e, b));
            } else {
                assert(s.take(i) == before.take(i)) by {
                    assert(s.take(i) =~= before.take(i));
                }
                assert(!entry_before(before.take(i)[k2 - 1], before.take(i)[p]));
                lemma_before_split(e, s[p], b);
                assert(entry_before(e, b));
            }
        } else {
            let j1 = if k1 < p { k1 } else { k1 - 1 };
            let j2 = if k2 < p { k2 } else { k2 - 1 };
            assert(j1 < j2 && j2 < i);
            assert(after[k1] == before[j1] && after[k2] == before[j2]);
            assert(q[k1] == perm[j1] && q[k2] == perm[j2]);
        }
    }
}

/// Inserting the entry at position `i` of `before` at the first place `p`
/// of the sorted prefix where it precedes the entry there keeps the prefix
/// sorted and the entries the same.
proof fn lemma_insert_keeps_order(before: Seq<FileEntry>, i: int, p: int, after: Seq<FileEntry>)
    requires
        0 <= p <= i < before.len(),
        sorted_entries(before.take(i)),
        after == before.remove(i).insert(p, before[i]),
        forall|k: int| 0 <= k < p ==> !entry_before(before[i], #[trigger] before.remove(i)[k]),
        p < i ==> entry_before(before[i], before.remove(i)[p]),
    ensures
        sorted_entries(after.take(i + 1)),
        after.to_multiset() == before.to_multiset(),
        after.len() == before.len(),
{
    let e = before[i];
    let s = before.take(i);
    let s2 = after.take(i + 1);
    assert(before.remove(i).take(i) =~= s);
    assert(s2 =~= s.insert(p, e));
    assert forall|a: int, b: int| 0 <= a < b < s2.len() implies !entry_before(
        #[trigger] s2[b],
        #[trigger] s2[a],
    ) by {
        if b < p {
            assert(s2[a] == s[a] && s2[b] == s[b]);
        } else if b == p {
            assert(s2[a] == s[a]);
            assert(before.remove(i)[a] == s[a]);
        } else if a == p {
            assert(s2[b] == s[b - 1]);
            assert(p < i);
            assert(before.remove(i)[p] == s[p]);
            if b - 1 == p {
                lemma_before_irreflexive(s[p]);
            }
            lemma_before_trans_not(e, s[p], s[b - 1]);
        } else if a < p {
            assert(s2[a] == s[a] && s2[b] == s[b - 1]);
        } else {
            assert(s2[a] == s[a - 1] && s2[b] == s[b - 1]);
        }
    }
    assert(after.remove(p) =~= before.remove(i));
    assert(after[p] == e);
}

proof fn lemma_seq_less_irreflexive(a: Seq<char>)
    ensures
        !seq_less(a, a),
    decreases a.len(),
{
    if a.len() > 0 {
        lemma_seq_less_irreflexive(a.drop_first());
    }
}

proof fn lemma_seq_less_trans(a: Seq<char>, b: Seq<char>, c: Seq<char>)
    requires
        seq_less(a, b),
        seq_less(b, c),
    ensures
        seq_less(a, c),
    decreases a.len(),
{
    if a.len() > 0 && b.len() > 0 && c.len() > 0 {
        if a[0] == b[0] && b[0] == c[0] {
            lemma_seq_less_trans(a.drop_first(), b.drop_first(), c.drop_first());
        }
    }
}

proof fn lemma_seq_less_total(a: Seq<char>, b: Seq<char>)
    ensures
        seq_less(a, b) || seq_less(b, a) || a == b,
    decreases a.len(),
{
    if a.len() > 0 && b.len() > 0 {
        if a[0] == b[0] {
            lemma_seq_less_total(a.drop_first(), b.drop_first());
            if a.drop_first() == b.drop_first() {
                assert(a =~= seq![a[0]] + a.drop_first());
                assert(b =~= seq![b[0]] + b.drop_first());
            }
        } else {
            vstd::utf8::char_u32_cast(a[0], a[0] as u32);
            vstd::utf8::char_u32_cast(b[0], b[0] as u32);
        }
    } else if a.len() == 0 && b.len() == 0 {
        assert(a =~= b);
    }
}

/// If `a` precedes `b`, every entry follows `a` or precedes `b`.
proof fn lemma_before_split(a: FileEntry, b: FileEntry, c: FileEntry)
    requires
        entry_before(a, b),
    ensures
        entry_before(a, c) || entry_before(c, b),
{
    if !entry_before(a, c) && !entry_before(c, b) {
        let la = lowercase(a.name@);
        let lb = lowercase(b.name@);
        let lc = lowercase(c.name@);
        lemma_seq_less_total(la, lc);
        if seq_less(lc, la) {
            lemma_seq_less_trans(lc, la, lb);
        }
    }
}

/// Nothing that precedes `a` can fail to precede something `a` precedes.
proof fn lemma_before_trans_not(a: FileEntry, b: FileEntry, c: FileEntry)
    requires
        entry_before(a, b),
        !entry_before(c, b),
    ensures
        !entry_before(c, a),
{
    if entry_before(c, a) {
        if rank(c) == rank(a) && rank(a) == rank(b) {
            lemma_seq_less_trans(lowercase(c.name@), lowercase(a.name@), lowercase(b.name@));
        }
    }
}

/// No entry precedes itself.
proof fn lemma_before_irreflexive(a: FileEntry)
    ensures
        !entry_before(a, a),
{
    lemma_seq_less_irreflexive(lowercase(a.name@));
}


/// Name endings of archive files.
pub const ARCHIVE_EXTS: [&'static str; 13] = [
    ".zip",
    ".tar",
    ".gz",
    ".bz2",
    ".xz",
    ".7z",
    ".rar",
    ".tgz",
    ".tar.gz",
    ".tar.bz2",
    ".tar.xz",
    ".zst",
    ".lz4",
];

/// `s` ends with `suffix`.
pub open spec fn ends_with(s: Seq<char>, suffix: Seq<char>) -> bool {
    suffix.len() <= s.len() && s.subrange(s.len() - suffix.len(), s.len() as int) == suffix
}

fn chars_end_with(s: &Vec<char>, suffix: &Vec<char>) -> (r: bool)
    ensures
        r == ends_with(s@, suffix@),
{
    if suffix.len() > s.len() {
        return false;
    }
    let off = s.len() - suffix.len();
    let mut k: usize = 0;
    while k < suffix.len()
        invariant
            off + suffix.len() == s.len(),
            k <= suffix.len(),
            forall|t: int| 0 <= t < k ==> s@[off + t] == suffix@[t],
        decreases suffix.len() - k,
    {
        if s[off + k] != suffix[k] {
            proof {
                assert(s@.subrange(off as int, s@.len() as int)[k as int] != suffix@[k as int]);
            }
            return false;
        }
        k = k + 1;
    }
    proof {
        assert(s@.subrange(off as int, s@.len() as int) =~= suffix@);
    }
    true
}

impl FileEntry {
    /// Archive files: the lowercase name ends with one of the archive
    /// endings.
    pub fn is_archive(&self) -> (r: bool)
        ensures
            r == exists|i: int|
                0 <= i < 13 && ends_with(lowercase(self.name@), #[trigger] ARCHIVE_EXTS@[i]@),
    {
        let lower = to_chars(to_lowercase(self.name.as_str()).as_str());
        let mut i: usize = 0;
        while i < 13
            invariant
                lower@ == lowercase(self.name@),
                i <= 13,
                forall|j: int| 0 <= j < i ==> !ends_with(lower@, #[trigger] ARCHIVE_EXTS@[j]@),
            decreases 13 - i,
        {
            let ext: &str = ARCHIVE_EXTS[i];
            let ext_chars = to_chars(ext);
            if chars_end_with(&lower, &ext_chars) {
                return true;
            }
            i = i + 1;
        }
        false
    }
}

/// An entry is listed when hidden entries are shown or it is not hidden.
pub open spec fn listed(e: FileEntry, show_hidden: bool) -> bool {
    show_hidden || !(e.name@.len() > 0 && e.name@[0] == '.')
}

/// The entries among the first `n` of `raw` that are listed, in order.
pub open spec fn listed_upto(raw: Seq<FileEntry>, show_hidden: bool, n: int) -> Seq<FileEntry>
    decreases n,
{
    if n <= 0 {
        Seq::empty()
    } else if listed(raw[n - 1], show_hidden) {
        listed_upto(raw, show_hidden, n - 1).push(raw[n - 1])
    } else {
        listed_upto(raw, show_hidden, n - 1)
    }
}

/// With hidden entries shown, the first `n` entries read are all listed.
pub proof fn lemma_all_listed(raw: Seq<FileEntry>, n: int, k: int)
    requires
        0 <= k < n <= raw.len(),
    ensures
        listed_upto(raw, true, n).contains(raw[k]),
    decreases n,
{
    if k == n - 1 {
        assert(listed_upto(raw, true, n).last() == raw[k]);
    } else {
        lemma_all_listed(raw, n - 1, k);
        let p = listed_upto(raw, true, n - 1);
        let j = choose|j: int| 0 <= j < p.len() && p[j] == raw[k];
        assert(listed_upto(raw, true, n)[j] == raw[k]);
    }
}

/// What is listed with hidden entries left out is among the first `n`
/// entries read.
pub proof fn lemma_listed_was_read(raw: Seq<FileEntry>, show_hidden: bool, n: int, x: FileEntry)
    requires
        0 <= n <= raw.len(),
        listed_upto(raw, show_hidden, n).contains(x),
    ensures
        exists|k: int| 0 <= k < n && raw[k] == x,
    decreases n,
{
    if n > 0 {
        let p = listed_upto(raw, show_hidden, n - 1);
        if p.contains(x) {
            lemma_listed_was_read(raw, show_hidden, n - 1, x);
            let k = choose|k: int| 0 <= k < n - 1 && raw[k] == x;
            assert(0 <= k < n && raw[k] == x);
        } else {
            let q = listed_upto(raw, show_hidden, n);
            let j = choose|j: int| 0 <= j < q.len() && q[j] == x;
            if listed(raw[n - 1], show_hidden) {
                if j < p.len() {
                    assert(p[j] == x);
                }
                assert(raw[n - 1] == x);
            } else {
                assert(p[j] == x);
            }
        }
    }
}

/// The parent entry of `dir`, as `parent_entry` makes it.
pub open spec fn is_parent_entry_of(e: FileEntry, dir: Seq<char>) -> bool {
    &&& e.name@ == seq!['.', '.']
    &&& e.path@ == (match path_parent(dir) {
        Some(q) => q,
        None => dir,
    })
    &&& e.entry_type == EntryType::Directory
    &&& e.size == 0
    &&& e.modified is None
    &&& e.is_parent
}

/// The entries of a directory listing before sorting: the parent entry when
/// `dir` has a parent, then the entries read from the directory that are
/// listed, in the order read.
pub fn listing_members(dir: &str, raw: Vec<FileEntry>, show_hidden: bool) -> (r: Vec<FileEntry>)
    ensures
        path_parent(dir@) is Some ==> {
            &&& r@.len() >= 1
            &&& is_parent_entry_of(r@[0], dir@)
            &&& r@.skip(1) == listed_upto(raw@, show_hidden, raw@.len() as int)
        },
        path_parent(dir@) is None ==> r@ == listed_upto(raw@, show_hidden, raw@.len() as int),
{
    let mut r: Vec<FileEntry> = Vec::new();
    let has_parent = parent_of(dir).is_some();
    if has_parent {
        r.push(FileEntry::parent_entry(dir));
    }
    let ghost start: int = if has_parent { 1 } else { 0 };
    let ghost raw_seq = raw@;
    let mut rest = raw;
    let mut taken: usize = 0;
    let n = rest.len();
    proof {
        assert(r@.skip(start) =~= listed_upto(raw_seq, show_hidden, 0));
    }
    while rest.len() > 0
        invariant
            raw_seq.len() == n,
            taken + rest@.len() == n,
            rest@ == raw_seq.skip(taken as int),
            r@.len() >= start,
            has_parent ==> is_parent_entry_of(r@[0], dir@),
            has_parent == path_parent(dir@) is Some,
            start == (if has_parent { 1int } else { 0int }),
            r@.skip(start) == listed_upto(raw_seq, show_hidden, taken as int),
        decreases rest@.len(),
    {
        let e = rest.remove(0);
        proof {
            assert(e == raw_seq[taken as int]);
            assert(rest@ =~= raw_seq.skip(taken + 1));
        }
        let keep = show_hidden || !e.is_hidden();
        let ghost before = r@;
        if keep {
            r.push(e);
            proof {
                assert(r@.skip(start) =~= before.skip(start).push(raw_seq[taken as int]));
            }
        }
        taken = taken + 1;
    }
    r
}


impl FileEntry {
    /// The size column: `<DIR>` for directories, else the size with a unit.
    pub fn display_size(&self) -> (s: String)
        ensures
            s@ == size_text(self.entry_type == EntryType::Directory, self.size as nat),
    {
        format_size(self.is_dir(), self.size)
    }

    /// The modification time as `YYYY-MM-DD HH:MM`, empty when unknown.
    pub fn display_date(&self) -> (s: String)
        ensures
            s@ == (match self.modified {
                Some(t) => date_text(t),
                None => Seq::<char>::empty(),
            }),
    {
        match &self.modified {
            Some(t) => format_local_time(t),
            None => String::new(),
        }
    }

    /// The permission bits, given the entry's mode as read without
    /// following a link, as `rwxr-xr-x`.
    pub fn display_permissions(&self, mode: Option<u32>) -> (s: String)
        ensures
            s@ == permissions_text(mode),
    {
        format_permissions(mode)
    }

    /// Executable files: not a directory nor the parent entry, and one of the
    /// execute bits set in `mode`, the mode of what the entry points to.
    pub fn is_executable(&self, mode: Option<u32>) -> (r: bool)
        ensures
            r == (!(self.entry_type == EntryType::Directory) && !self.is_parent && match mode {
                Some(m) => m & 0o111u32 != 0,
                None => false,
            }),
    {
        if self.is_dir() || self.is_parent {
            return false;
        }
        match mode {
            Some(m) => m & 0o111u32 != 0,
            None => false,
        }
    }
}

} // verus!
