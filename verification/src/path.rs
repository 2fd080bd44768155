//! Paths as plain strings, read by the Unix convention.
//!
//! A path is a sequence of characters in which `/` separates the segments.
//! A leading `/` is the root; a leading `.` segment is the current directory.
//! After that head, empty segments and `.` segments do not count: `a//b/./`
//! names the same file as `a/b`.
//!
//! The Unix reading is the model on every platform: `\` is a character like
//! any other, and there are no drive letters or other prefixes. Every
//! contract in this module speaks of that reading and of no other.

use vstd::prelude::*;
use crate::text::to_chars;

verus! {

/// The path starts at the root.
pub open spec fn has_root(p: Seq<char>) -> bool {
    p.len() > 0 && p[0] == '/'
}

/// The path starts with a `.` segment.
pub open spec fn has_cur_dir(p: Seq<char>) -> bool {
    p.len() > 0 && p[0] == '.' && (p.len() == 1 || p[1] == '/')
}

/// Length of the head of the path: the root or the leading `.`, if any.
pub open spec fn head_len(p: Seq<char>) -> int {
    if has_root(p) || has_cur_dir(p) {
        1
    } else {
        0
    }
}

/// Where the last segment of `p[lo..e]` starts: the least `s` in `lo..=e`
/// with no separator in `p[s..e]`.
pub open spec fn segment_start(p: Seq<char>, lo: int, e: int) -> int
    recommends
        0 <= lo <= e <= p.len(),
    decreases e - lo,
{
    if e <= lo || !(0 < e <= p.len()) || p[e - 1] == '/' {
        e
    } else {
        segment_start(p, lo, e - 1)
    }
}

/// A segment that does not count: the empty one and `.`.
pub open spec fn is_skipped(seg: Seq<char>) -> bool {
    seg.len() == 0 || (seg.len() == 1 && seg[0] == '.')
}

/// The segment `..`.
pub open spec fn is_parent_ref(seg: Seq<char>) -> bool {
    seg.len() == 2 && seg[0] == '.' && seg[1] == '.'
}

/// Where `p[..e]` ends once the trailing segments that do not count, and
/// the separators before them, are dropped. Never less than `lo`.
pub open spec fn trimmed_end(p: Seq<char>, lo: int, e: int) -> int
    recommends
        0 <= lo <= e <= p.len(),
    decreases e - lo,
{
    if e <= lo || !(0 <= lo && e <= p.len()) {
        lo
    } else {
        let s = segment_start(p, lo, e);
        if !is_skipped(p.subrange(s, e)) {
            e
        } else if lo < s <= e {
            trimmed_end(p, lo, s - 1)
        } else {
            lo
        }
    }
}

/// The file name of a path in the Unix reading: the last segment that
/// counts, unless it is `..` or there is none.
pub open spec fn file_name(p: Seq<char>) -> Option<Seq<char>> {
    let lo = head_len(p);
    let e = trimmed_end(p, lo, p.len() as int);
    let s = segment_start(p, lo, e);
    if e <= lo || is_parent_ref(p.subrange(s, e)) {
        None
    } else {
        Some(p.subrange(s, e))
    }
}

/// Index of the last `.` in `name[..e]`, or -1 where there is none.
pub open spec fn last_dot(name: Seq<char>, e: int) -> int
    recommends
        0 <= e <= name.len(),
    decreases e,
{
    if e <= 0 || e > name.len() {
        -1
    } else if name[e - 1] == '.' {
        e - 1
    } else {
        last_dot(name, e - 1)
    }
}

/// What follows the last `.` of a file name. A name without a dot, or whose
/// only dot is its first character, has no extension.
pub open spec fn extension_of_name(name: Seq<char>) -> Option<Seq<char>> {
    let d = last_dot(name, name.len() as int);
    if d <= 0 {
        None
    } else {
        Some(name.subrange(d + 1, name.len() as int))
    }
}

/// The extension of the path's file name, in the Unix reading.
pub open spec fn extension(p: Seq<char>) -> Option<Seq<char>> {
    match file_name(p) {
        Some(name) => extension_of_name(name),
        None => None,
    }
}

/// The parent of a path in the Unix reading: the path without its last
/// segment. The root and the empty path have no parent; a path of one
/// segment has the empty path as its parent.
pub open spec fn parent(p: Seq<char>) -> Option<Seq<char>> {
    let lo = head_len(p);
    let e = trimmed_end(p, lo, p.len() as int);
    if e > lo {
        let s = segment_start(p, lo, e);
        let rest = if s > lo {
            s - 1
        } else {
            lo
        };
        Some(p.subrange(0, trimmed_end(p, lo, rest)))
    } else if has_cur_dir(p) {
        Some(Seq::empty())
    } else {
        None
    }
}

/// `name` appended to `dir`, in the Unix reading. A rooted `name` replaces
/// `dir`; otherwise one separator is put between the two unless `dir` is
/// empty or ends in one.
pub open spec fn join(dir: Seq<char>, name: Seq<char>) -> Seq<char> {
    if has_root(name) {
        name
    } else if dir.len() > 0 && dir.last() != '/' {
        dir + seq!['/'] + name
    } else {
        dir + name
    }
}

/// A file name is hidden, by the Unix convention, when it starts with a
/// dot.
pub open spec fn hidden_name(name: Seq<char>) -> bool {
    name.len() > 0 && name[0] == '.'
}

/// `segment_start` stays between its bounds, sits just after a separator or
/// at `lo`, and no separator follows it.
pub proof fn lemma_segment_start(p: Seq<char>, lo: int, e: int)
    requires
        0 <= lo <= e <= p.len(),
    ensures
        lo <= segment_start(p, lo, e) <= e,
        segment_start(p, lo, e) > lo ==> p[segment_start(p, lo, e) - 1] == '/',
        forall|i: int| segment_start(p, lo, e) <= i < e ==> p[i] != '/',
    decreases e,
{
    if e > lo && p[e - 1] != '/' {
        lemma_segment_start(p, lo, e - 1);
    }
}

/// `trimmed_end` stays between its bounds.
pub proof fn lemma_trimmed_end(p: Seq<char>, lo: int, e: int)
    requires
        0 <= lo <= e <= p.len(),
    ensures
        lo <= trimmed_end(p, lo, e) <= e,
    decreases e,
{
    if e > lo {
        lemma_segment_start(p, lo, e);
        let s = segment_start(p, lo, e);
        if is_skipped(p.subrange(s, e)) && s > lo {
            lemma_trimmed_end(p, lo, s - 1);
        }
    }
}

/// The root has no parent, and neither has the empty path.
pub proof fn lemma_root_has_no_parent()
    ensures
        parent(seq!['/']) is None,
        parent(Seq::<char>::empty()) is None,
{
    let root = seq!['/'];
    assert(head_len(root) == 1);
    assert(trimmed_end(root, 1, 1) == 1);
    let none = Seq::<char>::empty();
    assert(head_len(none) == 0);
    assert(trimmed_end(none, 0, 0) == 0);
}

/// The parent of a path is a proper prefix of it.
pub proof fn law_parent_is_a_proper_prefix(p: Seq<char>)
    ensures
        parent(p) matches Some(q) ==> q.len() < p.len() && q == p.subrange(0, q.len() as int),
{
    let lo = head_len(p);
    lemma_trimmed_end(p, lo, p.len() as int);
    let e = trimmed_end(p, lo, p.len() as int);
    if e > lo {
        lemma_segment_start(p, lo, e);
        let s = segment_start(p, lo, e);
        let rest = if s > lo {
            s - 1
        } else {
            lo
        };
        lemma_trimmed_end(p, lo, rest);
    } else if has_cur_dir(p) {
        assert(p.subrange(0, 0) =~= Seq::<char>::empty());
    }
}

/// A name that can stand for one child of a directory: not empty, without
/// a separator, and neither `.` nor `..`.
pub open spec fn is_plain_name(name: Seq<char>) -> bool {
    &&& name.len() > 0
    &&& forall|i: int| 0 <= i < name.len() ==> name[i] != '/'
    &&& !is_skipped(name)
    &&& !is_parent_ref(name)
}

/// The last segment of a path that ends in a run of characters without a
/// separator starts where that run starts, as long as a separator or the
/// lower bound stands before it.
proof fn lemma_segment_start_of_suffix(p: Seq<char>, lo: int, s: int, e: int)
    requires
        0 <= lo <= s <= e <= p.len(),
        forall|i: int| s <= i < e ==> p[i] != '/',
        s == lo || p[s - 1] == '/',
    ensures
        segment_start(p, lo, e) == s,
    decreases e - s,
{
    if e > s {
        lemma_segment_start_of_suffix(p, lo, s, e - 1);
    }
}

/// A plain name joined to a directory is the file name of the result: the
/// child of a directory is found again in its path.
pub proof fn law_joined_name_is_the_file_name(dir: Seq<char>, name: Seq<char>)
    requires
        is_plain_name(name),
    ensures
        file_name(join(dir, name)) == Some(name),
{
    let p = join(dir, name);
    let s = p.len() - name.len();
    let lo = head_len(p);
    assert(p.subrange(s, p.len() as int) =~= name);
    assert forall|i: int| s <= i < p.len() implies p[i] != '/' by {
        assert(p[i] == name[i - s]);
    }
    if dir.len() == 0 {
        assert(p =~= name);
        assert(!has_cur_dir(p)) by {
            if p.len() > 1 {
                assert(p[1] == name[1]);
            }
        }
        assert(!has_root(p));
    } else if dir.last() != '/' {
        assert(p[s - 1] == '/');
    } else {
        assert(p[s - 1] == dir.last());
    }
    assert(lo <= s) by {
        if s == 0 {
        } else {
            assert(lo <= 1);
        }
    }
    lemma_segment_start_of_suffix(p, lo, s, p.len() as int);
}

fn head_len_of(v: &Vec<char>) -> (lo: usize)
    ensures
        lo == head_len(v@),
        lo <= v.len(),
{
    if v.len() == 0 {
        0
    } else if v[0] == '/' {
        1
    } else if v[0] == '.' && (v.len() == 1 || v[1] == '/') {
        1
    } else {
        0
    }
}

fn segment_start_of(v: &Vec<char>, lo: usize, e: usize) -> (s: usize)
    requires
        lo <= e <= v.len(),
    ensures
        s == segment_start(v@, lo as int, e as int),
        lo <= s <= e,
{
    let mut s: usize = e;
    while s > lo && v[s - 1] != '/'
        invariant
            lo <= s <= e <= v.len(),
            segment_start(v@, lo as int, e as int) == segment_start(v@, lo as int, s as int),
        decreases s,
    {
        s = s - 1;
    }
    s
}

fn trimmed_end_of(v: &Vec<char>, lo: usize, e: usize) -> (t: usize)
    requires
        lo <= e <= v.len(),
    ensures
        t == trimmed_end(v@, lo as int, e as int),
        lo <= t <= e,
{
    let mut t: usize = e;
    while t > lo
        invariant
            lo <= t <= e <= v.len(),
            trimmed_end(v@, lo as int, e as int) == trimmed_end(v@, lo as int, t as int),
        decreases t,
    {
        let s: usize = segment_start_of(v, lo, t);
        let counts: bool = !(s == t || (t - s == 1 && v[s] == '.'));
        assert(counts == !is_skipped(v@.subrange(s as int, t as int)));
        if counts {
            return t;
        }
        if s > lo {
            t = s - 1;
        } else {
            t = lo;
        }
    }
    t
}

/// The file name of `path`, read as a Unix path: its last segment that
/// counts. `None` where the path ends in `..` or holds no such segment.
pub fn path_file_name(path: &str) -> (r: Option<String>)
    ensures
        r is Some <==> file_name(path@) is Some,
        r matches Some(name) ==> name@ == file_name(path@)->0,
{
    let v = to_chars(path);
    let lo: usize = head_len_of(&v);
    let e: usize = trimmed_end_of(&v, lo, v.len());
    let s: usize = segment_start_of(&v, lo, e);
    if e <= lo || (e - s == 2 && v[s] == '.' && v[s + 1] == '.') {
        None
    } else {
        Some(path.substring_char(s, e).to_owned())
    }
}

fn last_dot_of(v: &Vec<char>, from: usize, to: usize) -> (d: Option<usize>)
    requires
        from <= to <= v.len(),
    ensures
        match d {
            Some(i) => from <= i < to && i - from == last_dot(
                v@.subrange(from as int, to as int),
                to - from,
            ),
            None => last_dot(v@.subrange(from as int, to as int), to - from) == -1,
        },
{
    let ghost name = v@.subrange(from as int, to as int);
    let mut i: usize = to;
    while i > from
        invariant
            from <= i <= to <= v.len(),
            name == v@.subrange(from as int, to as int),
            last_dot(name, to - from) == last_dot(name, i - from),
        decreases i,
    {
        if v[i - 1] == '.' {
            return Some(i - 1);
        }
        i = i - 1;
    }
    None
}

/// The extension of `path`, read as a Unix path: what follows the last dot
/// of its file name. `None` where there is no file name, where the name
/// holds no dot, and where its only dot comes first.
pub fn path_extension(path: &str) -> (r: Option<String>)
    ensures
        r is Some <==> extension(path@) is Some,
        r matches Some(ext) ==> ext@ == extension(path@)->0,
{
    let v = to_chars(path);
    let lo: usize = head_len_of(&v);
    let e: usize = trimmed_end_of(&v, lo, v.len());
    let s: usize = segment_start_of(&v, lo, e);
    if e <= lo || (e - s == 2 && v[s] == '.' && v[s + 1] == '.') {
        return None;
    }
    let ghost name = v@.subrange(s as int, e as int);
    match last_dot_of(&v, s, e) {
        None => None,
        Some(d) => {
            if d == s {
                None
            } else {
                assert(name.subrange(d - s + 1, name.len() as int) =~= v@.subrange(
                    d + 1,
                    e as int,
                ));
                Some(path.substring_char(d + 1, e).to_owned())
            }
        },
    }
}

/// The parent of `path`, read as a Unix path: the path without its last
/// segment. `None` for the root and for the empty path.
pub fn path_parent(path: &str) -> (r: Option<String>)
    ensures
        r is Some <==> parent(path@) is Some,
        r matches Some(q) ==> q@ == parent(path@)->0,
{
    let v = to_chars(path);
    let lo: usize = head_len_of(&v);
    let e: usize = trimmed_end_of(&v, lo, v.len());
    if e > lo {
        let s: usize = segment_start_of(&v, lo, e);
        let rest: usize = if s > lo {
            s - 1
        } else {
            lo
        };
        let t: usize = trimmed_end_of(&v, lo, rest);
        Some(path.substring_char(0, t).to_owned())
    } else if lo == 1 && v[0] == '.' {
        Some(String::new())
    } else {
        None
    }
}

/// `name` appended to `dir`, both read as Unix paths, with a separator
/// between the two where one is needed. A rooted `name` stands alone.
pub fn path_join(dir: &str, name: &str) -> (r: String)
    ensures
        r@ == join(dir@, name@),
{
    let d = to_chars(dir);
    let n = to_chars(name);
    if n.len() > 0 && n[0] == '/' {
        return name.to_owned();
    }
    let mut r: String = dir.to_owned();
    if d.len() > 0 && d[d.len() - 1] != '/' {
        proof {
            reveal_strlit("/");
            assert("/"@ =~= seq!['/']);
        }
        r.append("/");
    }
    r.append(name);
    r
}

/// Whether `name` is a hidden file's name by the Unix convention.
pub fn is_hidden_name(name: &str) -> (r: bool)
    ensures
        r == hidden_name(name@),
{
    let v = to_chars(name);
    v.len() > 0 && v[0] == '.'
}

} // verus!
