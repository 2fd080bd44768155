//! One level of a directory: what was read from disk, classified and
//! filtered by the hidden-file policy.

use vstd::prelude::*;
use crate::path::{
    file_name,
    hidden_name,
    is_hidden_name,
    is_plain_name,
    join,
    law_joined_name_is_the_file_name,
    path_file_name,
    path_join,
};
use crate::text::{
    chars_le,
    lemma_text_le_is_a_total_order,
    lemma_text_le_total,
    lemma_text_le_transitive,
    text_le,
    to_chars,
};

verus! {

/// What kind of thing a path names.
#[derive(Clone, Copy, Debug, PartialEq, Eq, Structural)]
pub enum EntryKind {
    File,
    Directory,
    Other,
}

/// What the file system reports of a path.
#[derive(Clone, Copy, Debug, PartialEq, Eq, Structural)]
pub struct EntryStat {
    pub is_file: bool,
    pub is_dir: bool,
}

/// Why a directory or a file could not be read or written.
#[derive(Clone, Copy, Debug, PartialEq, Eq, Structural)]
pub enum IoError {
    NotFound,
    PermissionDenied,
    NotADirectory,
    Other,
}

/// One child of a directory as it was read: its name, and its metadata
/// where that could be had.
#[derive(Debug)]
pub struct RawEntry {
    pub name: String,
    pub stat: Option<EntryStat>,
}

/// The mathematical value of a [`RawEntry`].
pub struct RawEntryView {
    pub name: Seq<char>,
    pub stat: Option<EntryStat>,
}

impl View for RawEntry {
    type V = RawEntryView;

    open spec fn view(&self) -> RawEntryView {
        RawEntryView { name: self.name@, stat: self.stat }
    }
}

/// One child of a directory, classified.
#[derive(Debug)]
pub struct FileEntry {
    pub name: String,
    pub absolute_path: String,
    pub kind: EntryKind,
    pub hidden: bool,
}

/// The mathematical value of a [`FileEntry`].
pub struct FileEntryView {
    pub name: Seq<char>,
    pub absolute_path: Seq<char>,
    pub kind: EntryKind,
    pub hidden: bool,
}

impl View for FileEntry {
    type V = FileEntryView;

    open spec fn view(&self) -> FileEntryView {
        FileEntryView {
            name: self.name@,
            absolute_path: self.absolute_path@,
            kind: self.kind,
            hidden: self.hidden,
        }
    }
}

impl Clone for FileEntry {
    fn clone(&self) -> (r: Self)
        ensures
            r@ == self@,
    {
        FileEntry {
            name: self.name.clone(),
            absolute_path: self.absolute_path.clone(),
            kind: self.kind,
            hidden: self.hidden,
        }
    }
}

/// The values of a sequence of raw entries.
pub open spec fn raw_views(s: Seq<RawEntry>) -> Seq<RawEntryView> {
    s.map_values(|e: RawEntry| e@)
}

/// The values of a sequence of entries.
pub open spec fn entry_views(s: Seq<FileEntry>) -> Seq<FileEntryView> {
    s.map_values(|e: FileEntry| e@)
}

/// The kind that the metadata gives. Without metadata the kind is `Other`.
pub open spec fn kind_of(stat: Option<EntryStat>) -> EntryKind {
    match stat {
        Some(s) => if s.is_dir {
            EntryKind::Directory
        } else if s.is_file {
            EntryKind::File
        } else {
            EntryKind::Other
        },
        None => EntryKind::Other,
    }
}

/// Whether a path counts as hidden: its metadata could be read and its file
/// name starts with a dot.
pub open spec fn hidden_of(path: Seq<char>, stat: Option<EntryStat>) -> bool {
    stat is Some && file_name(path) is Some && hidden_name(file_name(path)->0)
}

/// The entry that stands for the child `raw` of the directory `dir`.
pub open spec fn entry_of(dir: Seq<char>, raw: RawEntryView) -> FileEntryView {
    FileEntryView {
        name: raw.name,
        absolute_path: join(dir, raw.name),
        kind: kind_of(raw.stat),
        hidden: hidden_of(join(dir, raw.name), raw.stat),
    }
}

/// Whether a child is listed: always when hidden files are shown, else only
/// when its name does not start with a dot.
pub open spec fn is_listed(raw: RawEntryView, show_hidden: bool) -> bool {
    show_hidden || !hidden_name(raw.name)
}

/// Where an entry named `name` goes into `sorted`: behind every entry whose
/// name does not come after it.
pub open spec fn insert_pos(sorted: Seq<FileEntryView>, name: Seq<char>) -> int
    decreases sorted.len(),
{
    if sorted.len() == 0 {
        0
    } else if text_le(sorted.last().name, name) {
        sorted.len() as int
    } else {
        insert_pos(sorted.drop_last(), name)
    }
}

/// The entries of `s` in the lexicographic order of their names: a view in
/// a fixed order, for a caller that wants one. Entries of the same name
/// keep their order.
pub open spec fn sort_by_name(s: Seq<FileEntryView>) -> Seq<FileEntryView>
    decreases s.len(),
{
    if s.len() == 0 {
        s
    } else {
        let sorted = sort_by_name(s.drop_last());
        sorted.insert(insert_pos(sorted, s.last().name), s.last())
    }
}

/// The names of `s` are in order.
pub open spec fn is_ordered_by_name(s: Seq<FileEntryView>) -> bool {
    forall|i: int, j: int|
        0 <= i < j < s.len() ==> text_le(#[trigger] s[i].name, #[trigger] s[j].name)
}

/// The snapshot of a directory: its listed children, each classified, in
/// the order in which they were read.
pub open spec fn snapshot(dir: Seq<char>, listing: Seq<RawEntryView>, show_hidden: bool) -> Seq<
    FileEntryView,
> {
    listing.filter(|raw: RawEntryView| is_listed(raw, show_hidden)).map_values(
        |raw: RawEntryView| entry_of(dir, raw),
    )
}

/// The place that `insert_pos` gives lies within the sequence; what stands
/// before it does not come after `name`, and what stands behind it does.
pub proof fn lemma_insert_pos(sorted: Seq<FileEntryView>, name: Seq<char>)
    requires
        is_ordered_by_name(sorted),
    ensures
        0 <= insert_pos(sorted, name) <= sorted.len(),
        forall|i: int|
            0 <= i < insert_pos(sorted, name) ==> text_le(#[trigger] sorted[i].name, name),
        forall|i: int|
            insert_pos(sorted, name) <= i < sorted.len() ==> text_le(
                name,
                #[trigger] sorted[i].name,
            ),
    decreases sorted.len(),
{
    if sorted.len() > 0 {
        let last = sorted.last().name;
        if text_le(last, name) {
            assert forall|i: int| 0 <= i < sorted.len() implies text_le(
                #[trigger] sorted[i].name,
                name,
            ) by {
                if i < sorted.len() - 1 {
                    lemma_text_le_transitive(sorted[i].name, last, name, 0);
                }
            }
        } else {
            lemma_text_le_total(last, name, 0);
            let front = sorted.drop_last();
            assert forall|i: int, j: int| 0 <= i < j < front.len() implies text_le(
                #[trigger] front[i].name,
                #[trigger] front[j].name,
            ) by {
                assert(front[i] == sorted[i] && front[j] == sorted[j]);
            }
            lemma_insert_pos(front, name);
            assert forall|i: int| insert_pos(sorted, name) <= i < sorted.len() implies text_le(
                name,
                #[trigger] sorted[i].name,
            ) by {
                if i < sorted.len() - 1 {
                    assert(sorted[i] == front[i]);
                }
            }
            assert forall|i: int| 0 <= i < insert_pos(sorted, name) implies text_le(
                #[trigger] sorted[i].name,
                name,
            ) by {
                assert(sorted[i] == front[i]);
            }
        }
    }
}

/// Sorting puts the names in order and keeps every entry, as often as it
/// occurs.
pub proof fn lemma_sort_by_name(s: Seq<FileEntryView>)
    ensures
        is_ordered_by_name(sort_by_name(s)),
        sort_by_name(s).len() == s.len(),
        sort_by_name(s).to_multiset() == s.to_multiset(),
    decreases s.len(),
{
    if s.len() > 0 {
        let front = s.drop_last();
        let e = s.last();
        lemma_sort_by_name(front);
        let sorted = sort_by_name(front);
        lemma_insert_pos(sorted, e.name);
        let pos = insert_pos(sorted, e.name);
        let r = sorted.insert(pos, e);
        assert forall|i: int, j: int| 0 <= i < j < r.len() implies text_le(
            #[trigger] r[i].name,
            #[trigger] r[j].name,
        ) by {
            if i < pos && j > pos {
                lemma_text_le_transitive(r[i].name, e.name, r[j].name, 0);
            }
        }
        vstd::seq_lib::to_multiset_insert(sorted, pos, e);
        vstd::seq_lib::to_multiset_build(front, e);
        assert(front.push(e) =~= s);
        assert(r.to_multiset() =~= s.to_multiset());
    } else {
        assert(sort_by_name(s).to_multiset() =~= s.to_multiset());
    }
}

/// What a snapshot holds: exactly the entries of the children that the
/// hidden-file policy lists.
pub proof fn law_snapshot_holds_the_listed(
    dir: Seq<char>,
    listing: Seq<RawEntryView>,
    show_hidden: bool,
)
    ensures
        snapshot(dir, listing, show_hidden).len() <= listing.len(),
        forall|e: FileEntryView|
            snapshot(dir, listing, show_hidden).contains(e) <==> exists|j: int|
                0 <= j < listing.len() && is_listed(#[trigger] listing[j], show_hidden) && e
                    == entry_of(dir, listing[j]),
{
    let listed = |raw: RawEntryView| is_listed(raw, show_hidden);
    let kept = listing.filter(listed);
    let snap = snapshot(dir, listing, show_hidden);
    listing.lemma_filter_len(listed);
    assert forall|e: FileEntryView| snap.contains(e) <==> exists|j: int|
        0 <= j < listing.len() && is_listed(#[trigger] listing[j], show_hidden) && e == entry_of(
            dir,
            listing[j],
        ) by {
        if snap.contains(e) {
            let k = choose|k: int| 0 <= k < snap.len() && snap[k] == e;
            listing.lemma_filter_pred(listed, k);
            assert(kept.contains(kept[k]));
            listing.lemma_filter_contains_rev(listed, kept[k]);
            let j = choose|j: int| 0 <= j < listing.len() && listing[j] == kept[k];
            assert(is_listed(listing[j], show_hidden) && e == entry_of(dir, listing[j]));
        }
        if exists|j: int|
            0 <= j < listing.len() && is_listed(#[trigger] listing[j], show_hidden) && e
                == entry_of(dir, listing[j]) {
            let j = choose|j: int|
                0 <= j < listing.len() && is_listed(#[trigger] listing[j], show_hidden) && e
                    == entry_of(dir, listing[j]);
            listing.lemma_filter_contains(listed, j);
            let k = choose|k: int| 0 <= k < kept.len() && kept[k] == listing[j];
            assert(snap[k] == e);
        }
    }
}

/// A snapshot keeps the order read: the snapshot of a listing with one more
/// child at its end is the snapshot of the listing, with the entry of that
/// child at its end where the child is listed.
pub proof fn law_snapshot_keeps_the_order_read(
    dir: Seq<char>,
    listing: Seq<RawEntryView>,
    raw: RawEntryView,
    show_hidden: bool,
)
    ensures
        snapshot(dir, Seq::empty(), show_hidden) == Seq::<FileEntryView>::empty(),
        snapshot(dir, listing.push(raw), show_hidden) == if is_listed(raw, show_hidden) {
            snapshot(dir, listing, show_hidden).push(entry_of(dir, raw))
        } else {
            snapshot(dir, listing, show_hidden)
        },
{
    let listed = |raw: RawEntryView| is_listed(raw, show_hidden);
    let to_entry = |raw: RawEntryView| entry_of(dir, raw);
    Seq::<RawEntryView>::empty().lemma_filter_len(listed);
    assert(snapshot(dir, Seq::empty(), show_hidden) =~= Seq::<FileEntryView>::empty());
    listing.lemma_filter_push(raw, listed);
    listing.filter(listed).lemma_push_map_commute(to_entry, raw);
}

/// The names of a sequence of entries.
pub open spec fn entry_names(s: Seq<FileEntryView>) -> Seq<Seq<char>> {
    s.map_values(|e: FileEntryView| e.name)
}

/// Two sequences that hold the same elements equally often still do so
/// once a function was applied to each element.
proof fn lemma_map_keeps_the_elements<A, B>(s1: Seq<A>, s2: Seq<A>, f: spec_fn(A) -> B)
    requires
        s1.to_multiset() == s2.to_multiset(),
    ensures
        s1.map_values(f).to_multiset() == s2.map_values(f).to_multiset(),
    decreases s1.len(),
{
    s1.to_multiset_ensures();
    s2.to_multiset_ensures();
    if s1.len() == 0 {
        assert(s1.map_values(f) =~= s2.map_values(f));
    } else {
        let x = s1.last();
        let front = s1.drop_last();
        assert(s1[s1.len() - 1] == x);
        assert(s1.contains(x));
        assert(s1.to_multiset().count(x) > 0);
        assert(s2.to_multiset().count(x) > 0);
        assert(s2.contains(x));
        let i = choose|i: int| 0 <= i < s2.len() && s2[i] == x;
        let rest = s2.remove(i);
        vstd::seq_lib::to_multiset_remove(s2, i);
        vstd::seq_lib::to_multiset_remove(s1, s1.len() - 1);
        assert(s1.remove(s1.len() - 1) =~= front);
        lemma_map_keeps_the_elements(front, rest, f);
        assert(s1.map_values(f) =~= front.map_values(f).push(f(x)));
        assert(s2.map_values(f) =~= rest.map_values(f).insert(i, f(x)));
        vstd::seq_lib::to_multiset_build(front.map_values(f), f(x));
        vstd::seq_lib::to_multiset_insert(rest.map_values(f), i, f(x));
    }
}

/// Two sequences that hold the same elements equally often still do so
/// once both were filtered.
proof fn lemma_filter_keeps_the_elements<A>(s1: Seq<A>, s2: Seq<A>, pred: spec_fn(A) -> bool)
    requires
        s1.to_multiset() == s2.to_multiset(),
    ensures
        s1.filter(pred).to_multiset() == s2.filter(pred).to_multiset(),
    decreases s1.len(),
{
    s1.to_multiset_ensures();
    s2.to_multiset_ensures();
    if s1.len() == 0 {
        assert(s1 =~= s2);
    } else {
        let x = s1.last();
        let front = s1.drop_last();
        assert(s1[s1.len() - 1] == x);
        assert(s1.contains(x));
        assert(s1.to_multiset().count(x) > 0);
        assert(s2.to_multiset().count(x) > 0);
        assert(s2.contains(x));
        let i = choose|i: int| 0 <= i < s2.len() && s2[i] == x;
        let rest = s2.remove(i);
        vstd::seq_lib::to_multiset_remove(s2, i);
        vstd::seq_lib::to_multiset_remove(s1, s1.len() - 1);
        assert(s1.remove(s1.len() - 1) =~= front);
        lemma_filter_keeps_the_elements(front, rest, pred);
        assert(front.push(x) =~= s1);
        front.lemma_filter_push(x, pred);
        let a = rest.subrange(0, i);
        let b = rest.subrange(i, rest.len() as int);
        assert(rest =~= a + b);
        assert(s2 =~= a.push(x) + b);
        Seq::filter_distributes_over_add(a, b, pred);
        Seq::filter_distributes_over_add(a.push(x), b, pred);
        a.lemma_filter_push(x, pred);
        let fa = a.filter(pred);
        let fb = b.filter(pred);
        vstd::seq_lib::lemma_multiset_commutative(fa, fb);
        if pred(x) {
            vstd::seq_lib::lemma_multiset_commutative(fa.push(x), fb);
            vstd::seq_lib::to_multiset_build(fa, x);
            vstd::seq_lib::to_multiset_build(front.filter(pred), x);
            assert(s2.filter(pred).to_multiset() =~= rest.filter(pred).to_multiset().insert(x));
        }
    }
}

/// The view in the order of the names does not depend on the order in
/// which the children were read: two listings of the same children, none
/// of which shares its name with another, have the same sorted snapshot.
pub proof fn law_sorted_view_ignores_the_order_read(
    dir: Seq<char>,
    first: Seq<RawEntryView>,
    second: Seq<RawEntryView>,
    show_hidden: bool,
)
    requires
        first.to_multiset() == second.to_multiset(),
        forall|i: int, j: int|
            0 <= i < j < first.len() ==> (#[trigger] first[i]).name != (#[trigger] first[j]).name,
    ensures
        sort_by_name(snapshot(dir, first, show_hidden)) == sort_by_name(
            snapshot(dir, second, show_hidden),
        ),
{
    let listed = |raw: RawEntryView| is_listed(raw, show_hidden);
    let to_entry = |raw: RawEntryView| entry_of(dir, raw);
    let name_of = |e: FileEntryView| e.name;
    let leq = |a: Seq<char>, b: Seq<char>| text_le(a, b);
    let read_one = snapshot(dir, first, show_hidden);
    let read_two = snapshot(dir, second, show_hidden);
    let one = sort_by_name(read_one);
    let two = sort_by_name(read_two);
    law_snapshot_holds_the_listed(dir, first, show_hidden);
    law_snapshot_holds_the_listed(dir, second, show_hidden);
    lemma_sort_by_name(read_one);
    lemma_sort_by_name(read_two);
    lemma_filter_keeps_the_elements(first, second, listed);
    lemma_map_keeps_the_elements(first.filter(listed), second.filter(listed), to_entry);
    lemma_map_keeps_the_elements(one, two, name_of);
    lemma_text_le_is_a_total_order();
    assert(vstd::relations::sorted_by(entry_names(one), leq)) by {
        assert forall|i: int, j: int| 0 <= i < j < entry_names(one).len() implies #[trigger] leq(
            entry_names(one)[i],
            entry_names(one)[j],
        ) by {
            assert(text_le(one[i].name, one[j].name));
        }
    }
    assert(vstd::relations::sorted_by(entry_names(two), leq)) by {
        assert forall|i: int, j: int| 0 <= i < j < entry_names(two).len() implies #[trigger] leq(
            entry_names(two)[i],
            entry_names(two)[j],
        ) by {
            assert(text_le(two[i].name, two[j].name));
        }
    }
    vstd::seq_lib::lemma_sorted_unique(entry_names(one), entry_names(two), leq);
    first.to_multiset_ensures();
    second.to_multiset_ensures();
    one.to_multiset_ensures();
    two.to_multiset_ensures();
    read_one.to_multiset_ensures();
    read_two.to_multiset_ensures();
    assert(one.len() == two.len()) by {
        assert(entry_names(one).len() == entry_names(two).len());
    }
    assert forall|k: int| 0 <= k < one.len() implies one[k] == two[k] by {
        assert(entry_names(one)[k] == entry_names(two)[k]);
        assert(one.contains(one[k]));
        assert(one.to_multiset().count(one[k]) > 0);
        assert(read_one.to_multiset().count(one[k]) > 0);
        assert(read_one.contains(one[k]));
        assert(two.contains(two[k]));
        assert(two.to_multiset().count(two[k]) > 0);
        assert(read_two.to_multiset().count(two[k]) > 0);
        assert(read_two.contains(two[k]));
        let j1 = choose|j: int|
            0 <= j < first.len() && is_listed(#[trigger] first[j], show_hidden) && one[k]
                == entry_of(dir, first[j]);
        let j2 = choose|j: int|
            0 <= j < second.len() && is_listed(#[trigger] second[j], show_hidden) && two[k]
                == entry_of(dir, second[j]);
        assert(second.contains(second[j2]));
        assert(second.to_multiset().count(second[j2]) > 0);
        assert(first.to_multiset().count(second[j2]) > 0);
        assert(first.contains(second[j2]));
        let j3 = choose|j: int| 0 <= j < first.len() && first[j] == second[j2];
        assert(first[j1].name == first[j3].name);
        if j1 < j3 {
            assert(first[j1].name != first[j3].name);
        } else if j3 < j1 {
            assert(first[j3].name != first[j1].name);
        }
    }
    assert(one =~= two);
}

/// In a snapshot whose children have plain names, an entry is marked hidden
/// exactly when its name starts with a dot and its metadata could be read;
/// so where hidden files are not shown, no entry is marked hidden.
pub proof fn law_hidden_goes_by_the_name(
    dir: Seq<char>,
    listing: Seq<RawEntryView>,
    show_hidden: bool,
)
    requires
        forall|j: int| 0 <= j < listing.len() ==> is_plain_name((#[trigger] listing[j]).name),
    ensures
        forall|j: int|
            0 <= j < listing.len() ==> (#[trigger] entry_of(dir, listing[j])).hidden == (
            listing[j].stat is Some && hidden_name(listing[j].name)),
        !show_hidden ==> forall|k: int|
            0 <= k < snapshot(dir, listing, show_hidden).len() ==> !(#[trigger] snapshot(
                dir,
                listing,
                show_hidden,
            )[k]).hidden,
{
    assert forall|j: int| 0 <= j < listing.len() implies (#[trigger] entry_of(
        dir,
        listing[j],
    )).hidden == (listing[j].stat is Some && hidden_name(listing[j].name)) by {
        law_joined_name_is_the_file_name(dir, listing[j].name);
    }
    law_snapshot_holds_the_listed(dir, listing, show_hidden);
    let snap = snapshot(dir, listing, show_hidden);
    if !show_hidden {
        assert forall|k: int| 0 <= k < snap.len() implies !(#[trigger] snap[k]).hidden by {
            assert(snap.contains(snap[k]));
            let j = choose|j: int|
                0 <= j < listing.len() && is_listed(#[trigger] listing[j], show_hidden) && snap[k]
                    == entry_of(dir, listing[j]);
            assert(entry_of(dir, listing[j]).hidden == (listing[j].stat is Some && hidden_name(
                listing[j].name,
            )));
        }
    }
}

/// With hidden files shown a snapshot holds every child that was read, in
/// the order read; with hidden files not shown it holds no name that starts
/// with a dot, and every other child.
pub proof fn law_hidden_files_filter(dir: Seq<char>, listing: Seq<RawEntryView>)
    ensures
        snapshot(dir, listing, true).len() == listing.len(),
        forall|j: int|
            0 <= j < listing.len() ==> (#[trigger] snapshot(dir, listing, true)[j]) == entry_of(
                dir,
                listing[j],
            ),
        forall|k: int|
            0 <= k < snapshot(dir, listing, false).len() ==> !hidden_name(
                (#[trigger] snapshot(dir, listing, false)[k]).name,
            ),
        forall|j: int|
            0 <= j < listing.len() && !hidden_name((#[trigger] listing[j]).name) ==> snapshot(
                dir,
                listing,
                false,
            ).contains(entry_of(dir, listing[j])),
{
    law_snapshot_holds_the_listed(dir, listing, false);
    let all = |raw: RawEntryView| is_listed(raw, true);
    assert(listing.filter(all) =~= listing) by {
        lemma_filter_keeps_all(listing, all);
    }
    let hidden_off = snapshot(dir, listing, false);
    assert forall|k: int| 0 <= k < hidden_off.len() implies !hidden_name(
        (#[trigger] hidden_off[k]).name,
    ) by {
        assert(hidden_off.contains(hidden_off[k]));
    }
}

/// A filter that every element passes changes nothing.
proof fn lemma_filter_keeps_all<A>(s: Seq<A>, pred: spec_fn(A) -> bool)
    requires
        forall|i: int| 0 <= i < s.len() ==> pred(#[trigger] s[i]),
    ensures
        s.filter(pred) == s,
    decreases s.len(),
{
    reveal(Seq::filter);
    if s.len() > 0 {
        lemma_filter_keeps_all(s.drop_last(), pred);
        assert(s.drop_last().push(s.last()) =~= s);
    }
}

/// Classifies a path by what the file system reported of it. Where the
/// metadata could not be read the kind is `Other` and the path is not hidden.
pub fn classify(path: &str, stat: Option<EntryStat>) -> (r: (EntryKind, bool))
    ensures
        r.0 == kind_of(stat),
        r.1 == hidden_of(path@, stat),
{
    match stat {
        None => (EntryKind::Other, false),
        Some(s) => {
            let kind = if s.is_dir {
                EntryKind::Directory
            } else if s.is_file {
                EntryKind::File
            } else {
                EntryKind::Other
            };
            let hidden = match path_file_name(path) {
                Some(name) => is_hidden_name(name.as_str()),
                None => false,
            };
            (kind, hidden)
        },
    }
}

/// Sorts entries by their names, for a caller that wants a view in a fixed
/// order. Entries of the same name keep their order.
pub fn sort_entries(entries: Vec<FileEntry>) -> (r: Vec<FileEntry>)
    ensures
        entry_views(r@) == sort_by_name(entry_views(entries@)),
{
    let ghost all = entry_views(entries@);
    let mut sorted: Vec<FileEntry> = Vec::new();
    let mut keys: Vec<Vec<char>> = Vec::new();
    let mut i: usize = 0;
    assert(all.take(0) =~= Seq::<FileEntryView>::empty());
    while i < entries.len()
        invariant
            i <= entries.len(),
            all == entry_views(entries@),
            entry_views(sorted@) =~= sort_by_name(all.take(i as int)),
            keys.len() == sorted.len(),
            forall|k: int| 0 <= k < keys.len() ==> (#[trigger] keys@[k])@ == sorted@[k].name@,
        decreases entries.len() - i,
    {
        let entry = entries[i].clone();
        let key = to_chars(entry.name.as_str());
        let ghost done = entry_views(sorted@);
        let mut pos: usize = sorted.len();
        assert(done.take(pos as int) =~= done);
        while pos > 0 && !chars_le(&keys[pos - 1], &key)
            invariant
                pos <= sorted.len() == keys.len(),
                done == entry_views(sorted@),
                forall|k: int| 0 <= k < keys.len() ==> (#[trigger] keys@[k])@ == sorted@[k].name@,
                insert_pos(done, key@) == insert_pos(done.take(pos as int), key@),
            decreases pos,
        {
            assert(done.take(pos as int).drop_last() =~= done.take(pos - 1));
            pos = pos - 1;
        }
        proof {
            if pos > 0 {
                assert(done.take(pos as int).last() == done[pos - 1]);
            }
            assert(all.take(i + 1).drop_last() =~= all.take(i as int));
            assert(entry_views(sorted@.insert(pos as int, entry)) =~= done.insert(
                pos as int,
                entry@,
            ));
        }
        sorted.insert(pos, entry);
        keys.insert(pos, key);
        i = i + 1;
    }
    assert(all.take(entries@.len() as int) =~= all);
    sorted
}

/// The snapshot of the directory `dir` from its listing: the children that
/// the hidden-file policy lists, each with its path and classification, in
/// the order in which they were read.
pub fn snapshot_entries(dir: &str, listing: &Vec<RawEntry>, show_hidden: bool) -> (r: Vec<
    FileEntry,
>)
    ensures
        entry_views(r@) == snapshot(dir@, raw_views(listing@), show_hidden),
{
    let ghost listed = |raw: RawEntryView| is_listed(raw, show_hidden);
    let ghost to_entry = |raw: RawEntryView| entry_of(dir@, raw);
    let mut out: Vec<FileEntry> = Vec::new();
    let mut i: usize = 0;
    proof {
        raw_views(listing@).take(0).lemma_filter_len(listed);
    }
    while i < listing.len()
        invariant
            i <= listing.len(),
            listed == |raw: RawEntryView| is_listed(raw, show_hidden),
            to_entry == |raw: RawEntryView| entry_of(dir@, raw),
            entry_views(out@) =~= raw_views(listing@).take(i as int).filter(listed).map_values(
                to_entry,
            ),
        decreases listing.len() - i,
    {
        let raw = &listing[i];
        let ghost before = raw_views(listing@).take(i as int);
        proof {
            raw_views(listing@).lemma_take_succ_push(i as int);
            before.lemma_filter_push(raw@, listed);
            before.filter(listed).lemma_push_map_commute(to_entry, raw@);
        }
        if show_hidden || !is_hidden_name(raw.name.as_str()) {
            let absolute_path = path_join(dir, raw.name.as_str());
            let (kind, hidden) = classify(absolute_path.as_str(), raw.stat);
            let entry = FileEntry { name: raw.name.clone(), absolute_path, kind, hidden };
            proof {
                assert(entry@ == to_entry(raw@));
                assert(entry_views(out@.push(entry)) =~= entry_views(out@).push(entry@));
            }
            out.push(entry);
        }
        i = i + 1;
    }
    proof {
        assert(raw_views(listing@).take(listing@.len() as int) =~= raw_views(listing@));
    }
    out
}

/// The snapshot of the directory `dir` from what came of reading it. A
/// failed read is handed on unchanged.
pub fn read_directory(dir: &str, listing: Result<Vec<RawEntry>, IoError>, show_hidden: bool) -> (r:
    Result<Vec<FileEntry>, IoError>)
    ensures
        match listing {
            Ok(raws) => r is Ok && entry_views(r->Ok_0@) == snapshot(
                dir@,
                raw_views(raws@),
                show_hidden,
            ),
            Err(e) => r == Err::<Vec<FileEntry>, IoError>(e),
        },
{
    match listing {
        Ok(raws) => Ok(snapshot_entries(dir, &raws, show_hidden)),
        Err(e) => Err(e),
    }
}

} // verus!
