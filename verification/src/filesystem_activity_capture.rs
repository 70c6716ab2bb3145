//! Polling capture of user-selected folders: the snapshot of files taken at
//! each poll, the changes between two consecutive snapshots, and the events
//! that record them. Only filesystem evidence is recorded, never who edited a
//! file.
use vstd::prelude::*;
use std::time::SystemTime;
use crate::text::{string_from, append_str, u128_to_decimal, decimal, string_views};
use crate::activity_capture::{matches_path_exclusion, path_excluded};
use crate::raw_event::{RawEvent, EventStamp, FULL_CONFIDENCE_PERMILLE, stamp_now, stamped_at, is_hyphenated_uuid};

verus! {

/// Paths and modification times (nanoseconds since the Unix epoch, zero when
/// unknown) as plain values.
pub open spec fn entry_views(v: Seq<(String, u128)>) -> Seq<(Seq<char>, u128)> {
    v.map_values(|e: (String, u128)| (e.0@, e.1))
}

/// Whether `p` is one of the paths of `s`.
pub open spec fn has_path(s: Seq<(Seq<char>, u128)>, p: Seq<char>) -> bool {
    exists|i: int| 0 <= i < s.len() && (#[trigger] s[i]).0 == p
}

/// Whether no path occurs twice in `s`.
pub open spec fn distinct_paths(s: Seq<(Seq<char>, u128)>) -> bool {
    forall|i: int, j: int|
        0 <= i < s.len() && 0 <= j < s.len() && i != j ==> (#[trigger] s[i]).0 != (#[trigger] s[j]).0
}

/// The position of path `p` in `s`.
pub open spec fn path_index(s: Seq<(Seq<char>, u128)>, p: Seq<char>) -> int {
    choose|i: int| 0 <= i < s.len() && (#[trigger] s[i]).0 == p
}

/// The modification time recorded for path `p` in `s`.
pub open spec fn modified_of(s: Seq<(Seq<char>, u128)>, p: Seq<char>) -> u128 {
    s[path_index(s, p)].1
}

/// `s` after recording `modified` for `p`: an existing entry keeps its place,
/// a new path goes last.
pub open spec fn snapshot_insert(s: Seq<(Seq<char>, u128)>, p: Seq<char>, modified: u128) -> Seq<(Seq<char>, u128)> {
    if has_path(s, p) {
        s.update(path_index(s, p), (p, modified))
    } else {
        s.push((p, modified))
    }
}

proof fn lemma_modified_at(s: Seq<(Seq<char>, u128)>, p: Seq<char>, i: int)
    requires
        distinct_paths(s),
        0 <= i < s.len(),
        s[i].0 == p,
    ensures
        has_path(s, p),
        path_index(s, p) == i,
        modified_of(s, p) == s[i].1,
{
    assert(has_path(s, p));
    let j = path_index(s, p);
    assert(s[j].0 == s[i].0);
}

/// The files found under the watched folders at one poll, each path once.
pub struct FileSnapshot {
    entries: Vec<(String, u128)>,
}

impl View for FileSnapshot {
    type V = Seq<(Seq<char>, u128)>;

    closed spec fn view(&self) -> Seq<(Seq<char>, u128)> {
        entry_views(self.entries@)
    }
}

/// Finds the position of `path` among `entries`.
fn find_entry(entries: &Vec<(String, u128)>, path: &String) -> (r: Option<usize>)
    ensures
        match r {
            Some(i) => i < entries@.len() && entry_views(entries@)[i as int].0 == path@,
            None => !has_path(entry_views(entries@), path@),
        },
{
    let ghost s = entry_views(entries@);
    let mut i: usize = 0;
    while i < entries.len()
        invariant
            s == entry_views(entries@),
            i <= entries@.len(),
            forall|j: int| 0 <= j < i ==> (#[trigger] s[j]).0 != path@,
        decreases entries@.len() - i,
    {
        if entries[i].0 == *path {
            return Some(i);
        }
        i = i + 1;
    }
    None
}

impl FileSnapshot {
    #[verifier::type_invariant]
    spec fn paths_distinct(&self) -> bool {
        distinct_paths(entry_views(self.entries@))
    }

    /// A snapshot with no files.
    pub fn new() -> (s: Self)
        ensures
            s@ == Seq::<(Seq<char>, u128)>::empty(),
    {
        let s = FileSnapshot { entries: Vec::new() };
        assert(s@ =~= Seq::<(Seq<char>, u128)>::empty());
        s
    }

    /// Records the modification time of `path`, replacing an earlier one.
    pub fn insert(&mut self, path: String, modified: u128)
        ensures
            final(self)@ == snapshot_insert(old(self)@, path@, modified),
            distinct_paths(final(self)@),
    {
        proof {
            use_type_invariant(&*self);
        }
        let ghost s = self@;
        let found = find_entry(&self.entries, &path);
        let ghost key = path@;
        let mut entries = Vec::new();
        std::mem::swap(&mut entries, &mut self.entries);
        match found {
            Some(i) => {
                proof {
                    lemma_modified_at(s, key, i as int);
                }
                entries.set(i, (path, modified));
                assert(entry_views(entries@) =~= s.update(i as int, (key, modified)));
            },
            None => {
                entries.push((path, modified));
                assert(entry_views(entries@) =~= s.push((key, modified)));
            },
        }
        assert(distinct_paths(entry_views(entries@)));
        self.entries = entries;
    }

    /// Records the modification time of `path` unless an entry of
    /// `excluded_paths` matches it (see [`path_excluded`]); says whether it
    /// was recorded. A snapshot free of excluded paths stays free of them.
    pub fn insert_unless_excluded(&mut self, excluded_paths: &Vec<String>, path: String, modified: u128) -> (recorded: bool)
        ensures
            recorded == !path_excluded(string_views(excluded_paths@), path@),
            recorded ==> final(self)@ == snapshot_insert(old(self)@, path@, modified),
            !recorded ==> final(self)@ == old(self)@,
            (forall|i: int|
                0 <= i < old(self)@.len() ==> !path_excluded(string_views(excluded_paths@), (#[trigger] old(self)@[i]).0))
                ==> (forall|i: int|
                0 <= i < final(self)@.len() ==> !path_excluded(string_views(excluded_paths@), (#[trigger] final(self)@[i]).0)),
    {
        if matches_path_exclusion(excluded_paths, path.as_str()) {
            return false;
        }
        let ghost before = self@;
        let ghost key = path@;
        self.insert(path, modified);
        assert forall|i: int| 0 <= i < self@.len() implies self@[i].0 == key || exists|j: int|
            0 <= j < before.len() && #[trigger] before[j].0 == self@[i].0 by {
            if has_path(before, key) {
                if i != path_index(before, key) {
                    assert(before[i].0 == self@[i].0);
                }
            } else if i < before.len() {
                assert(before[i].0 == self@[i].0);
            }
        }
        true
    }

    /// The modification time recorded for `path`, if it was seen.
    pub fn get(&self, path: &str) -> (r: Option<u128>)
        ensures
            r == (if has_path(self@, path@) { Some(modified_of(self@, path@)) } else { None }),
    {
        proof {
            use_type_invariant(self);
        }
        let key = string_from(path);
        match find_entry(&self.entries, &key) {
            Some(i) => {
                proof {
                    lemma_modified_at(self@, path@, i as int);
                }
                Some(self.entries[i].1)
            },
            None => None,
        }
    }

    /// How many files the snapshot holds.
    pub fn len(&self) -> (n: usize)
        ensures
            n == self@.len(),
    {
        self.entries.len()
    }
}

/// What happened to a file between two polls.
#[derive(Debug, Clone, Copy, PartialEq, Eq, Structural)]
pub enum FileChangeKind {
    Created,
    Modified,
    Deleted,
    Renamed,
}

/// One change to record: its kind, the file's path (the new path of a
/// renamed file) and its modification time (zero for a deleted file).
#[derive(Debug, Clone)]
pub struct FileChange {
    pub kind: FileChangeKind,
    pub path: String,
    pub modified: u128,
}

/// A change as plain values.
pub open spec fn change_view(c: FileChange) -> (FileChangeKind, Seq<char>, u128) {
    (c.kind, c.path@, c.modified)
}

/// Changes as plain values.
pub open spec fn change_views(v: Seq<FileChange>) -> Seq<(FileChangeKind, Seq<char>, u128)> {
    v.map_values(|c: FileChange| change_view(c))
}

/// The predicate keeping entries whose path is not in `other`.
pub open spec fn absent_from(other: Seq<(Seq<char>, u128)>) -> spec_fn((Seq<char>, u128)) -> bool {
    |e: (Seq<char>, u128)| !has_path(other, e.0)
}

/// Files of `previous` no longer in `current`, in the order of `previous`.
pub open spec fn vanished(previous: Seq<(Seq<char>, u128)>, current: Seq<(Seq<char>, u128)>) -> Seq<(Seq<char>, u128)> {
    previous.filter(absent_from(current))
}

/// Files of `current` not in `previous`, in the order of `current`.
pub open spec fn appeared(previous: Seq<(Seq<char>, u128)>, current: Seq<(Seq<char>, u128)>) -> Seq<(Seq<char>, u128)> {
    current.filter(absent_from(previous))
}

/// The vanished and appeared files taken pairwise, in order, as far as the
/// shorter of the two lists goes: the candidates for renames.
pub open spec fn candidate_pairs(vanished: Seq<(Seq<char>, u128)>, appeared: Seq<(Seq<char>, u128)>) -> Seq<((Seq<char>, u128), (Seq<char>, u128))> {
    let n = if vanished.len() < appeared.len() { vanished.len() } else { appeared.len() };
    Seq::new(n, |k: int| (vanished[k], appeared[k]))
}

/// The rename recorded for a candidate pair: when both times agree and are
/// known.
pub open spec fn rename_of(pair: ((Seq<char>, u128), (Seq<char>, u128))) -> Option<(FileChangeKind, Seq<char>, u128)> {
    if pair.0.1 == pair.1.1 && pair.0.1 > 0 {
        Some((FileChangeKind::Renamed, pair.1.0, pair.1.1))
    } else {
        None
    }
}

/// [`rename_of`] as a function value.
pub open spec fn rename_change() -> spec_fn(((Seq<char>, u128), (Seq<char>, u128))) -> Option<(FileChangeKind, Seq<char>, u128)> {
    |pair: ((Seq<char>, u128), (Seq<char>, u128))| rename_of(pair)
}

/// Whether path `p` is the new side of a candidate pair with equal times.
pub open spec fn arrived_by_move(pairs: Seq<((Seq<char>, u128), (Seq<char>, u128))>, p: Seq<char>) -> bool {
    exists|k: int| 0 <= k < pairs.len() && (#[trigger] pairs[k]).1.0 == p && pairs[k].0.1 == pairs[k].1.1
}

/// Whether path `p` is the old side of a candidate pair with equal times.
pub open spec fn left_by_move(pairs: Seq<((Seq<char>, u128), (Seq<char>, u128))>, p: Seq<char>) -> bool {
    exists|k: int| 0 <= k < pairs.len() && (#[trigger] pairs[k]).0.0 == p && pairs[k].0.1 == pairs[k].1.1
}

/// The change recorded for a file of the current poll: created when it is
/// new and did not arrive by a move, modified when its time changed.
pub open spec fn current_change(
    previous: Seq<(Seq<char>, u128)>,
    pairs: Seq<((Seq<char>, u128), (Seq<char>, u128))>,
) -> spec_fn((Seq<char>, u128)) -> Option<(FileChangeKind, Seq<char>, u128)> {
    |e: (Seq<char>, u128)|
        if !has_path(previous, e.0) {
            if !arrived_by_move(pairs, e.0) {
                Some((FileChangeKind::Created, e.0, e.1))
            } else {
                None
            }
        } else if modified_of(previous, e.0) != e.1 {
            Some((FileChangeKind::Modified, e.0, e.1))
        } else {
            None
        }
}

/// The change recorded for a file of the previous poll: deleted when it is
/// gone and did not leave by a move.
pub open spec fn previous_change(
    current: Seq<(Seq<char>, u128)>,
    pairs: Seq<((Seq<char>, u128), (Seq<char>, u128))>,
) -> spec_fn((Seq<char>, u128)) -> Option<(FileChangeKind, Seq<char>, u128)> {
    |e: (Seq<char>, u128)|
        if !has_path(current, e.0) && !left_by_move(pairs, e.0) {
            Some((FileChangeKind::Deleted, e.0, 0u128))
        } else {
            None
        }
}

/// Every change between two polls, in recording order: renames, then
/// creations and modifications in the order of `current`, then deletions in
/// the order of `previous`.
pub open spec fn snapshot_changes(previous: Seq<(Seq<char>, u128)>, current: Seq<(Seq<char>, u128)>) -> Seq<(FileChangeKind, Seq<char>, u128)> {
    let pairs = candidate_pairs(vanished(previous, current), appeared(previous, current));
    pairs.filter_map(rename_change())
        + current.filter_map(current_change(previous, pairs))
        + previous.filter_map(previous_change(current, pairs))
}

proof fn lemma_filter_rejects_all(s: Seq<(Seq<char>, u128)>, p: spec_fn((Seq<char>, u128)) -> bool)
    requires
        forall|i: int| 0 <= i < s.len() ==> !p(#[trigger] s[i]),
    ensures
        s.filter(p) == Seq::<(Seq<char>, u128)>::empty(),
    decreases s.len(),
{
    reveal(Seq::filter);
    if s.len() > 0 {
        assert forall|i: int| 0 <= i < s.drop_last().len() implies !p(#[trigger] s.drop_last()[i]) by {
            assert(s.drop_last()[i] == s[i]);
        }
        lemma_filter_rejects_all(s.drop_last(), p);
        assert(!p(s[s.len() - 1]));
    }
}

proof fn lemma_filter_map_none<B>(s: Seq<(Seq<char>, u128)>, f: spec_fn((Seq<char>, u128)) -> Option<B>)
    requires
        forall|i: int| 0 <= i < s.len() ==> f(#[trigger] s[i]) is None,
    ensures
        s.filter_map(f) == Seq::<B>::empty(),
    decreases s.len(),
{
    if s.len() > 0 {
        assert forall|i: int| 0 <= i < s.drop_last().len() implies f(#[trigger] s.drop_last()[i]) is None by {
            assert(s.drop_last()[i] == s[i]);
        }
        lemma_filter_map_none(s.drop_last(), f);
        assert(f(s[s.len() - 1]) is None);
    }
}

/// Polling folders whose files did not change records nothing: no file is
/// created, modified, renamed or deleted between a snapshot and itself.
pub proof fn law_unchanged_snapshot_has_no_changes(s: Seq<(Seq<char>, u128)>)
    requires
        distinct_paths(s),
    ensures
        snapshot_changes(s, s) == Seq::<(FileChangeKind, Seq<char>, u128)>::empty(),
{
    assert forall|i: int| 0 <= i < s.len() implies !absent_from(s)(#[trigger] s[i]) by {
        assert(has_path(s, s[i].0));
    }
    lemma_filter_rejects_all(s, absent_from(s));
    let pairs = candidate_pairs(vanished(s, s), appeared(s, s));
    assert(pairs =~= Seq::<((Seq<char>, u128), (Seq<char>, u128))>::empty());
    let renames = pairs.filter_map(rename_change());
    assert(renames =~= Seq::<(FileChangeKind, Seq<char>, u128)>::empty());
    assert forall|i: int| 0 <= i < s.len() implies (#[trigger] current_change(s, pairs)(s[i])) is None by {
        lemma_modified_at(s, s[i].0, i);
    }
    lemma_filter_map_none(s, current_change(s, pairs));
    assert forall|i: int| 0 <= i < s.len() implies (#[trigger] previous_change(s, pairs)(s[i])) is None by {
        assert(has_path(s, s[i].0));
    }
    lemma_filter_map_none(s, previous_change(s, pairs));
    assert(snapshot_changes(s, s) =~= Seq::<(FileChangeKind, Seq<char>, u128)>::empty());
}

/// What a reported change says of the two snapshots it came from.
pub open spec fn change_is_grounded(
    previous: Seq<(Seq<char>, u128)>,
    current: Seq<(Seq<char>, u128)>,
    change: (FileChangeKind, Seq<char>, u128),
) -> bool {
    if change.0 == FileChangeKind::Deleted {
        has_path(previous, change.1) && !has_path(current, change.1) && change.2 == 0
    } else {
        has_path(current, change.1)
    }
}

proof fn lemma_contained_path(s: Seq<(Seq<char>, u128)>, e: (Seq<char>, u128))
    requires
        s.contains(e),
    ensures
        has_path(s, e.0),
{
    let i = choose|i: int| 0 <= i < s.len() && s[i] == e;
    assert(s[i].0 == e.0);
}

/// Every reported change is backed by the snapshots: a created, modified or
/// renamed file is present in the current poll (a renamed one under its new
/// path); a deleted file was present before, is gone now, and is reported
/// with time zero.
pub proof fn law_changes_are_grounded(previous: Seq<(Seq<char>, u128)>, current: Seq<(Seq<char>, u128)>)
    ensures
        forall|i: int|
            0 <= i < snapshot_changes(previous, current).len() ==> change_is_grounded(
                previous,
                current,
                #[trigger] snapshot_changes(previous, current)[i],
            ),
{
    let pairs = candidate_pairs(vanished(previous, current), appeared(previous, current));
    let renames = pairs.filter_map(rename_change());
    let updates = current.filter_map(current_change(previous, pairs));
    let deletions = previous.filter_map(previous_change(current, pairs));
    let all = snapshot_changes(previous, current);
    assert(all == renames + updates + deletions);
    assert forall|i: int| 0 <= i < all.len() implies change_is_grounded(previous, current, #[trigger] all[i]) by {
        let x = all[i];
        if i < renames.len() {
            assert(renames[i] == x);
            assert(renames.contains(x));
            pairs.lemma_filter_map_contains(rename_change(), x);
            let t = choose|t: ((Seq<char>, u128), (Seq<char>, u128))|
                #[trigger] pairs.contains(t) && rename_change()(t) == Some(x);
            let j = choose|j: int| 0 <= j < pairs.len() && pairs[j] == t;
            let a = appeared(previous, current);
            assert(t.1 == a[j]);
            assert(a.contains(a[j]));
            current.lemma_filter_contains_rev(absent_from(previous), a[j]);
            lemma_contained_path(current, a[j]);
        } else if i < renames.len() + updates.len() {
            assert(updates[i - renames.len()] == x);
            assert(updates.contains(x));
            current.lemma_filter_map_contains(current_change(previous, pairs), x);
            let t = choose|t: (Seq<char>, u128)|
                #[trigger] current.contains(t) && current_change(previous, pairs)(t) == Some(x);
            lemma_contained_path(current, t);
        } else {
            assert(deletions[i - renames.len() - updates.len()] == x);
            assert(deletions.contains(x));
            previous.lemma_filter_map_contains(previous_change(current, pairs), x);
            let t = choose|t: (Seq<char>, u128)|
                #[trigger] previous.contains(t) && previous_change(current, pairs)(t) == Some(x);
            lemma_contained_path(previous, t);
        }
    }
}

proof fn lemma_filter_map_keeps<B>(s: Seq<(Seq<char>, u128)>, f: spec_fn((Seq<char>, u128)) -> Option<B>, i: int)
    requires
        0 <= i < s.len(),
        f(s[i]) is Some,
    ensures
        s.filter_map(f).contains(f(s[i])->0),
    decreases s.len(),
{
    let rest = s.drop_last();
    if i == s.len() - 1 {
        let out = s.filter_map(f);
        assert(out == rest.filter_map(f) + seq![f(s[i])->0]);
        assert(out[out.len() - 1] == f(s[i])->0);
    } else {
        assert(rest[i] == s[i]);
        lemma_filter_map_keeps(rest, f, i);
        let k = choose|k: int| 0 <= k < rest.filter_map(f).len() && rest.filter_map(f)[k] == f(s[i])->0;
        let out = s.filter_map(f);
        assert(out[k] == rest.filter_map(f)[k]);
    }
}

/// A file present at both polls whose modification time differs between
/// them is reported as modified with its current time, whether the time
/// moved forward or back (a file restored from an older copy); one whose
/// time is the same at both polls is never reported as modified.
pub proof fn law_changed_time_is_a_modification(
    previous: Seq<(Seq<char>, u128)>,
    current: Seq<(Seq<char>, u128)>,
    p: Seq<char>,
)
    requires
        distinct_paths(previous),
        distinct_paths(current),
        has_path(previous, p),
        has_path(current, p),
    ensures
        modified_of(previous, p) != modified_of(current, p) ==> snapshot_changes(previous, current).contains(
            (FileChangeKind::Modified, p, modified_of(current, p)),
        ),
        modified_of(previous, p) == modified_of(current, p) ==> forall|t: u128|
            !(#[trigger] snapshot_changes(previous, current).contains((FileChangeKind::Modified, p, t))),
{
    let pairs = candidate_pairs(vanished(previous, current), appeared(previous, current));
    let renames = pairs.filter_map(rename_change());
    let f = current_change(previous, pairs);
    let updates = current.filter_map(f);
    let deletions = previous.filter_map(previous_change(current, pairs));
    let all = snapshot_changes(previous, current);
    assert(all == renames + updates + deletions);
    let i = path_index(current, p);
    lemma_modified_at(current, p, i);
    if modified_of(previous, p) != modified_of(current, p) {
        assert(f(current[i]) == Some((FileChangeKind::Modified, p, modified_of(current, p))));
        lemma_filter_map_keeps(current, f, i);
        let k = choose|k: int| 0 <= k < updates.len() && updates[k] == (FileChangeKind::Modified, p, modified_of(current, p));
        assert(all[renames.len() + k] == updates[k]);
    } else {
        assert forall|t: u128| !(#[trigger] all.contains((FileChangeKind::Modified, p, t))) by {
            let x = (FileChangeKind::Modified, p, t);
            if all.contains(x) {
                let k = choose|k: int| 0 <= k < all.len() && all[k] == x;
                if k < renames.len() {
                    assert(renames[k] == x);
                    assert(renames.contains(x));
                    pairs.lemma_filter_map_contains(rename_change(), x);
                } else if k < renames.len() + updates.len() {
                    assert(updates[k - renames.len()] == x);
                    assert(updates.contains(x));
                    current.lemma_filter_map_contains(f, x);
                    let e = choose|e: (Seq<char>, u128)| #[trigger] current.contains(e) && f(e) == Some(x);
                    let j = choose|j: int| 0 <= j < current.len() && current[j] == e;
                    assert(current[j].0 == p);
                    lemma_modified_at(current, p, j);
                } else {
                    assert(deletions[k - renames.len() - updates.len()] == x);
                    assert(deletions.contains(x));
                    previous.lemma_filter_map_contains(previous_change(current, pairs), x);
                }
            }
        }
    }
}

/// The entries of `from` whose path is not among `other`, in order.
fn entries_absent_from(from: &Vec<(String, u128)>, other: &Vec<(String, u128)>) -> (r: Vec<(String, u128)>)
    ensures
        entry_views(r@) == entry_views(from@).filter(absent_from(entry_views(other@))),
{
    let ghost f = entry_views(from@);
    let ghost o = entry_views(other@);
    let mut r: Vec<(String, u128)> = Vec::new();
    let mut i: usize = 0;
    while i < from.len()
        invariant
            f == entry_views(from@),
            o == entry_views(other@),
            i <= from@.len(),
            entry_views(r@) == f.take(i as int).filter(absent_from(o)),
        decreases from@.len() - i,
    {
        let found = find_entry(other, &from[i].0);
        proof {
            assert(f.take(i as int + 1).drop_last() =~= f.take(i as int));
            assert(f.take(i as int + 1).last() == f[i as int]);
            reveal(Seq::filter);
        }
        if found.is_none() {
            let e = (from[i].0.clone(), from[i].1);
            r.push(e);
            assert(entry_views(r@) =~= f.take(i as int).filter(absent_from(o)).push(f[i as int]));
        } else {
            let j = found.unwrap();
            assert(o[j as int].0 == f[i as int].0);
        }
        i = i + 1;
    }
    assert(f.take(from@.len() as int) =~= f);
    r
}

/// Whether `path` is the new side (`new_side`) or the old side of a
/// candidate pair with equal times.
fn moved(vanished: &Vec<(String, u128)>, appeared: &Vec<(String, u128)>, path: &String, new_side: bool) -> (r: bool)
    ensures
        r == (if new_side {
            arrived_by_move(candidate_pairs(entry_views(vanished@), entry_views(appeared@)), path@)
        } else {
            left_by_move(candidate_pairs(entry_views(vanished@), entry_views(appeared@)), path@)
        }),
{
    let ghost pairs = candidate_pairs(entry_views(vanished@), entry_views(appeared@));
    let n = if vanished.len() < appeared.len() { vanished.len() } else { appeared.len() };
    let mut k: usize = 0;
    while k < n
        invariant
            pairs == candidate_pairs(entry_views(vanished@), entry_views(appeared@)),
            n == pairs.len(),
            n <= vanished@.len(),
            n <= appeared@.len(),
            k <= n,
            forall|m: int| 0 <= m < k ==> !(if new_side {
                (#[trigger] pairs[m]).1.0 == path@
            } else {
                pairs[m].0.0 == path@
            } && pairs[m].0.1 == pairs[m].1.1),
        decreases n - k,
    {
        let side = if new_side { &appeared[k].0 } else { &vanished[k].0 };
        if *side == *path && vanished[k].1 == appeared[k].1 {
            assert(pairs[k as int].0.1 == pairs[k as int].1.1);
            return true;
        }
        k = k + 1;
    }
    false
}

/// The changes between the snapshot of the previous poll and that of the
/// current one.
pub fn filesystem_changes(previous: &FileSnapshot, current: &FileSnapshot) -> (r: Vec<FileChange>)
    ensures
        change_views(r@) == snapshot_changes(previous@, current@),
{
    proof {
        use_type_invariant(previous);
        use_type_invariant(current);
    }
    let ghost prev = previous@;
    let ghost cur = current@;
    let removed = entries_absent_from(&previous.entries, &current.entries);
    let added = entries_absent_from(&current.entries, &previous.entries);
    let ghost pairs = candidate_pairs(entry_views(removed@), entry_views(added@));
    assert(pairs == candidate_pairs(vanished(prev, cur), appeared(prev, cur)));
    let ghost renames = pairs.filter_map(rename_change());
    let n = if removed.len() < added.len() { removed.len() } else { added.len() };
    let mut out: Vec<FileChange> = Vec::new();
    let mut k: usize = 0;
    while k < n
        invariant
            pairs == candidate_pairs(entry_views(removed@), entry_views(added@)),
            n == pairs.len(),
            n <= removed@.len(),
            n <= added@.len(),
            k <= n,
            change_views(out@) == pairs.take(k as int).filter_map(rename_change()),
        decreases n - k,
    {
        proof {
            assert(pairs.take(k as int + 1).drop_last() =~= pairs.take(k as int));
            assert(pairs.take(k as int + 1).last() == pairs[k as int]);
        }
        if removed[k].1 == added[k].1 && removed[k].1 > 0 {
            let c = FileChange { kind: FileChangeKind::Renamed, path: added[k].0.clone(), modified: added[k].1 };
            let ghost before = change_views(out@);
            out.push(c);
            assert(change_views(out@) =~= before + seq![change_view(c)]);
        }
        k = k + 1;
    }
    assert(pairs.take(n as int) =~= pairs);
    assert(change_views(out@) == renames);

    let ghost created = current_change(prev, pairs);
    let mut i: usize = 0;
    while i < current.entries.len()
        invariant
            prev == previous@,
            cur == current@,
            distinct_paths(prev),
            cur == entry_views(current.entries@),
            prev == entry_views(previous.entries@),
            pairs == candidate_pairs(entry_views(removed@), entry_views(added@)),
            created == current_change(prev, pairs),
            i <= current.entries@.len(),
            change_views(out@) == renames + cur.take(i as int).filter_map(created),
        decreases current.entries@.len() - i,
    {
        proof {
            assert(cur.take(i as int + 1).drop_last() =~= cur.take(i as int));
            assert(cur.take(i as int + 1).last() == cur[i as int]);
        }
        let path = &current.entries[i].0;
        let modified = current.entries[i].1;
        let found = find_entry(&previous.entries, path);
        let change: Option<FileChangeKind> = match found {
            None => {
                if !moved(&removed, &added, path, true) {
                    Some(FileChangeKind::Created)
                } else {
                    None
                }
            },
            Some(j) => {
                proof {
                    lemma_modified_at(prev, path@, j as int);
                }
                if previous.entries[j].1 != modified {
                    Some(FileChangeKind::Modified)
                } else {
                    None
                }
            },
        };
        let ghost before = change_views(out@);
        match change {
            Some(kind) => {
                let c = FileChange { kind, path: path.clone(), modified };
                out.push(c);
                assert(change_views(out@) =~= before + seq![change_view(c)]);
            },
            None => {},
        }
        assert(change_views(out@) =~= renames + cur.take(i as int + 1).filter_map(created));
        i = i + 1;
    }
    assert(cur.take(current.entries@.len() as int) =~= cur);

    let ghost middle = renames + cur.filter_map(created);
    let ghost deleted = previous_change(cur, pairs);
    let mut i: usize = 0;
    while i < previous.entries.len()
        invariant
            prev == entry_views(previous.entries@),
            cur == entry_views(current.entries@),
            pairs == candidate_pairs(entry_views(removed@), entry_views(added@)),
            deleted == previous_change(cur, pairs),
            i <= previous.entries@.len(),
            change_views(out@) == middle + prev.take(i as int).filter_map(deleted),
        decreases previous.entries@.len() - i,
    {
        proof {
            assert(prev.take(i as int + 1).drop_last() =~= prev.take(i as int));
            assert(prev.take(i as int + 1).last() == prev[i as int]);
        }
        let path = &previous.entries[i].0;
        let gone = match find_entry(&current.entries, path) {
            None => !moved(&removed, &added, path, false),
            Some(j) => {
                assert(cur[j as int].0 == path@);
                false
            },
        };
        let ghost before = change_views(out@);
        if gone {
            let c = FileChange { kind: FileChangeKind::Deleted, path: path.clone(), modified: 0 };
            out.push(c);
            assert(change_views(out@) =~= before + seq![change_view(c)]);
        }
        assert(change_views(out@) =~= middle + prev.take(i as int + 1).filter_map(deleted));
        i = i + 1;
    }
    assert(prev.take(previous.entries@.len() as int) =~= prev);
    out
}

/// The event type recorded for each kind of change.
pub open spec fn file_change_event_type(kind: FileChangeKind) -> Seq<char> {
    match kind {
        FileChangeKind::Created => "file_created"@,
        FileChangeKind::Modified => "file_modified"@,
        FileChangeKind::Deleted => "file_deleted"@,
        FileChangeKind::Renamed => "file_renamed"@,
    }
}

/// The event recording `change`, stamped with `stamp`.
pub fn file_change_event(stamp: EventStamp, change: FileChange) -> (e: RawEvent)
    ensures
        e.id@ == stamp.id@,
        e.timestamp_ns == stamp.timestamp_ns,
        e.created_at@ == stamp.created_at@,
        e.event_type@ == file_change_event_type(change.kind),
        e.source@ == "filesystem_polling"@,
        e.app_name is None,
        e.executable_path is None,
        e.process_id is None,
        e.window_handle is None,
        e.window_title is None,
        e.element_name is None,
        e.text is None,
        e.file_path == Some(change.path),
        e.metadata_json@ == "{\"modified_ns\":"@ + decimal(change.modified as nat) + "}"@,
        e.privacy_class@ == "filesystem_metadata"@,
        e.confidence_permille == FULL_CONFIDENCE_PERMILLE,
{
    let mut metadata = string_from("{\"modified_ns\":");
    let digits = u128_to_decimal(change.modified);
    append_str(&mut metadata, digits.as_str());
    append_str(&mut metadata, "}");
    let event_type = match change.kind {
        FileChangeKind::Created => "file_created",
        FileChangeKind::Modified => "file_modified",
        FileChangeKind::Deleted => "file_deleted",
        FileChangeKind::Renamed => "file_renamed",
    };
    RawEvent {
        id: stamp.id,
        timestamp_ns: stamp.timestamp_ns,
        event_type: string_from(event_type),
        source: string_from("filesystem_polling"),
        app_name: None,
        executable_path: None,
        process_id: None,
        window_handle: None,
        window_title: None,
        element_name: None,
        text: None,
        file_path: Some(change.path),
        metadata_json: metadata,
        privacy_class: string_from("filesystem_metadata"),
        confidence_permille: FULL_CONFIDENCE_PERMILLE,
        created_at: stamp.created_at,
    }
}

/// A new event recording `change`, with a fresh identity and the current
/// time.
pub fn normalize_file_change(change: FileChange) -> (e: RawEvent)
    ensures
        is_hyphenated_uuid(e.id@),
        e.event_type@ == file_change_event_type(change.kind),
        e.source@ == "filesystem_polling"@,
        e.app_name is None,
        e.executable_path is None,
        e.process_id is None,
        e.window_handle is None,
        e.window_title is None,
        e.element_name is None,
        e.text is None,
        e.file_path == Some(change.path),
        e.metadata_json@ == "{\"modified_ns\":"@ + decimal(change.modified as nat) + "}"@,
        e.privacy_class@ == "filesystem_metadata"@,
        e.confidence_permille == FULL_CONFIDENCE_PERMILLE,
        exists|t: SystemTime| #[trigger] stamped_at(e.timestamp_ns, e.created_at@, t),
{
    file_change_event(stamp_now(), change)
}

} // verus!
