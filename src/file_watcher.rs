//! Change detection for one directory: each poll compares a fresh listing of the
//! directory with the snapshot taken at the previous poll.
use vstd::prelude::*;
use crate::text::{chars_of, ends_with, ends_with_chars, string_views};

verus! {

/// One file of a directory listing, as read from the file system.
#[derive(Clone, Debug)]
pub struct ListedFile {
    /// Full path of the file.
    pub path: String,
    /// File name, the last component of `path`.
    pub name: String,
    /// Last modification time, in nanoseconds from the Unix epoch.
    pub modified: i128,
}

/// One file of a snapshot: its path and its modification time.
#[derive(Clone, Debug)]
pub struct FileEntry {
    pub path: String,
    pub modified: i128,
}

/// A file name is watched unless it is hidden (`.` first) or an editor's temporary
/// file (ending in `~` or `.swp`).
pub open spec fn is_watched_name(name: Seq<char>) -> bool {
    &&& !(name.len() > 0 && name[0] == '.')
    &&& !ends_with(name, seq!['~'])
    &&& !ends_with(name, seq!['.', 's', 'w', 'p'])
}

/// The snapshot that a listing gives: path to modification time, for each watched
/// file; where a path is listed twice the later entry counts.
pub open spec fn listing_map(l: Seq<ListedFile>) -> Map<Seq<char>, i128>
    decreases l.len(),
{
    if l.len() == 0 {
        Map::empty()
    } else {
        let m = listing_map(l.drop_last());
        let e = l.last();
        if is_watched_name(e.name@) {
            m.insert(e.path@, e.modified)
        } else {
            m
        }
    }
}

/// The map that a sequence of snapshot entries stands for.
pub open spec fn entries_map(s: Seq<FileEntry>) -> Map<Seq<char>, i128>
    decreases s.len(),
{
    if s.len() == 0 {
        Map::empty()
    } else {
        entries_map(s.drop_last()).insert(s.last().path@, s.last().modified)
    }
}

/// No path occurs twice.
pub open spec fn unique_paths(s: Seq<FileEntry>) -> bool {
    forall|i: int, j: int| 0 <= i < j < s.len() ==> s[i].path@ != s[j].path@
}

/// The paths that differ between two snapshots: present in one only, or present in
/// both with different modification times.
pub open spec fn changed_paths(before: Map<Seq<char>, i128>, after: Map<Seq<char>, i128>) -> Set<Seq<char>> {
    Set::new(
        |p: Seq<char>|
            (before.contains_key(p) != after.contains_key(p)) || (before.contains_key(p)
                && after.contains_key(p) && before[p] != after[p]),
    )
}

proof fn lemma_entries_map(s: Seq<FileEntry>)
    requires
        unique_paths(s),
    ensures
        forall|i: int|
            0 <= i < s.len() ==> #[trigger] entries_map(s).contains_key(s[i].path@)
                && entries_map(s)[s[i].path@] == s[i].modified,
        forall|p: Seq<char>|
            #[trigger] entries_map(s).contains_key(p) ==> exists|i: int|
                0 <= i < s.len() && s[i].path@ == p,
    decreases s.len(),
{
    if s.len() > 0 {
        let t = s.drop_last();
        assert(unique_paths(t));
        lemma_entries_map(t);
        assert forall|i: int| 0 <= i < s.len() implies #[trigger] entries_map(s).contains_key(
            s[i].path@,
        ) && entries_map(s)[s[i].path@] == s[i].modified by {
            if i < s.len() - 1 {
                assert(t[i] == s[i]);
                assert(s[i].path@ != s[s.len() - 1].path@);
                assert(entries_map(t).contains_key(t[i].path@));
            }
        }
        assert forall|p: Seq<char>| #[trigger] entries_map(s).contains_key(p) implies exists|
            i: int,
        |
            0 <= i < s.len() && s[i].path@ == p by {
            if p != s.last().path@ {
                assert(entries_map(t).contains_key(p));
                let i = choose|i: int| 0 <= i < t.len() && t[i].path@ == p;
                assert(s[i] == t[i]);
            } else {
                assert(s[s.len() - 1].path@ == p);
            }
        }
    }
}

proof fn lemma_entries_map_update(s: Seq<FileEntry>, j: int, e: FileEntry)
    requires
        unique_paths(s),
        0 <= j < s.len(),
        s[j].path@ == e.path@,
    ensures
        entries_map(s.update(j, e)) == entries_map(s).insert(e.path@, e.modified),
    decreases s.len(),
{
    let u = s.update(j, e);
    if j == s.len() - 1 {
        assert(u.drop_last() =~= s.drop_last());
        assert(entries_map(u) =~= entries_map(s).insert(e.path@, e.modified));
    } else {
        let t = s.drop_last();
        assert(unique_paths(t));
        assert(u.drop_last() =~= t.update(j, e));
        lemma_entries_map_update(t, j, e);
        assert(s.last().path@ != e.path@);
        assert(entries_map(u) =~= entries_map(s).insert(e.path@, e.modified));
    }
}

/// Whether a file name is watched.
pub fn is_watched_file_name(name: &str) -> (r: bool)
    ensures
        r == is_watched_name(name@),
{
    let cs = chars_of(name);
    let tilde = vec!['~'];
    let swp = vec!['.', 's', 'w', 'p'];
    assert(tilde@ == seq!['~']);
    assert(swp@ == seq!['.', 's', 'w', 'p']);
    let hidden = cs.len() > 0 && cs[0] == '.';
    !hidden && !ends_with_chars(&cs, &tilde) && !ends_with_chars(&cs, &swp)
}

/// Position of `path` among the entries, if it is there.
fn find_path(entries: &Vec<FileEntry>, path: &String) -> (r: Option<usize>)
    ensures
        match r {
            Some(i) => i < entries@.len() && entries@[i as int].path@ == path@,
            None => forall|i: int| 0 <= i < entries@.len() ==> entries@[i].path@ != path@,
        },
{
    let mut i: usize = 0;
    while i < entries.len()
        invariant
            i <= entries@.len(),
            forall|k: int| 0 <= k < i ==> entries@[k].path@ != path@,
        decreases entries@.len() - i,
    {
        if entries[i].path == *path {
            return Some(i);
        }
        i = i + 1;
    }
    None
}

/// Builds the snapshot of a directory listing: the watched files, each path once.
pub fn get_file_metadata(listing: &Vec<ListedFile>) -> (r: Vec<FileEntry>)
    ensures
        unique_paths(r@),
        entries_map(r@) == listing_map(listing@),
{
    let mut out: Vec<FileEntry> = Vec::new();
    let mut i: usize = 0;
    while i < listing.len()
        invariant
            i <= listing@.len(),
            unique_paths(out@),
            entries_map(out@) == listing_map(listing@.subrange(0, i as int)),
        decreases listing@.len() - i,
    {
        let item = &listing[i];
        proof {
            assert(listing@.subrange(0, i + 1).drop_last() =~= listing@.subrange(0, i as int));
            assert(listing@.subrange(0, i + 1).last() == listing@[i as int]);
        }
        if is_watched_file_name(item.name.as_str()) {
            let entry = FileEntry { path: item.path.clone(), modified: item.modified };
            match find_path(&out, &item.path) {
                Some(j) => {
                    proof {
                        lemma_entries_map_update(out@, j as int, entry);
                    }
                    out.set(j, entry);
                    assert(unique_paths(out@));
                },
                None => {
                    let ghost before = out@;
                    out.push(entry);
                    assert(out@.drop_last() =~= before);
                },
            }
        }
        i = i + 1;
    }
    assert(listing@.subrange(0, listing@.len() as int) =~= listing@);
    out
}

/// Watches one directory (not recursively) for added, modified and removed files.
/// It keeps the snapshot taken at the last poll; each poll replaces it with the
/// snapshot of the fresh listing.
pub struct FileWatcher {
    path: String,
    previous_metadata: Vec<FileEntry>,
}

impl FileWatcher {
    #[verifier::type_invariant]
    spec fn inv(self) -> bool {
        unique_paths(self.previous_metadata@)
    }

    /// The directory watched.
    pub closed spec fn dir(self) -> Seq<char> {
        self.path@
    }

    /// The snapshot taken at the last poll (or at construction).
    pub closed spec fn snapshot(self) -> Map<Seq<char>, i128> {
        entries_map(self.previous_metadata@)
    }

    /// Starts watching `path`, whose current listing is `listing`. An unreadable
    /// directory is an empty listing.
    pub fn new(path: String, listing: &Vec<ListedFile>) -> (w: FileWatcher)
        ensures
            w.dir() == path@,
            w.snapshot() == listing_map(listing@),
    {
        let previous_metadata = get_file_metadata(listing);
        FileWatcher { path, previous_metadata }
    }

    /// The directory watched.
    pub fn path(&self) -> (r: &String)
        ensures
            r@ == self.dir(),
    {
        &self.path
    }

    /// Compares the snapshot of `listing` with the one held, lists each changed
    /// path once, and keeps the new snapshot.
    fn check_for_changes(&mut self, listing: &Vec<ListedFile>) -> (changes: Vec<String>)
        ensures
            final(self).dir() == old(self).dir(),
            final(self).snapshot() == listing_map(listing@),
            string_views(changes@).no_duplicates(),
            string_views(changes@).to_set() == changed_paths(old(self).snapshot(), final(self).snapshot()),
    {
        proof {
            use_type_invariant(&*self);
        }
        let current_metadata = get_file_metadata(listing);
        let ghost before = entries_map(self.previous_metadata@);
        let ghost after = entries_map(current_metadata@);
        proof {
            lemma_entries_map(self.previous_metadata@);
            lemma_entries_map(current_metadata@);
        }
        let mut changes: Vec<String> = Vec::new();
        let mut i: usize = 0;
        while i < current_metadata.len()
            invariant
                i <= current_metadata@.len(),
                unique_paths(current_metadata@),
                unique_paths(self.previous_metadata@),
                before == entries_map(self.previous_metadata@),
                after == entries_map(current_metadata@),
                forall|k: int|
                    0 <= k < current_metadata@.len() ==> #[trigger] after.contains_key(
                        current_metadata@[k].path@,
                    ) && after[current_metadata@[k].path@] == current_metadata@[k].modified,
                forall|k: int|
                    0 <= k < self.previous_metadata@.len() ==> #[trigger] before.contains_key(
                        self.previous_metadata@[k].path@,
                    ) && before[self.previous_metadata@[k].path@]
                        == self.previous_metadata@[k].modified,
                forall|q: Seq<char>| #[trigger] before.contains_key(q) ==> exists|k: int|
                    0 <= k < self.previous_metadata@.len() && self.previous_metadata@[k].path@ == q,
                string_views(changes@).no_duplicates(),
                forall|q: Seq<char>|
                    #[trigger] string_views(changes@).contains(q) <==> (changed_paths(before, after).contains(q)
                        && exists|k: int| 0 <= k < i && current_metadata@[k].path@ == q),
            decreases current_metadata@.len() - i,
        {
            let entry = &current_metadata[i];
            let ghost p = entry.path@;
            let found = find_path(&self.previous_metadata, &entry.path);
            let changed = match found {
                Some(j) => self.previous_metadata[j].modified != entry.modified,
                None => true,
            };
            proof {
                assert(after.contains_key(current_metadata@[i as int].path@));
                match found {
                    Some(j) => {
                        assert(before.contains_key(self.previous_metadata@[j as int].path@));
                    },
                    None => {
                        if before.contains_key(p) {
                            let k = choose|k: int|
                                0 <= k < self.previous_metadata@.len()
                                    && self.previous_metadata@[k].path@ == p;
                            assert(self.previous_metadata@[k].path@ != p);
                        }
                    },
                }
                if changed {
                    assert(changed_paths(before, after).contains(p));
                } else {
                    assert(!changed_paths(before, after).contains(p));
                }
            }
            let ghost old_changes = changes@;
            if changed {
                changes.push(entry.path.clone());
                assert(string_views(changes@) =~= string_views(old_changes).push(p));
            }
            proof {
                assert forall|q: Seq<char>|
                    #[trigger] string_views(changes@).contains(q) <==> (changed_paths(before, after).contains(q)
                        && exists|k: int| 0 <= k < i + 1 && current_metadata@[k].path@ == q) by {
                    if string_views(changes@).contains(q) {
                        let m = choose|m: int| 0 <= m < string_views(changes@).len() && string_views(changes@)[m] == q;
                        if m < old_changes.len() {
                            assert(string_views(old_changes)[m] == q);
                            assert(string_views(old_changes).contains(q));
                        }
                    }
                    if changed_paths(before, after).contains(q) && exists|k: int|
                        0 <= k < i + 1 && current_metadata@[k].path@ == q {
                        if q == p {
                            assert(string_views(changes@)[string_views(changes@).len() - 1] == q);
                        } else {
                            let k = choose|k: int| 0 <= k < i + 1 && current_metadata@[k].path@ == q;
                            assert(k < i);
                            assert(string_views(old_changes).contains(q));
                            let m = choose|m: int| 0 <= m < string_views(old_changes).len() && string_views(old_changes)[m] == q;
                            assert(string_views(changes@)[m] == q);
                        }
                    }
                }
                if changed {
                    assert forall|m: int| 0 <= m < old_changes.len() implies string_views(changes@)[m] != p by {
                        assert(string_views(old_changes)[m] == string_views(changes@)[m]);
                        assert(string_views(old_changes).contains(string_views(old_changes)[m]));
                        let k = choose|k: int| 0 <= k < i && current_metadata@[k].path@ == string_views(old_changes)[m];
                        assert(current_metadata@[k].path@ != current_metadata@[i as int].path@);
                    }
                }
            }
            i = i + 1;
        }
        let mut j: usize = 0;
        while j < self.previous_metadata.len()
            invariant
                j <= self.previous_metadata@.len(),
                unique_paths(current_metadata@),
                unique_paths(self.previous_metadata@),
                before == entries_map(self.previous_metadata@),
                after == entries_map(current_metadata@),
                forall|k: int|
                    0 <= k < self.previous_metadata@.len() ==> #[trigger] before.contains_key(
                        self.previous_metadata@[k].path@,
                    ) && before[self.previous_metadata@[k].path@]
                        == self.previous_metadata@[k].modified,
                forall|q: Seq<char>| #[trigger] after.contains_key(q) ==> exists|k: int|
                    0 <= k < current_metadata@.len() && current_metadata@[k].path@ == q,
                forall|k: int|
                    0 <= k < current_metadata@.len() ==> #[trigger] after.contains_key(
                        current_metadata@[k].path@,
                    ) && after[current_metadata@[k].path@] == current_metadata@[k].modified,
                forall|q: Seq<char>| #[trigger] before.contains_key(q) ==> exists|k: int|
                    0 <= k < self.previous_metadata@.len() && self.previous_metadata@[k].path@ == q,
                string_views(changes@).no_duplicates(),
                forall|q: Seq<char>|
                    #[trigger] string_views(changes@).contains(q) <==> (changed_paths(before, after).contains(q)
                        && (after.contains_key(q) || exists|k: int| 0 <= k < j && self.previous_metadata@[k].path@ == q)),
            decreases self.previous_metadata@.len() - j,
        {
            let entry = &self.previous_metadata[j];
            let ghost p = entry.path@;
            let found = find_path(&current_metadata, &entry.path);
            let ghost old_changes = changes@;
            if found.is_none() {
                proof {
                    if after.contains_key(p) {
                        let k = choose|k: int| 0 <= k < current_metadata@.len() && current_metadata@[k].path@ == p;
                    }
                }
                changes.push(entry.path.clone());
                assert(string_views(changes@) =~= string_views(old_changes).push(p));
            }
            proof {
                if let Some(k) = found {
                    assert(after.contains_key(current_metadata@[k as int].path@));
                }
                assert forall|q: Seq<char>|
                    #[trigger] string_views(changes@).contains(q) <==> (changed_paths(before, after).contains(q)
                        && (after.contains_key(q) || exists|k: int| 0 <= k < j + 1 && self.previous_metadata@[k].path@ == q)) by {
                    if string_views(changes@).contains(q) {
                        let m = choose|m: int| 0 <= m < string_views(changes@).len() && string_views(changes@)[m] == q;
                        if m < old_changes.len() {
                            assert(string_views(old_changes)[m] == q);
                            assert(string_views(old_changes).contains(q));
                        }
                    }
                    if changed_paths(before, after).contains(q) && (after.contains_key(q) || exists|k: int|
                        0 <= k < j + 1 && self.previous_metadata@[k].path@ == q) {
                        if q == p && found.is_none() {
                            assert(string_views(changes@)[string_views(changes@).len() - 1] == q);
                        } else {
                            if !after.contains_key(q) {
                                let k = choose|k: int| 0 <= k < j + 1 && self.previous_metadata@[k].path@ == q;
                                if k == j {
                                    assert(after.contains_key(p));
                                }
                            }
                            assert(string_views(old_changes).contains(q));
                            let m = choose|m: int| 0 <= m < string_views(old_changes).len() && string_views(old_changes)[m] == q;
                            assert(string_views(changes@)[m] == q);
                        }
                    }
                }
                if found.is_none() {
                    assert forall|m: int| 0 <= m < old_changes.len() implies string_views(changes@)[m] != p by {
                        assert(string_views(old_changes)[m] == string_views(changes@)[m]);
                        let q = string_views(old_changes)[m];
                        assert(string_views(old_changes).contains(q));
                        if q == p {
                            if !after.contains_key(q) {
                                let k = choose|k: int| 0 <= k < j && self.previous_metadata@[k].path@ == q;
                                assert(self.previous_metadata@[k].path@ != self.previous_metadata@[j as int].path@);
                            }
                        }
                    }
                }
            }
            j = j + 1;
        }
        proof {
            assert forall|q: Seq<char>| #[trigger] string_views(changes@).to_set().contains(q) <==> changed_paths(before, after).contains(q) by {
                if changed_paths(before, after).contains(q) && !after.contains_key(q) {
                    assert(before.contains_key(q));
                    let k = choose|k: int| 0 <= k < self.previous_metadata@.len() && self.previous_metadata@[k].path@ == q;
                }
            }
            assert(string_views(changes@).to_set() =~= changed_paths(before, after));
        }
        self.previous_metadata = current_metadata;
        changes
    }

    /// Polls the directory, whose listing is now `listing`: `None` when nothing
    /// changed since the last poll, else each changed path once. Either way the new
    /// snapshot replaces the old one.
    pub fn get_changes(&mut self, listing: &Vec<ListedFile>) -> (r: Option<Vec<String>>)
        ensures
            final(self).dir() == old(self).dir(),
            final(self).snapshot() == listing_map(listing@),
            r is None <==> changed_paths(old(self).snapshot(), final(self).snapshot()) == Set::<Seq<char>>::empty(),
            r matches Some(v) ==> string_views(v@).no_duplicates() && string_views(v@).to_set() == changed_paths(
                old(self).snapshot(),
                final(self).snapshot(),
            ),
    {
        let changes = self.check_for_changes(listing);
        if changes.len() > 0 {
            proof {
                assert(string_views(changes@).to_set().contains(string_views(changes@)[0]));
            }
            Some(changes)
        } else {
            proof {
                assert(string_views(changes@).to_set() =~= Set::<Seq<char>>::empty());
            }
            None
        }
    }
}

/// Polling twice with the directory unchanged in between: the second poll compares a
/// snapshot with itself, so nothing is reported and `get_changes` returns `None`.
pub proof fn poll_of_unchanged_listing_is_empty(listing: Seq<ListedFile>)
    ensures
        changed_paths(listing_map(listing), listing_map(listing)) == Set::<Seq<char>>::empty(),
{
    assert(changed_paths(listing_map(listing), listing_map(listing)) =~= Set::<Seq<char>>::empty());
}

} // verus!
