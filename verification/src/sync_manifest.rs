//! Local sync manifest tracking file state and pending operations.
//!
//! The manifest records which files are clean (in sync with the server) or
//! dirty (modified locally since the last sync), along with pending delete
//! records for files removed locally.

use vstd::prelude::*;
use vstd::string::*;

use crate::key_map::KeyMap;
use crate::text;

verus! {

/// Whether a file is in sync with the server.
#[derive(Debug, Clone, Copy, PartialEq, Eq, Structural)]
pub enum SyncState {
    Clean,
    Dirty,
}

/// What is known of a tracked file.
#[derive(Debug)]
pub struct FileEntry {
    pub content_hash: String,
    pub size_bytes: u64,
    pub modified_at: u64,
    pub state: SyncState,
}

/// A file that was removed locally and still has to be removed from the server.
#[derive(Debug)]
pub struct DeleteRecord {
    pub path: String,
    pub deleted_at: u64,
}

/// The sync state of a workspace.
#[derive(Debug)]
pub struct SyncManifest {
    pub namespace_id: String,
    pub files: KeyMap<FileEntry>,
    pub last_sync_at: Option<u64>,
    pub pending_deletes: Vec<DeleteRecord>,
}

// ---------------------------------------------------------------------------
// Models
// ---------------------------------------------------------------------------

/// The model of a [`FileEntry`].
pub struct FileEntryView {
    pub content_hash: Seq<char>,
    pub size_bytes: u64,
    pub modified_at: u64,
    pub state: SyncState,
}

/// The model of a [`DeleteRecord`].
pub struct DeleteView {
    pub path: Seq<char>,
    pub deleted_at: u64,
}

/// The model of a [`SyncManifest`].
#[verifier::ext_equal]
pub struct ManifestView {
    pub namespace_id: Seq<char>,
    pub files: Map<Seq<char>, FileEntryView>,
    pub last_sync_at: Option<u64>,
    pub pending_deletes: Seq<DeleteView>,
}

impl View for FileEntry {
    type V = FileEntryView;

    open spec fn view(&self) -> FileEntryView {
        FileEntryView {
            content_hash: self.content_hash@,
            size_bytes: self.size_bytes,
            modified_at: self.modified_at,
            state: self.state,
        }
    }
}

impl View for DeleteRecord {
    type V = DeleteView;

    open spec fn view(&self) -> DeleteView {
        DeleteView { path: self.path@, deleted_at: self.deleted_at }
    }
}

impl View for SyncManifest {
    type V = ManifestView;

    open spec fn view(&self) -> ManifestView {
        ManifestView {
            namespace_id: self.namespace_id@,
            files: self.files@,
            last_sync_at: self.last_sync_at,
            pending_deletes: self.pending_deletes@.map_values(|d: DeleteRecord| d@),
        }
    }
}

/// A clock reading, with zero in place of one that failed.
pub open spec fn reading(now: Option<u64>) -> u64 {
    match now {
        Some(t) => t,
        None => 0,
    }
}

impl ManifestView {
    /// A manifest that tracks nothing.
    pub open spec fn fresh(namespace_id: Seq<char>) -> ManifestView {
        ManifestView {
            namespace_id,
            files: Map::empty(),
            last_sync_at: None,
            pending_deletes: Seq::empty(),
        }
    }

    /// The entry of `path`.
    pub open spec fn entry(self, path: Seq<char>) -> Option<FileEntryView> {
        if self.files.contains_key(path) {
            Some(self.files[path])
        } else {
            None
        }
    }

    /// The manifest in which `path` is tracked as dirty.
    pub open spec fn dirtied(self, path: Seq<char>, now: Option<u64>) -> ManifestView {
        let entry = match self.entry(path) {
            Some(e) => FileEntryView { state: SyncState::Dirty, ..e },
            None => FileEntryView {
                content_hash: Seq::empty(),
                size_bytes: 0,
                modified_at: reading(now),
                state: SyncState::Dirty,
            },
        };
        ManifestView { files: self.files.insert(path, entry), ..self }
    }

    /// The manifest in which `path` is tracked as clean.
    pub open spec fn cleaned(
        self,
        path: Seq<char>,
        hash: Seq<char>,
        size: u64,
        modified_at: u64,
    ) -> ManifestView {
        let entry = FileEntryView {
            content_hash: hash,
            size_bytes: size,
            modified_at,
            state: SyncState::Clean,
        };
        ManifestView { files: self.files.insert(path, entry), ..self }
    }

    /// Whether the removal of `path` is pending.
    pub open spec fn is_pending(self, path: Seq<char>) -> bool {
        exists|i: int|
            0 <= i < self.pending_deletes.len() && (#[trigger] self.pending_deletes[i]).path == path
    }

    /// The manifest in which `path` is not tracked and its removal is pending.
    pub open spec fn deleted(self, path: Seq<char>, now: Option<u64>) -> ManifestView {
        ManifestView {
            files: self.files.remove(path),
            pending_deletes: if self.is_pending(path) {
                self.pending_deletes
            } else {
                self.pending_deletes.push(DeleteView { path, deleted_at: reading(now) })
            },
            ..self
        }
    }

    /// The manifest in which `path` is not tracked.
    pub open spec fn untracked(self, path: Seq<char>) -> ManifestView {
        ManifestView { files: self.files.remove(path), ..self }
    }

    /// The manifest in which no removal is pending.
    pub open spec fn settled(self) -> ManifestView {
        ManifestView { pending_deletes: Seq::empty(), ..self }
    }

    /// The tracked paths that are in the given state.
    pub open spec fn in_state(self, state: SyncState) -> Set<Seq<char>> {
        self.files.dom().filter(|path: Seq<char>| self.files[path].state == state)
    }

    /// Whether no two pending removals are of the same path.
    pub open spec fn removals_distinct(self) -> bool {
        forall|i: int, j: int|
            0 <= i < j < self.pending_deletes.len() ==> (#[trigger] self.pending_deletes[i]).path != (
            #[trigger] self.pending_deletes[j]).path
    }
}

/// Those of the first `n` keys whose entry is in the given state.
spec fn counted(m: ManifestView, keys: Seq<Seq<char>>, state: SyncState, n: int) -> Set<Seq<char>>
    decreases n,
{
    if n <= 0 {
        Set::empty()
    } else if m.files[keys[n - 1]].state == state {
        counted(m, keys, state, n - 1).insert(keys[n - 1])
    } else {
        counted(m, keys, state, n - 1)
    }
}

proof fn lemma_counted(m: ManifestView, keys: Seq<Seq<char>>, state: SyncState, n: int)
    requires
        0 <= n <= keys.len(),
    ensures
        counted(m, keys, state, n).finite(),
        forall|k: Seq<char>| #[trigger]
            counted(m, keys, state, n).contains(k) <==> exists|i: int|
                0 <= i < n && #[trigger] keys[i] == k && m.files[k].state == state,
    decreases n,
{
    if n > 0 {
        lemma_counted(m, keys, state, n - 1);
        assert forall|k: Seq<char>| #[trigger]
            counted(m, keys, state, n).contains(k) <==> exists|i: int|
                0 <= i < n && #[trigger] keys[i] == k && m.files[k].state == state by {
            if counted(m, keys, state, n - 1).contains(k) {
                let i = choose|i: int|
                    0 <= i < n - 1 && #[trigger] keys[i] == k && m.files[k].state == state;
                assert(keys[i] == k);
            }
            if k == keys[n - 1] {
                assert(keys[n - 1] == k);
            }
        }
    }
}

// ---------------------------------------------------------------------------
// Functions
// ---------------------------------------------------------------------------

/// A clock reading, with zero in place of one that failed.
pub fn clock_or_zero(now: Option<u64>) -> (t: u64)
    ensures
        t == reading(now),
{
    match now {
        Some(t) => t,
        None => 0,
    }
}

impl FileEntry {
    /// A copy of the entry.
    pub fn copied(&self) -> (e: FileEntry)
        ensures
            e@ == self@,
    {
        FileEntry {
            content_hash: self.content_hash.clone(),
            size_bytes: self.size_bytes,
            modified_at: self.modified_at,
            state: self.state,
        }
    }
}

impl SyncManifest {
    /// A manifest that tracks nothing.
    pub fn new(namespace_id: String) -> (m: Self)
        ensures
            m@ == ManifestView::fresh(namespace_id@),
    {
        let m = SyncManifest {
            namespace_id,
            files: KeyMap::new(),
            last_sync_at: None,
            pending_deletes: Vec::new(),
        };
        assert(m@ =~= ManifestView::fresh(namespace_id@));
        m
    }

    /// A copy of the manifest.
    pub fn copied(&self) -> (m: Self)
        ensures
            m@ == self@,
    {
        let mut files: KeyMap<FileEntry> = KeyMap::new();
        let ghost keys = self.files.keys();
        let len: usize = self.files.len();
        for i in 0..len
            invariant
                len == keys.len(),
                keys == self.files.keys(),
                self.files.ordered(),
                files@ =~= self.files@.restrict(keys.take(i as int).to_set()),
        {
            let (key, entry) = self.files.entry(i);
            files.insert(key, entry.copied());
            proof {
                assert(keys.take(i + 1) =~= keys.take(i as int).push(keys[i as int]));
                assert(keys.take(i + 1).to_set() =~= keys.take(i as int).to_set().insert(
                    keys[i as int],
                )) by {
                    let a = keys.take(i as int);
                    assert forall|k: Seq<char>| #[trigger]
                        a.push(keys[i as int]).to_set().contains(k) <==> a.to_set().insert(
                            keys[i as int],
                        ).contains(k) by {
                        if a.contains(k) {
                            let j = a.index_of(k);
                            assert(a.push(keys[i as int])[j] == k);
                        }
                        assert(a.push(keys[i as int])[i as int] == keys[i as int]);
                    }
                }
            }
        }
        proof {
            assert(keys.take(len as int) =~= keys);
            assert forall|k: Seq<char>| #[trigger] self.files@.contains_key(k) implies
                keys.to_set().contains(k) by {}
            assert(self.files@.restrict(keys.to_set()) =~= self.files@);
        }
        let mut pending_deletes: Vec<DeleteRecord> = Vec::new();
        for i in 0..self.pending_deletes.len()
            invariant
                pending_deletes@.len() == i,
                forall|j: int| 0 <= j < i ==> (#[trigger] pending_deletes@[j])@
                    == self.pending_deletes@[j]@,
        {
            let record: &DeleteRecord = &self.pending_deletes[i];
            pending_deletes.push(
                DeleteRecord { path: record.path.clone(), deleted_at: record.deleted_at },
            );
        }
        let m = SyncManifest {
            namespace_id: self.namespace_id.clone(),
            files,
            last_sync_at: self.last_sync_at,
            pending_deletes,
        };
        assert(m@ =~= self@);
        m
    }

    /// The manifest of a namespace: the stored one if it is of that namespace, else a new one.
    pub fn load(namespace_id: &str, stored: Option<SyncManifest>) -> (m: Self)
        ensures
            m@ == (match stored {
                Some(s) if s@.namespace_id == namespace_id@ => s@,
                _ => ManifestView::fresh(namespace_id@),
            }),
    {
        match stored {
            Some(s) => {
                if text::same(s.namespace_id.as_str(), namespace_id) {
                    s
                } else {
                    Self::new(namespace_id.to_owned())
                }
            },
            None => Self::new(namespace_id.to_owned()),
        }
    }

    /// Tracks `path` as modified since the last sync.
    ///
    /// A path that was not tracked gets an entry without a hash, at the time `now`.
    pub fn mark_dirty(&mut self, path: &str, now: Option<u64>)
        ensures
            final(self)@ == old(self)@.dirtied(path@, now),
    {
        let entry: FileEntry = match self.files.get(path) {
            Some(e) => {
                let mut e: FileEntry = e.copied();
                e.state = SyncState::Dirty;
                e
            },
            None => FileEntry {
                content_hash: String::new(),
                size_bytes: 0,
                modified_at: clock_or_zero(now),
                state: SyncState::Dirty,
            },
        };
        self.files.insert(path, entry);
        assert(self@ =~= old(self)@.dirtied(path@, now));
    }

    /// Tracks `path` as in sync with the server.
    pub fn mark_clean(&mut self, path: &str, hash: &str, size: u64, modified_at: u64)
        ensures
            final(self)@ == old(self)@.cleaned(path@, hash@, size, modified_at),
    {
        let entry = FileEntry {
            content_hash: hash.to_owned(),
            size_bytes: size,
            modified_at,
            state: SyncState::Clean,
        };
        self.files.insert(path, entry);
        assert(self@ =~= old(self)@.cleaned(path@, hash@, size, modified_at));
    }

    /// Stops tracking `path` and notes that it has to be removed from the server.
    pub fn record_delete(&mut self, path: &str, now: Option<u64>)
        ensures
            final(self)@ == old(self)@.deleted(path@, now),
    {
        self.files.remove(path);
        let ghost records = old(self)@.pending_deletes;
        let mut already_pending = false;
        for i in 0..self.pending_deletes.len()
            invariant
                records == self.pending_deletes@.map_values(|d: DeleteRecord| d@),
                already_pending == exists|j: int| 0 <= j < i && (#[trigger] records[j]).path == path@,
        {
            assert(records[i as int] == self.pending_deletes@[i as int]@);
            if text::same(self.pending_deletes[i].path.as_str(), path) {
                already_pending = true;
            }
        }
        assert(already_pending == old(self)@.is_pending(path@));
        if !already_pending {
            self.pending_deletes.push(
                DeleteRecord { path: path.to_owned(), deleted_at: clock_or_zero(now) },
            );
        }
        assert(self@ =~= old(self)@.deleted(path@, now));
    }

    /// Forgets the pending removals.
    pub fn clear_deletes(&mut self)
        ensures
            final(self)@ == old(self)@.settled(),
    {
        self.pending_deletes.clear();
        assert(self@ =~= old(self)@.settled());
    }

    /// Stops tracking `path`.
    pub fn forget(&mut self, path: &str)
        ensures
            final(self)@ == old(self)@.untracked(path@),
    {
        self.files.remove(path);
        assert(self@ =~= old(self)@.untracked(path@));
    }

    /// The number of tracked paths in the given state.
    fn count_in(&self, state: SyncState) -> (n: usize)
        ensures
            n == self@.in_state(state).len(),
            self@.in_state(state).finite(),
    {
        let mut n: usize = 0;
        let len: usize = self.files.len();
        let ghost keys = self.files.keys();
        for i in 0..len
            invariant
                len == keys.len(),
                keys == self.files.keys(),
                self.files.ordered(),
                n == counted(self@, keys, state, i as int).len(),
                n <= i,
        {
            proof {
                lemma_counted(self@, keys, state, i as int);
                assert forall|j: int| 0 <= j < i implies keys[j] != keys[i as int] by {
                    crate::key_map::lemma_precedes_irreflexive(keys[i as int]);
                }
            }
            if self.files.entry(i).1.state == state {
                n += 1;
            }
        }
        proof {
            lemma_counted(self@, keys, state, len as int);
            assert(counted(self@, keys, state, len as int) =~= self@.in_state(state)) by {
                assert forall|k: Seq<char>| #[trigger]
                    counted(self@, keys, state, len as int).contains(k) <==> self@.in_state(
                        state,
                    ).contains(k) by {
                    assert(self.files@.contains_key(k) <==> keys.contains(k));
                }
            }
        }
        n
    }

    /// The number of tracked paths that were modified since the last sync.
    pub fn dirty_count(&self) -> (n: usize)
        ensures
            n == self@.in_state(SyncState::Dirty).len(),
            self@.in_state(SyncState::Dirty).finite(),
    {
        self.count_in(SyncState::Dirty)
    }

    /// The number of tracked paths that are in sync with the server.
    pub fn clean_count(&self) -> (n: usize)
        ensures
            n == self@.in_state(SyncState::Clean).len(),
            self@.in_state(SyncState::Clean).finite(),
    {
        self.count_in(SyncState::Clean)
    }
}

// ---------------------------------------------------------------------------
// Laws
// ---------------------------------------------------------------------------

/// Every tracked path is either dirty or clean, so the two counts add up to the number of
/// tracked paths.
pub proof fn lemma_counts_add_up(m: ManifestView)
    requires
        m.files.dom().finite(),
    ensures
        m.in_state(SyncState::Dirty).len() + m.in_state(SyncState::Clean).len()
            == m.files.dom().len(),
{
    let dirty = m.in_state(SyncState::Dirty);
    let clean = m.in_state(SyncState::Clean);
    assert(dirty.disjoint(clean));
    assert(dirty + clean =~= m.files.dom());
    vstd::set_lib::lemma_set_disjoint_lens(dirty, clean);
}

/// A path that was marked dirty is tracked as dirty, with what was known of it before, and
/// nothing else changes.
pub proof fn lemma_dirtied(m: ManifestView, path: Seq<char>, now: Option<u64>)
    ensures
        m.dirtied(path, now).entry(path) matches Some(e) && e.state is Dirty,
        m.entry(path) matches Some(e) ==> m.dirtied(path, now).entry(path) == Some(
            FileEntryView { state: SyncState::Dirty, ..e },
        ),
        forall|other: Seq<char>| other != path ==> m.dirtied(path, now).entry(other) == m.entry(
            other,
        ),
        m.dirtied(path, now).pending_deletes == m.pending_deletes,
        m.dirtied(path, now).dirtied(path, now) == m.dirtied(path, now),
{
    assert(m.dirtied(path, now).dirtied(path, now) =~= m.dirtied(path, now));
}

/// A path that was marked clean is tracked as clean, with the given hash, and nothing else
/// changes.
pub proof fn lemma_cleaned(
    m: ManifestView,
    path: Seq<char>,
    hash: Seq<char>,
    size: u64,
    modified_at: u64,
)
    ensures
        m.cleaned(path, hash, size, modified_at).entry(path) matches Some(e) && e.state is Clean
            && e.content_hash == hash && e.size_bytes == size && e.modified_at == modified_at,
        forall|other: Seq<char>|
            other != path ==> m.cleaned(path, hash, size, modified_at).entry(other) == m.entry(
                other,
            ),
{
}

/// A path that was recorded as deleted is not tracked, and its removal is pending; to record it
/// again changes nothing.
pub proof fn lemma_deleted(m: ManifestView, path: Seq<char>, now: Option<u64>, later: Option<u64>)
    ensures
        m.deleted(path, now).entry(path) is None,
        m.deleted(path, now).is_pending(path),
        m.deleted(path, now).deleted(path, later) == m.deleted(path, now),
        forall|other: Seq<char>| other != path ==> m.deleted(path, now).entry(other) == m.entry(
            other,
        ),
        forall|other: Seq<char>| m.is_pending(other) ==> m.deleted(path, now).is_pending(other),
{
    let after = m.deleted(path, now);
    if !m.is_pending(path) {
        assert(after.pending_deletes[m.pending_deletes.len() as int].path == path);
    }
    assert forall|other: Seq<char>| m.is_pending(other) implies after.is_pending(other) by {
        let i = choose|i: int|
            0 <= i < m.pending_deletes.len() && (#[trigger] m.pending_deletes[i]).path == other;
        assert(after.pending_deletes[i].path == other);
    }
    assert(after.deleted(path, later) =~= after);
}

/// No path is twice among the pending removals, whatever is done to a manifest: it holds of a
/// new one, and every operation keeps it.
pub proof fn lemma_removals_stay_distinct(
    m: ManifestView,
    path: Seq<char>,
    hash: Seq<char>,
    size: u64,
    at: u64,
    now: Option<u64>,
)
    requires
        m.removals_distinct(),
    ensures
        ManifestView::fresh(hash).removals_distinct(),
        m.dirtied(path, now).removals_distinct(),
        m.cleaned(path, hash, size, at).removals_distinct(),
        m.deleted(path, now).removals_distinct(),
        m.untracked(path).removals_distinct(),
        m.settled().removals_distinct(),
{
    let after = m.deleted(path, now);
    assert forall|i: int, j: int| 0 <= i < j < after.pending_deletes.len() implies (
    #[trigger] after.pending_deletes[i]).path != (#[trigger] after.pending_deletes[j]).path by {
        assert(after.pending_deletes[i] == m.pending_deletes[i]);
        if j < m.pending_deletes.len() {
            assert(after.pending_deletes[j] == m.pending_deletes[j]);
        }
    }
}

} // verus!
