use vstd::prelude::*;

verus! {

use crate::mixed::MixedString;
use crate::mixed::Seg;

/// The kind of a file entry, with its stable numeric encoding.
#[derive(Copy, Clone, Debug, PartialEq, Eq, Structural)]
pub enum FileType {
    File,
    Directory,
    Symlink,
    BlockDevice,
    CharDevice,
    Fifo,
    Socket,
    Unknown,
}

/// The stable numeric encoding of a file kind.
pub open spec fn file_type_num(t: FileType) -> u8 {
    match t {
        FileType::File => 0,
        FileType::Directory => 1,
        FileType::Symlink => 2,
        FileType::BlockDevice => 3,
        FileType::CharDevice => 4,
        FileType::Fifo => 5,
        FileType::Socket => 6,
        FileType::Unknown => 7,
    }
}

impl FileType {
    /// The stable numeric encoding: zero through six for the known
    /// kinds, a distinct value for `Unknown`.
    pub fn to_num(self) -> (r: u8)
        ensures
            r == file_type_num(self),
    {
        match self {
            FileType::File => 0,
            FileType::Directory => 1,
            FileType::Symlink => 2,
            FileType::BlockDevice => 3,
            FileType::CharDevice => 4,
            FileType::Fifo => 5,
            FileType::Socket => 6,
            FileType::Unknown => 7,
        }
    }
}

/// A point in time as whole seconds since the epoch plus nanoseconds
/// within the second.  The stream carries timestamps in this shape, and
/// the calendar library decides which pairs are representable.
#[derive(Copy, Clone, Debug, PartialEq, Eq, Structural)]
pub struct Timestamp {
    pub secs: i64,
    pub nanos: u32,
}

/// The epoch itself, used for the fields a fresh file entry starts with.
pub open spec fn epoch_timestamp() -> Timestamp {
    Timestamp { secs: 0, nanos: 0 }
}

/// The sentinel used for timestamp fields a command omits: the last
/// minute of year 99999, as seconds since the epoch.
pub open spec fn sentinel_timestamp() -> Timestamp {
    Timestamp { secs: 3093527980739, nanos: 0 }
}

impl Timestamp {
    /// The epoch itself.
    pub fn epoch() -> (r: Timestamp)
        ensures
            r == epoch_timestamp(),
    {
        Timestamp { secs: 0, nanos: 0 }
    }

    /// The sentinel for omitted timestamp fields: 99999-12-31 23:58:59.
    pub fn sentinel() -> (r: Timestamp)
        ensures
            r == sentinel_timestamp(),
    {
        Timestamp { secs: 3093527980739, nanos: 0 }
    }

    /// The timestamp as whole nanoseconds since the epoch, for
    /// timestamps close enough to the epoch that the count fits.
    pub fn timestamp_nanos(&self) -> (r: i64)
        requires
            i64::MIN <= self.secs * 1000000000,
            self.secs * 1000000000 + self.nanos <= i64::MAX,
        ensures
            r == self.secs * 1000000000 + self.nanos,
    {
        self.secs * 1000000000 + self.nanos as i64
    }
}

/// One file of a subvolume's inventory.
#[derive(Debug, Clone)]
pub struct FileInfo {
    pub filename: MixedString,
    pub permissions: u64,
    pub modified: Timestamp,
    pub accessed: Timestamp,
    pub created: Timestamp,
    pub length: u64,
    pub user_id: u64,
    pub group_id: u64,
    pub filetype: FileType,
}

/// The mathematical shape of a file entry.
#[verifier::ext_equal]
pub struct FileInfoView {
    pub filename: Seq<Seg>,
    pub permissions: u64,
    pub modified: Timestamp,
    pub accessed: Timestamp,
    pub created: Timestamp,
    pub length: u64,
    pub user_id: u64,
    pub group_id: u64,
    pub filetype: FileType,
}

impl View for FileInfo {
    type V = FileInfoView;

    open spec fn view(&self) -> FileInfoView {
        FileInfoView {
            filename: self.filename@,
            permissions: self.permissions,
            modified: self.modified,
            accessed: self.accessed,
            created: self.created,
            length: self.length,
            user_id: self.user_id,
            group_id: self.group_id,
            filetype: self.filetype,
        }
    }
}

impl FileInfo {
    /// A fresh record holding the same fields, usable in contracts.
    pub fn duplicate(&self) -> (r: Self)
        ensures
            r@ == self@,
    {
        FileInfo {
            filename: self.filename.duplicate(),
            permissions: self.permissions,
            modified: self.modified,
            accessed: self.accessed,
            created: self.created,
            length: self.length,
            user_id: self.user_id,
            group_id: self.group_id,
            filetype: self.filetype,
        }
    }
}

/// A slot of the file inventory: a live file, or the tombstone left by
/// a deletion recorded against a base snapshot.
#[derive(Debug, Clone)]
pub enum FileEntry {
    Present(FileInfo),
    Tombstone,
}

/// The mathematical shape of an inventory slot.
#[verifier::ext_equal]
pub enum FileEntryView {
    Present(FileInfoView),
    Tombstone,
}

impl View for FileEntry {
    type V = FileEntryView;

    open spec fn view(&self) -> FileEntryView {
        match self {
            FileEntry::Present(info) => FileEntryView::Present(info@),
            FileEntry::Tombstone => FileEntryView::Tombstone,
        }
    }
}

impl FileEntry {
    /// True for the tombstone left by a deletion in a snapshot stream.
    pub fn is_tombstone(&self) -> (r: bool)
        ensures
            r == (self@ is Tombstone),
    {
        match self {
            FileEntry::Present(_) => false,
            FileEntry::Tombstone => true,
        }
    }

    /// The file record, when the slot holds one.
    pub fn info(&self) -> (r: Option<&FileInfo>)
        ensures
            match r {
                Some(info) => self@ == FileEntryView::Present(info@),
                None => self@ is Tombstone,
            },
    {
        match self {
            FileEntry::Present(info) => Some(info),
            FileEntry::Tombstone => None,
        }
    }

    /// A fresh slot holding the same contents, usable in contracts.
    pub fn duplicate(&self) -> (r: Self)
        ensures
            r@ == self@,
    {
        match self {
            FileEntry::Present(info) => FileEntry::Present(info.duplicate()),
            FileEntry::Tombstone => FileEntry::Tombstone,
        }
    }
}

/// Where a subvolume's inventory came from: a send-stream, or a walk of
/// a live directory tree.
#[derive(Debug)]
pub enum SubvolumeSource {
    Btrfs { uuid: u128 },
    Find { path: MixedString },
}

/// The mathematical shape of a subvolume source.
pub enum SourceView {
    Btrfs { uuid: u128 },
    Find { path: Seq<Seg> },
}

impl View for SubvolumeSource {
    type V = SourceView;

    open spec fn view(&self) -> SourceView {
        match self {
            SubvolumeSource::Btrfs { uuid } => SourceView::Btrfs { uuid: *uuid },
            SubvolumeSource::Find { path } => SourceView::Find { path: path@ },
        }
    }
}

/// The file inventory of one subvolume: a mapping from path to slot,
/// with each path held at most once.
#[derive(Debug)]
pub struct FileMap {
    entries: Vec<(MixedString, FileEntry)>,
}

/// The mapping a sequence of path-slot pairs stands for; an earlier
/// pair wins over a later one with the same path.
pub open spec fn entries_map(s: Seq<(MixedString, FileEntry)>) -> Map<Seq<Seg>, FileEntryView>
    decreases s.len(),
{
    if s.len() == 0 {
        Map::empty()
    } else {
        entries_map(s.drop_first()).insert(s[0].0@, s[0].1@)
    }
}

impl View for FileMap {
    type V = Map<Seq<Seg>, FileEntryView>;

    closed spec fn view(&self) -> Map<Seq<Seg>, FileEntryView> {
        entries_map(self.entries@)
    }
}

impl FileMap {
    /// No path occurs twice among the pairs.
    pub closed spec fn wf(&self) -> bool {
        forall|i: int, j: int|
            0 <= i < j < self.entries@.len() ==> self.entries@[i].0@ != self.entries@[j].0@
    }

    /// An empty inventory.
    pub fn new() -> (r: Self)
        ensures
            r.wf(),
            r@ == Map::<Seq<Seg>, FileEntryView>::empty(),
    {
        FileMap { entries: Vec::new() }
    }

    /// The index of the pair holding `path`, if one does.
    fn find(&self, path: &MixedString) -> (r: Option<usize>)
        ensures
            match r {
                Some(i) => {
                    &&& i < self.entries@.len()
                    &&& self.entries@[i as int].0@ == path@
                    &&& forall|j: int| 0 <= j < i ==> self.entries@[j].0@ != path@
                },
                None => forall|i: int|
                    0 <= i < self.entries@.len() ==> self.entries@[i].0@ != path@,
            },
    {
        let n = self.entries.len();
        let mut i: usize = 0;
        while i < n
            invariant
                n == self.entries@.len(),
                i <= n,
                forall|k: int| 0 <= k < i ==> self.entries@[k].0@ != path@,
            decreases n - i,
        {
            if self.entries[i].0.eq(path) {
                return Some(i);
            }
            i = i + 1;
        }
        None
    }

    /// Whether the inventory holds `path`.
    pub fn contains_key(&self, path: &MixedString) -> (r: bool)
        ensures
            r == self@.contains_key(path@),
    {
        let r = self.find(path);
        proof {
            match r {
                Some(i) => {
                    lemma_entries_map_first(self.entries@, i as int);
                },
                None => {
                    lemma_entries_map_absent(self.entries@, path@);
                },
            }
        }
        r.is_some()
    }

    /// The slot held at `path`, if one is.
    pub fn get(&self, path: &MixedString) -> (r: Option<&FileEntry>)
        ensures
            match r {
                Some(e) => self@.contains_key(path@) && e@ == self@[path@],
                None => !self@.contains_key(path@),
            },
    {
        match self.find(path) {
            Some(i) => {
                proof {
                    lemma_entries_map_first(self.entries@, i as int);
                }
                Some(&self.entries[i].1)
            },
            None => {
                proof {
                    lemma_entries_map_absent(self.entries@, path@);
                }
                None
            },
        }
    }

    /// Puts `entry` at `path`, replacing any slot already there.
    pub fn insert(&mut self, path: MixedString, entry: FileEntry)
        requires
            old(self).wf(),
        ensures
            final(self).wf(),
            final(self)@ == old(self)@.insert(path@, entry@),
    {
        match self.find(&path) {
            Some(i) => {
                proof {
                    lemma_entries_map_update(self.entries@, i as int, (path, entry));
                }
                self.entries[i] = (path, entry);
            },
            None => {
                proof {
                    lemma_entries_map_push(self.entries@, (path, entry));
                }
                self.entries.push((path, entry));
            },
        }
    }

    /// Removes and returns the slot at `path`; the inventory is
    /// unchanged when no slot is there.
    pub fn remove(&mut self, path: &MixedString) -> (r: Option<FileEntry>)
        requires
            old(self).wf(),
        ensures
            final(self).wf(),
            match r {
                Some(e) => {
                    &&& old(self)@.contains_key(path@)
                    &&& e@ == old(self)@[path@]
                    &&& final(self)@ == old(self)@.remove(path@)
                },
                None => {
                    &&& !old(self)@.contains_key(path@)
                    &&& *final(self) == *old(self)
                },
            },
    {
        match self.find(path) {
            Some(i) => {
                proof {
                    lemma_entries_map_first(self.entries@, i as int);
                    lemma_entries_map_remove(self.entries@, i as int);
                }
                let pair = self.entries.remove(i);
                Some(pair.1)
            },
            None => {
                proof {
                    lemma_entries_map_absent(self.entries@, path@);
                }
                None
            },
        }
    }

    /// How many paths the inventory holds.
    pub fn len(&self) -> (r: usize)
        requires
            self.wf(),
        ensures
            r == self@.dom().len(),
            self@.dom().finite(),
    {
        proof {
            lemma_entries_map_len(self.entries@);
        }
        self.entries.len()
    }

    /// The pair at a position, for walking the whole inventory.
    pub fn entry_at(&self, i: usize) -> (r: &(MixedString, FileEntry))
        requires
            self.wf(),
            i < self@.dom().len(),
        ensures
            self@.contains_key(r.0@),
            self@[r.0@] == r.1@,
    {
        proof {
            lemma_entries_map_len(self.entries@);
            lemma_entries_map_first(self.entries@, i as int);
        }
        &self.entries[i]
    }
}

/// A pair no earlier pair shadows names its slot in the mapping.
proof fn lemma_entries_map_first(s: Seq<(MixedString, FileEntry)>, i: int)
    requires
        0 <= i < s.len(),
        forall|j: int| 0 <= j < i ==> s[j].0@ != s[i].0@,
    ensures
        entries_map(s).contains_key(s[i].0@),
        entries_map(s)[s[i].0@] == s[i].1@,
    decreases i,
{
    if i == 0 {
    } else {
        assert(s.drop_first()[i - 1] == s[i]);
        assert(forall|j: int| 0 <= j < i - 1 ==> s.drop_first()[j] == s[j + 1]);
        lemma_entries_map_first(s.drop_first(), i - 1);
    }
}

/// A path no pair holds is not in the mapping.
proof fn lemma_entries_map_absent(s: Seq<(MixedString, FileEntry)>, key: Seq<Seg>)
    requires
        forall|i: int| 0 <= i < s.len() ==> s[i].0@ != key,
    ensures
        !entries_map(s).contains_key(key),
    decreases s.len(),
{
    if s.len() > 0 {
        assert(forall|i: int|
            0 <= i < s.drop_first().len() ==> s.drop_first()[i] == s[i + 1]);
        lemma_entries_map_absent(s.drop_first(), key);
    }
}

/// Replacing the pair that holds a path updates the mapping at it.
proof fn lemma_entries_map_update(s: Seq<(MixedString, FileEntry)>, i: int, q: (MixedString, FileEntry))
    requires
        0 <= i < s.len(),
        forall|j: int, k: int| 0 <= j < k < s.len() ==> s[j].0@ != s[k].0@,
        s[i].0@ == q.0@,
    ensures
        entries_map(s.update(i, q)) == entries_map(s).insert(q.0@, q.1@),
    decreases i,
{
    if i == 0 {
        assert(s.update(0, q).drop_first() =~= s.drop_first());
        assert(s.update(0, q)[0] == q);
        assert(entries_map(s.update(0, q)) =~= entries_map(s).insert(q.0@, q.1@));
    } else {
        assert(s.update(i, q).drop_first() =~= s.drop_first().update(i - 1, q));
        assert(forall|j: int, k: int|
            0 <= j < k < s.drop_first().len() ==> s.drop_first()[j].0@
                != s.drop_first()[k].0@);
        assert(s.drop_first()[i - 1] == s[i]);
        lemma_entries_map_update(s.drop_first(), i - 1, q);
        assert(s[0].0@ != q.0@);
        assert(s.update(i, q)[0] == s[0]);
        assert(entries_map(s.update(i, q)) =~= entries_map(s).insert(q.0@, q.1@));
    }
}

/// Appending a pair for a path no pair holds inserts it into the
/// mapping.
proof fn lemma_entries_map_push(s: Seq<(MixedString, FileEntry)>, q: (MixedString, FileEntry))
    requires
        forall|i: int| 0 <= i < s.len() ==> s[i].0@ != q.0@,
    ensures
        entries_map(s.push(q)) == entries_map(s).insert(q.0@, q.1@),
    decreases s.len(),
{
    assert(entries_map(Seq::<(MixedString, FileEntry)>::empty()) == Map::<
        Seq<Seg>,
        FileEntryView,
    >::empty());
    if s.len() == 0 {
        assert(s.push(q).drop_first() =~= Seq::<(MixedString, FileEntry)>::empty());
        assert(s.push(q)[0] == q);
        assert(entries_map(s.push(q)) =~= entries_map(s).insert(q.0@, q.1@));
    } else {
        assert(s.push(q).drop_first() =~= s.drop_first().push(q));
        assert(forall|i: int|
            0 <= i < s.drop_first().len() ==> s.drop_first()[i].0@ != q.0@);
        lemma_entries_map_push(s.drop_first(), q);
        assert(s.push(q)[0] == s[0]);
        assert(s[0].0@ != q.0@);
        assert(entries_map(s.push(q)) =~= entries_map(s).insert(q.0@, q.1@));
    }
}

/// Removing the pair that holds a path removes it from the mapping.
proof fn lemma_entries_map_remove(s: Seq<(MixedString, FileEntry)>, i: int)
    requires
        0 <= i < s.len(),
        forall|j: int, k: int| 0 <= j < k < s.len() ==> s[j].0@ != s[k].0@,
    ensures
        entries_map(s.remove(i)) == entries_map(s).remove(s[i].0@),
    decreases i,
{
    if i == 0 {
        assert(s.remove(0) =~= s.drop_first());
        lemma_entries_map_not_in_tail(s);
        assert(entries_map(s.remove(0)) =~= entries_map(s).remove(s[0].0@));
    } else {
        assert(s.remove(i).drop_first() =~= s.drop_first().remove(i - 1));
        assert(forall|j: int, k: int|
            0 <= j < k < s.drop_first().len() ==> s.drop_first()[j].0@
                != s.drop_first()[k].0@);
        assert(s.drop_first()[i - 1] == s[i]);
        lemma_entries_map_remove(s.drop_first(), i - 1);
        assert(s[0].0@ != s[i].0@);
        assert(entries_map(s.remove(i)) =~= entries_map(s).remove(s[i].0@));
    }
}

/// When the first pair's path occurs only once, the rest of the pairs
/// do not hold it.
proof fn lemma_entries_map_not_in_tail(s: Seq<(MixedString, FileEntry)>)
    requires
        s.len() > 0,
        forall|j: int, k: int| 0 <= j < k < s.len() ==> s[j].0@ != s[k].0@,
    ensures
        !entries_map(s.drop_first()).contains_key(s[0].0@),
{
    assert(forall|i: int|
        0 <= i < s.drop_first().len() ==> s.drop_first()[i].0@ != s[0].0@);
    lemma_entries_map_absent(s.drop_first(), s[0].0@);
}

/// With each path held once, the mapping has exactly one key per pair.
proof fn lemma_entries_map_len(s: Seq<(MixedString, FileEntry)>)
    requires
        forall|i: int, j: int| 0 <= i < j < s.len() ==> s[i].0@ != s[j].0@,
    ensures
        entries_map(s).dom().finite(),
        entries_map(s).dom().len() == s.len(),
    decreases s.len(),
{
    if s.len() == 0 {
        assert(entries_map(s).dom() =~= Set::<Seq<Seg>>::empty());
    } else {
        assert(forall|i: int, j: int|
            0 <= i < j < s.drop_first().len() ==> s.drop_first()[i].0@
                != s.drop_first()[j].0@);
        lemma_entries_map_len(s.drop_first());
        lemma_entries_map_not_in_tail(s);
        assert(entries_map(s).dom() =~= entries_map(s.drop_first()).dom().insert(s[0].0@));
    }
}

/// One subvolume's inventory, with where it came from and whether the
/// stream fully describes it (overwrite) or describes changes against a
/// base snapshot.
#[derive(Debug)]
pub struct SubvolumeInfo {
    pub source: SubvolumeSource,
    pub overwrite: bool,
    pub files: FileMap,
}

/// The mathematical shape of a subvolume.
#[verifier::ext_equal]
pub struct SubvolumeView {
    pub source: SourceView,
    pub overwrite: bool,
    pub files: Map<Seq<Seg>, FileEntryView>,
}

impl View for SubvolumeInfo {
    type V = SubvolumeView;

    open spec fn view(&self) -> SubvolumeView {
        SubvolumeView { source: self.source@, overwrite: self.overwrite, files: self.files@ }
    }
}

impl DeepView for SubvolumeInfo {
    type V = SubvolumeView;

    open spec fn deep_view(&self) -> SubvolumeView {
        self.view()
    }
}

impl SubvolumeInfo {
    /// Internal consistency of the inventory.
    pub open spec fn wf(&self) -> bool {
        self.files.wf()
    }
}

} // verus!
