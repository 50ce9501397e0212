use vstd::prelude::*;

verus! {

use crate::error::ParseError;
use crate::mixed::MixedString;
use crate::mixed::Seg;
use crate::model::epoch_timestamp;
use crate::model::FileEntry;
use crate::model::FileEntryView;
use crate::model::FileInfo;
use crate::model::FileInfoView;
use crate::model::FileType;
use crate::model::SubvolumeInfo;
use crate::model::Timestamp;

/// One field-level change a command applies to a file entry: new
/// permissions, new owner and group, or new timestamps (accessed,
/// created, modified).
#[derive(Copy, Clone, Debug)]
pub enum Mutation {
    Chmod(u64),
    Chown(u64, u64),
    Utimes(Timestamp, Timestamp, Timestamp),
}

/// The record a fresh file starts with: the path as its name, the given
/// permissions and kind, and zeroes everywhere else.
pub open spec fn fresh_file_info(path: Seq<Seg>, filetype: FileType, mode: u64) -> FileInfoView {
    FileInfoView {
        filename: path,
        permissions: mode,
        modified: epoch_timestamp(),
        accessed: epoch_timestamp(),
        created: epoch_timestamp(),
        length: 0,
        user_id: 0,
        group_id: 0,
        filetype,
    }
}

/// A slot carried to a new path: a live file takes the new path as its
/// name, a tombstone is carried as it is.
pub open spec fn entry_with_filename(e: FileEntryView, name: Seq<Seg>) -> FileEntryView {
    match e {
        FileEntryView::Present(i) => FileEntryView::Present(FileInfoView { filename: name, ..i }),
        FileEntryView::Tombstone => FileEntryView::Tombstone,
    }
}

/// A rename applied to an inventory that holds `from`: the slot leaves
/// `from` and lands at `to`, unchanged.
pub open spec fn spec_rename(
    m: Map<Seq<Seg>, FileEntryView>,
    from: Seq<Seg>,
    to: Seq<Seg>,
) -> Map<Seq<Seg>, FileEntryView>
    recommends
        m.contains_key(from),
{
    m.remove(from).insert(to, m[from])
}

/// A mutation applied to a file record.
pub open spec fn apply_mutation(i: FileInfoView, m: Mutation) -> FileInfoView {
    match m {
        Mutation::Chmod(mode) => FileInfoView { permissions: mode, ..i },
        Mutation::Chown(uid, gid) => FileInfoView { user_id: uid, group_id: gid, ..i },
        Mutation::Utimes(a, c, md) => FileInfoView {
            accessed: a,
            created: c,
            modified: md,
            ..i
        },
    }
}

/// A mutation applied to a file, leaving every other field as it was.
fn apply_mutation_info(info: &FileInfo, m: Mutation) -> (r: FileInfo)
    ensures
        r@ == apply_mutation(info@, m),
{
    let mut out = info.duplicate();
    match m {
        Mutation::Chmod(mode) => {
            out.permissions = mode;
        },
        Mutation::Chown(uid, gid) => {
            out.user_id = uid;
            out.group_id = gid;
        },
        Mutation::Utimes(a, c, md) => {
            out.accessed = a;
            out.created = c;
            out.modified = md;
        },
    }
    out
}

impl SubvolumeInfo {
    /// Puts a fresh file at `path`, overwriting any slot already there.
    pub fn add_file(&mut self, path: MixedString, filetype: FileType, mode: u64) -> (r: Result<
        (),
        ParseError,
    >)
        requires
            old(self).wf(),
        ensures
            final(self).wf(),
            final(self)@.source == old(self)@.source,
            final(self)@.overwrite == old(self)@.overwrite,
            r is Ok,
            final(self)@.files == old(self)@.files.insert(
                path@,
                FileEntryView::Present(fresh_file_info(path@, filetype, mode)),
            ),
    {
        let info = FileInfo {
            filename: path.duplicate(),
            permissions: mode,
            modified: Timestamp::epoch(),
            accessed: Timestamp::epoch(),
            created: Timestamp::epoch(),
            length: 0,
            user_id: 0,
            group_id: 0,
            filetype,
        };
        self.files.insert(path, FileEntry::Present(info));
        Ok(())
    }

    /// Deletes the file at `path`.  A full (overwrite) stream removes
    /// the slot; an incremental stream records a tombstone.  Fails when
    /// no live file is there: the slot is absent or already a
    /// tombstone.
    pub fn del_file(&mut self, path: MixedString) -> (r: Result<(), ParseError>)
        requires
            old(self).wf(),
        ensures
            final(self).wf(),
            final(self)@.source == old(self)@.source,
            final(self)@.overwrite == old(self)@.overwrite,
            ({
                let files = old(self)@.files;
                if files.contains_key(path@) && files[path@] is Present {
                    &&& r is Ok
                    &&& final(self)@.files == if old(self).overwrite {
                        files.remove(path@)
                    } else {
                        files.insert(path@, FileEntryView::Tombstone)
                    }
                } else {
                    &&& r matches Err(e) && e is InvalidData
                    &&& final(self)@.files == files
                }
            }),
    {
        let live = match self.files.get(&path) {
            None => {
                return Err(ParseError::InvalidData("deleting, but file not found"));
            },
            Some(e) => !e.is_tombstone(),
        };
        if !live {
            return Err(ParseError::InvalidData("deleting, but file already deleted"));
        }
        if self.overwrite {
            self.files.remove(&path);
        } else {
            self.files.insert(path, FileEntry::Tombstone);
        }
        Ok(())
    }

    /// Would fault the file in from a prior snapshot in an incremental
    /// stream; with no prior snapshot available, an incremental stream
    /// that references an unknown path fails cleanly instead.
    pub fn load_file(&self, path: &MixedString) -> (r: Result<(), ParseError>)
        ensures
            r is Ok <==> (self.overwrite || self@.files.contains_key(path@)),
            r matches Err(e) ==> e is InvalidData,
    {
        if self.overwrite {
            return Ok(());
        }
        if self.files.contains_key(path) {
            return Ok(());
        }
        Err(ParseError::InvalidData("prior snapshot required"))
    }

    /// The slot at `path`; fails when none is there.
    pub fn get_file(&self, path: &MixedString) -> (r: Result<&FileEntry, ParseError>)
        ensures
            match r {
                Ok(e) => self@.files.contains_key(path@) && e@ == self@.files[path@],
                Err(e) => !self@.files.contains_key(path@) && e is InvalidData,
            },
    {
        match self.load_file(path) {
            Ok(_) => {},
            Err(e) => {
                return Err(e);
            },
        }
        match self.files.get(path) {
            Some(e) => Ok(e),
            None => Err(ParseError::InvalidData("accessing, but old file not found")),
        }
    }

    /// Removes and returns the slot at `path`; fails when none is
    /// there.
    pub fn pop_file(&mut self, path: &MixedString) -> (r: Result<FileEntry, ParseError>)
        requires
            old(self).wf(),
        ensures
            final(self).wf(),
            final(self)@.source == old(self)@.source,
            final(self)@.overwrite == old(self)@.overwrite,
            match r {
                Ok(e) => {
                    &&& old(self)@.files.contains_key(path@)
                    &&& e@ == old(self)@.files[path@]
                    &&& final(self)@.files == old(self)@.files.remove(path@)
                },
                Err(e) => {
                    &&& !old(self)@.files.contains_key(path@)
                    &&& e is InvalidData
                    &&& final(self)@.files == old(self)@.files
                },
            },
    {
        match self.load_file(path) {
            Ok(_) => {},
            Err(e) => {
                return Err(e);
            },
        }
        match self.files.remove(path) {
            Some(e) => Ok(e),
            None => Err(ParseError::InvalidData("renaming, but old file not found")),
        }
    }

    /// Copies the slot at `from` to `to`; a live copy takes `to` as its
    /// name, and the source slot stays.  Fails when nothing is at
    /// `from`.
    pub fn copy_file(&mut self, from: &MixedString, to: MixedString) -> (r: Result<
        (),
        ParseError,
    >)
        requires
            old(self).wf(),
        ensures
            final(self).wf(),
            final(self)@.source == old(self)@.source,
            final(self)@.overwrite == old(self)@.overwrite,
            ({
                let files = old(self)@.files;
                if files.contains_key(from@) {
                    &&& r is Ok
                    &&& final(self)@.files == files.insert(
                        to@,
                        entry_with_filename(files[from@], to@),
                    )
                } else {
                    &&& r matches Err(e) && e is InvalidData
                    &&& final(self)@.files == files
                }
            }),
    {
        match self.load_file(from) {
            Ok(_) => {},
            Err(e) => {
                return Err(e);
            },
        }
        let entry = match self.files.get(from) {
            None => {
                return Err(ParseError::InvalidData("copying, but old file not found"));
            },
            Some(e) => e.duplicate(),
        };
        let entry = match entry {
            FileEntry::Present(info) => {
                let mut info = info;
                info.filename = to.duplicate();
                FileEntry::Present(info)
            },
            FileEntry::Tombstone => FileEntry::Tombstone,
        };
        self.files.insert(to, entry);
        Ok(())
    }

    /// Applies a mutation to the live file at `path`.  Fails when the
    /// slot is absent or holds a tombstone.
    pub fn modify(&mut self, path: MixedString, m: Mutation) -> (r: Result<(), ParseError>)
        requires
            old(self).wf(),
        ensures
            final(self).wf(),
            final(self)@.source == old(self)@.source,
            final(self)@.overwrite == old(self)@.overwrite,
            ({
                let files = old(self)@.files;
                if files.contains_key(path@) && files[path@] is Present {
                    &&& r is Ok
                    &&& final(self)@.files == files.insert(
                        path@,
                        FileEntryView::Present(apply_mutation(files[path@]->Present_0, m)),
                    )
                } else {
                    &&& r matches Err(e) && e is InvalidData
                    &&& final(self)@.files == files
                }
            }),
    {
        match self.load_file(&path) {
            Ok(_) => {},
            Err(e) => {
                return Err(e);
            },
        }
        let new_info = match self.files.get(&path) {
            None => {
                return Err(ParseError::InvalidData("modify file that does not exist"));
            },
            Some(e) => match e.info() {
                None => {
                    return Err(ParseError::InvalidData("modify deleted file"));
                },
                Some(info) => apply_mutation_info(info, m),
            },
        };
        self.files.insert(path, FileEntry::Present(new_info));
        Ok(())
    }
}

} // verus!
