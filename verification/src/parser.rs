use vstd::prelude::*;

verus! {

use crate::commands::spec_command_kind;
use crate::commands::Command;
use crate::error::ParseError;
use crate::mixed::Seg;
use crate::model::sentinel_timestamp;
use crate::model::FileEntryView;
use crate::model::FileMap;
use crate::model::FileType;
use crate::model::SourceView;
use crate::model::SubvolumeInfo;
use crate::model::SubvolumeSource;
use crate::model::SubvolumeView;
use crate::model::Timestamp;
use crate::offseted_reader::OffsetedReader;
use crate::subvolume::apply_mutation;
use crate::subvolume::entry_with_filename;
use crate::subvolume::fresh_file_info;
use crate::subvolume::Mutation;
use crate::tlv::empty_tlv;
use crate::tlv::read_tlvs;
use crate::tlv::spec_read_tlvs;
use crate::tlv::TLVView;
use crate::utils::read_u16;
use crate::utils::read_u32;
use crate::utils::try_read;
use vstd::bytes::spec_u16_from_le_bytes;
use vstd::bytes::spec_u32_from_le_bytes;

/// The options a parse runs under.  With `bypass_errors` the driver
/// logs a failed command and goes on to the next frame; without it the
/// first failed command stops the parse, and the subvolumes finished by
/// then are returned.
#[derive(Copy, Clone, Debug)]
pub struct Settings {
    pub bypass_errors: bool,
}

impl Default for Settings {
    /// Errors stop the parse unless asked otherwise.
    fn default() -> (r: Self)
        ensures
            r.bypass_errors == false,
    {
        Settings { bypass_errors: false }
    }
}

/// The replay state the stream drives: the subvolume being filled, if
/// one is open, and the subvolumes already finished.
#[verifier::ext_equal]
pub struct StreamState {
    pub current: Option<SubvolumeView>,
    pub results: Seq<SubvolumeView>,
}

/// The state a parse starts from: nothing open, nothing finished.
pub open spec fn fresh_state() -> StreamState {
    StreamState { current: None, results: Seq::empty() }
}

/// The thirteen magic bytes a stream must start with.
pub open spec fn magic_bytes() -> Seq<u8> {
    seq![0x62u8, 0x74u8, 0x72u8, 0x66u8, 0x73u8, 0x2du8, 0x73u8, 0x74u8, 0x72u8, 0x65u8, 0x61u8,
        0x6du8, 0x00u8]
}

/// A missing numeric attribute falls back to the largest value of its
/// type.
pub open spec fn auto_u64(v: Option<u64>) -> u64 {
    match v {
        Some(x) => x,
        None => u64::MAX,
    }
}

/// A missing identifier attribute falls back to the largest value of
/// its type.
pub open spec fn auto_u128(v: Option<u128>) -> u128 {
    match v {
        Some(x) => x,
        None => u128::MAX,
    }
}

/// A missing timestamp attribute falls back to the given sentinel.
pub open spec fn ts_or(v: Option<Timestamp>, d: Timestamp) -> Timestamp {
    match v {
        Some(x) => x,
        None => d,
    }
}

/// The state with the open subvolume's inventory replaced.
pub open spec fn st_set_files(
    st: StreamState,
    cur: SubvolumeView,
    files: Map<Seq<Seg>, FileEntryView>,
) -> StreamState {
    StreamState {
        current: Some(SubvolumeView { source: cur.source, overwrite: cur.overwrite, files }),
        results: st.results,
    }
}

/// What one decoded command does to the replay state.  `Err` stands
/// for a command the driver rejects — a missing required attribute, a
/// path that is not there, or a state-machine violation — which leaves
/// the state as it was.  The creation commands other than `Symlink`,
/// `MkFile` included, record the directory kind; the node-creating
/// commands carry a mode, the others default to zero.
pub open spec fn spec_apply_command(op: u16, bag: TLVView, st: StreamState) -> Result<
    StreamState,
    (),
> {
    match spec_command_kind(op) {
        Command::Unknown => Ok(st),
        Command::Subvolume => if st.current is Some {
            Err(())
        } else {
            Ok(StreamState {
                current: Some(SubvolumeView {
                    source: SourceView::Btrfs { uuid: auto_u128(bag.uuid) },
                    overwrite: true,
                    files: Map::empty(),
                }),
                results: st.results,
            })
        },
        Command::Snapshot => if st.current is Some {
            Err(())
        } else {
            Ok(StreamState {
                current: Some(SubvolumeView {
                    source: SourceView::Btrfs { uuid: auto_u128(bag.uuid) },
                    overwrite: false,
                    files: Map::empty(),
                }),
                results: st.results,
            })
        },
        Command::MkFile | Command::MkDir => match (bag.path, st.current) {
            (Some(p), Some(cur)) => Ok(st_set_files(
                st,
                cur,
                cur.files.insert(
                    p,
                    FileEntryView::Present(fresh_file_info(p, FileType::Directory, 0)),
                ),
            )),
            _ => Err(()),
        },
        Command::MkNod | Command::MkFIFO | Command::MkSock => match (bag.path, st.current) {
            (Some(p), Some(cur)) => Ok(st_set_files(
                st,
                cur,
                cur.files.insert(
                    p,
                    FileEntryView::Present(
                        fresh_file_info(p, FileType::Directory, auto_u64(bag.mode)),
                    ),
                ),
            )),
            _ => Err(()),
        },
        Command::Symlink => match (bag.path, bag.path_link, st.current) {
            (Some(p), Some(_), Some(cur)) => Ok(st_set_files(
                st,
                cur,
                cur.files.insert(
                    p,
                    FileEntryView::Present(fresh_file_info(p, FileType::Symlink, 0)),
                ),
            )),
            _ => Err(()),
        },
        Command::Rename => match (bag.path, bag.path_to, st.current) {
            (Some(from), Some(to), Some(cur)) => if cur.files.contains_key(from) {
                Ok(st_set_files(st, cur, crate::subvolume::spec_rename(cur.files, from, to)))
            } else {
                Err(())
            },
            _ => Err(()),
        },
        Command::Link => match (bag.path, bag.path_link, st.current) {
            (Some(from), Some(to), Some(cur)) => if cur.files.contains_key(from) {
                Ok(st_set_files(
                    st,
                    cur,
                    cur.files.insert(to, entry_with_filename(cur.files[from], to)),
                ))
            } else {
                Err(())
            },
            _ => Err(()),
        },
        Command::Unlink | Command::Rmdir => match (bag.path, st.current) {
            (Some(p), Some(cur)) => if cur.files.contains_key(p) {
                Ok(st_set_files(st, cur, cur.files.remove(p)))
            } else {
                Err(())
            },
            _ => Err(()),
        },
        Command::SetXattr | Command::RemoveXattr => Ok(st),
        Command::Clone => match (bag.path, bag.clone_path, st.current) {
            (Some(from), Some(to), Some(cur)) => if cur.files.contains_key(from) {
                Ok(st_set_files(
                    st,
                    cur,
                    cur.files.insert(to, entry_with_filename(cur.files[from], to)),
                ))
            } else {
                Err(())
            },
            _ => Err(()),
        },
        Command::Chmod => match (bag.path, st.current) {
            (Some(p), Some(cur)) => if cur.files.contains_key(p) && cur.files[p] is Present {
                Ok(st_set_files(
                    st,
                    cur,
                    cur.files.insert(
                        p,
                        FileEntryView::Present(
                            apply_mutation(
                                cur.files[p]->Present_0,
                                Mutation::Chmod(auto_u64(bag.mode)),
                            ),
                        ),
                    ),
                ))
            } else {
                Err(())
            },
            _ => Err(()),
        },
        Command::Chown => match (bag.path, st.current) {
            (Some(p), Some(cur)) => if cur.files.contains_key(p) && cur.files[p] is Present {
                Ok(st_set_files(
                    st,
                    cur,
                    cur.files.insert(
                        p,
                        FileEntryView::Present(
                            apply_mutation(
                                cur.files[p]->Present_0,
                                Mutation::Chown(auto_u64(bag.uid), auto_u64(bag.gid)),
                            ),
                        ),
                    ),
                ))
            } else {
                Err(())
            },
            _ => Err(()),
        },
        Command::Utimes => match (bag.path, st.current) {
            (Some(p), Some(cur)) => if cur.files.contains_key(p) && cur.files[p] is Present {
                Ok(st_set_files(
                    st,
                    cur,
                    cur.files.insert(
                        p,
                        FileEntryView::Present(
                            apply_mutation(
                                cur.files[p]->Present_0,
                                Mutation::Utimes(
                                    ts_or(bag.atime, sentinel_timestamp()),
                                    ts_or(bag.ctime, sentinel_timestamp()),
                                    ts_or(bag.mtime, sentinel_timestamp()),
                                ),
                            ),
                        ),
                    ),
                ))
            } else {
                Err(())
            },
            _ => Err(()),
        },
        Command::End => match st.current {
            Some(cur) => Ok(StreamState { current: None, results: st.results.push(cur) }),
            None => Err(()),
        },
    }
}

/// How many bytes one frame attempt consumes, for a stream with at
/// least the four size bytes left: the header fields read before a
/// failure, or the full header and the bounded body window.
pub open spec fn spec_frame_size(b: Seq<u8>) -> int {
    let size = spec_u32_from_le_bytes(b.take(4));
    if b.len() < 6 {
        4
    } else if b.len() < 10 {
        6
    } else {
        10 + vstd::math::min(size as int, b.len() - 10)
    }
}

/// What one frame attempt does, for a stream with at least the four
/// size bytes left: a frame cut inside its header, a body window that
/// ends inside an attribute header, or a rejected command all leave the
/// state as it was (`Err`); otherwise the decoded command is applied.
pub open spec fn spec_frame(b: Seq<u8>, st: StreamState) -> Result<StreamState, ()> {
    if b.len() < 10 {
        Err(())
    } else {
        let size = spec_u32_from_le_bytes(b.take(4));
        let op = spec_u16_from_le_bytes(b.subrange(4, 6));
        let w = vstd::math::min(size as int, b.len() - 10);
        let window = b.subrange(10, 10 + w);
        match spec_read_tlvs(window, empty_tlv()) {
            Ok(bag) => spec_apply_command(op, bag, st),
            Err(_) => Err(()),
        }
    }
}

/// The whole command loop: frames are replayed until the stream ends at
/// a frame boundary.  A failed frame is skipped when errors are
/// bypassed and stops the loop otherwise; either way the state reached
/// so far stands.
pub open spec fn spec_run(b: Seq<u8>, st: StreamState, bypass: bool) -> StreamState
    decreases b.len(),
{
    if b.len() < 4 {
        st
    } else {
        let c = spec_frame_size(b);
        match spec_frame(b, st) {
            Ok(st2) => spec_run(b.skip(c), st2, bypass),
            Err(_) => if bypass {
                spec_run(b.skip(c), st, bypass)
            } else {
                st
            },
        }
    }
}

/// What a whole stream parses to: `Err` when the magic or the version
/// is wrong or the header is cut short, else the subvolumes finished by
/// the command loop.
pub open spec fn spec_parse(b: Seq<u8>, bypass: bool) -> Result<Seq<SubvolumeView>, ()> {
    if b.len() < 17 {
        Err(())
    } else if b.take(13) != magic_bytes() {
        Err(())
    } else if spec_u32_from_le_bytes(b.subrange(13, 17)) != 1 {
        Err(())
    } else {
        Ok(spec_run(b.skip(17), fresh_state(), bypass).results)
    }
}

/// Drives one parse of a send-stream: the framed command loop over an
/// offset-tracking reader, accumulating finished subvolumes.
pub struct Parser {
    current_subvol: Option<SubvolumeInfo>,
    result: Vec<SubvolumeInfo>,
    command_no: u64,
    default_dt: Timestamp,
    settings: Settings,
}

impl Parser {
    /// The replay state the parser holds.
    pub closed spec fn st(&self) -> StreamState {
        StreamState {
            current: match self.current_subvol {
                Some(s) => Some(s@),
                None => None,
            },
            results: self.result.deep_view(),
        }
    }

    /// The options the parser runs under.
    pub closed spec fn spec_settings(&self) -> Settings {
        self.settings
    }

    /// Internal consistency: inventories well formed, and the sentinel
    /// in place.
    pub closed spec fn inv(&self) -> bool {
        &&& match self.current_subvol {
            Some(s) => s.wf(),
            None => true,
        }
        &&& forall|i: int| 0 <= i < self.result@.len() ==> (#[trigger] self.result@[i]).wf()
        &&& self.default_dt == sentinel_timestamp()
    }

    /// A parser that has not consumed anything yet.
    pub closed spec fn is_fresh(&self) -> bool {
        &&& self.current_subvol is None
        &&& self.result@.len() == 0
    }

    /// A parser ready to replay one stream under the given options.
    pub fn new(settings: Settings) -> (r: Self)
        ensures
            r.inv(),
            r.is_fresh(),
            r.spec_settings() == settings,
    {
        Parser {
            current_subvol: None,
            result: Vec::new(),
            command_no: 0,
            default_dt: Timestamp::sentinel(),
            settings,
        }
    }

    /// Validates the magic and version.  The reader ends just after the
    /// header on success; a short header fails with `UnexpectedEof`, a
    /// wrong magic or version with `InvalidData`.
    fn read_header(reader: &mut OffsetedReader) -> (r: Result<(), ParseError>)
        requires
            old(reader).wf(),
        ensures
            final(reader).wf(),
            match r {
                Ok(_) => {
                    &&& old(reader).remaining().len() >= 17
                    &&& old(reader).remaining().take(13) == magic_bytes()
                    &&& spec_u32_from_le_bytes(old(reader).remaining().subrange(13, 17)) == 1
                    &&& final(reader).remaining() == old(reader).remaining().skip(17)
                },
                Err(e) => {
                    &&& spec_parse(old(reader).remaining(), true) is Err
                    &&& spec_parse(old(reader).remaining(), false) is Err
                    &&& (e is UnexpectedEof || e is InvalidData)
                },
            },
    {
        let ghost b = old(reader).remaining();
        let magic = match reader.read_exact(13) {
            Ok(m) => m,
            Err(e) => {
                return Err(e);
            },
        };
        if !(magic[0] == 0x62 && magic[1] == 0x74 && magic[2] == 0x72 && magic[3] == 0x66
            && magic[4] == 0x73 && magic[5] == 0x2d && magic[6] == 0x73 && magic[7] == 0x74
            && magic[8] == 0x72 && magic[9] == 0x65 && magic[10] == 0x61 && magic[11] == 0x6d
            && magic[12] == 0x00) {
            proof {
                assert(magic@ != magic_bytes());
            }
            return Err(ParseError::InvalidData("invalid magic"));
        }
        proof {
            assert(magic@ =~= magic_bytes());
        }
        let version = match read_u32(reader) {
            Ok(v) => v,
            Err(e) => {
                return Err(e);
            },
        };
        proof {
            assert(b.skip(13).take(4) =~= b.subrange(13, 17));
            assert(b.skip(13).skip(4) =~= b.skip(17));
        }
        if version != 1 {
            return Err(ParseError::InvalidData("invalid version"));
        }
        Ok(())
    }

    /// Reads and applies one command frame.  `Ok(false)` reports a
    /// stream that ended cleanly at the frame boundary; `Ok(true)` a
    /// frame applied to the state; an error a frame that was cut short
    /// or rejected, with the state untouched and the reader past the
    /// frame's window.
    fn read_command(&mut self, reader: &mut OffsetedReader) -> (r: Result<bool, ParseError>)
        requires
            old(self).inv(),
            old(reader).wf(),
        ensures
            final(self).inv(),
            final(reader).wf(),
            final(self).spec_settings() == old(self).spec_settings(),
            old(reader).remaining().len() < 4 ==> {
                &&& r == Result::<bool, ParseError>::Ok(false)
                &&& final(self).st() == old(self).st()
                &&& *final(reader) == *old(reader)
            },
            old(reader).remaining().len() >= 4 ==> {
                &&& final(reader).remaining() == old(reader).remaining().skip(
                    spec_frame_size(old(reader).remaining()),
                )
                &&& match spec_frame(old(reader).remaining(), old(self).st()) {
                    Ok(st2) => r == Result::<bool, ParseError>::Ok(true) && final(self).st()
                        == st2,
                    Err(_) => r is Err && final(self).st() == old(self).st(),
                }
            },
    {
        let ghost b = old(reader).remaining();
        let ghost st0 = old(self).st();
        let size = match try_read(read_u32(reader)) {
            Ok(None) => {
                return Ok(false);
            },
            Ok(Some(v)) => v,
            Err(e) => {
                proof {
                    assert(false);
                }
                return Err(e);
            },
        };
        let cmd_id = match read_u16(reader) {
            Ok(v) => v,
            Err(e) => {
                return Err(e);
            },
        };
        let cmd = Command::new(cmd_id);
        let _checksum = match read_u32(reader) {
            Ok(v) => v,
            Err(e) => {
                return Err(e);
            },
        };
        proof {
            assert(b.skip(4).take(2) =~= b.subrange(4, 6));
            assert(b.skip(4).skip(2) =~= b.skip(6));
            assert(b.skip(6).skip(4) =~= b.skip(10));
        }
        let mut window = reader.take(size as usize);
        proof {
            let w = vstd::math::min(size as int, b.len() - 10);
            assert(b.skip(10).take(w) =~= b.subrange(10, 10 + w));
            assert(b.skip(10).skip(w) =~= b.skip(10 + w));
        }
        let tlv = match read_tlvs(&mut window) {
            Ok(t) => t,
            Err(e) => {
                return Err(e);
            },
        };
        let ghost bag = tlv@;
        if self.command_no < u64::MAX {
            self.command_no = self.command_no + 1;
        }
        match cmd {
            Command::Unknown => {
                proof {
                    assert(self.st() =~= st0);
                }
                Ok(true)
            },
            Command::Subvolume => {
                if self.current_subvol.is_some() {
                    return Err(ParseError::InvalidData("new subvolume while previous still open"));
                }
                let uuid = cmd.tlv_get_auto(tlv.UUID)?;
                self.current_subvol = Some(SubvolumeInfo {
                    source: SubvolumeSource::Btrfs { uuid },
                    overwrite: true,
                    files: FileMap::new(),
                });
                proof {
                    assert(spec_apply_command(cmd_id, bag, st0) matches Ok(st2) && self.st()
                        =~= st2);
                }
                Ok(true)
            },
            Command::Snapshot => {
                if self.current_subvol.is_some() {
                    return Err(ParseError::InvalidData("new snapshot while previous still open"));
                }
                let uuid = cmd.tlv_get_auto(tlv.UUID)?;
                self.current_subvol = Some(SubvolumeInfo {
                    source: SubvolumeSource::Btrfs { uuid },
                    overwrite: false,
                    files: FileMap::new(),
                });
                proof {
                    assert(spec_apply_command(cmd_id, bag, st0) matches Ok(st2) && self.st()
                        =~= st2);
                }
                Ok(true)
            },
            Command::MkFile | Command::MkDir => {
                let path = cmd.tlv_get(tlv.Path)?;
                match &mut self.current_subvol {
                    Some(s) => {
                        s.add_file(path, FileType::Directory, 0)?;
                    },
                    None => {
                        return Err(ParseError::InvalidData("no subvolume specified"));
                    },
                }
                proof {
                    assert(spec_apply_command(cmd_id, bag, st0) matches Ok(st2) && self.st()
                        =~= st2);
                }
                Ok(true)
            },
            Command::MkNod | Command::MkSock | Command::MkFIFO => {
                let path = cmd.tlv_get(tlv.Path)?;
                let mode = cmd.tlv_get_auto(tlv.Mode)?;
                let _rdev = cmd.tlv_get_auto(tlv.Rdev)?;
                match &mut self.current_subvol {
                    Some(s) => {
                        s.add_file(path, FileType::Directory, mode)?;
                    },
                    None => {
                        return Err(ParseError::InvalidData("no subvolume specified"));
                    },
                }
                proof {
                    assert(spec_apply_command(cmd_id, bag, st0) matches Ok(st2) && self.st()
                        =~= st2);
                }
                Ok(true)
            },
            Command::Symlink => {
                let path = cmd.tlv_get(tlv.Path)?;
                let _from = cmd.tlv_get(tlv.PathLink)?;
                match &mut self.current_subvol {
                    Some(s) => {
                        s.add_file(path, FileType::Symlink, 0)?;
                    },
                    None => {
                        return Err(ParseError::InvalidData("no subvolume specified"));
                    },
                }
                proof {
                    assert(spec_apply_command(cmd_id, bag, st0) matches Ok(st2) && self.st()
                        =~= st2);
                }
                Ok(true)
            },
            Command::Rename => {
                let from = cmd.tlv_get(tlv.Path)?;
                let to = cmd.tlv_get(tlv.PathTo)?;
                match &mut self.current_subvol {
                    Some(s) => {
                        let entry = s.pop_file(&from)?;
                        s.files.insert(to, entry);
                    },
                    None => {
                        return Err(ParseError::InvalidData("no subvolume specified"));
                    },
                }
                proof {
                    assert(spec_apply_command(cmd_id, bag, st0) matches Ok(st2) && self.st()
                        =~= st2);
                }
                Ok(true)
            },
            Command::Link => {
                let from = cmd.tlv_get(tlv.Path)?;
                let to = cmd.tlv_get(tlv.PathLink)?;
                match &mut self.current_subvol {
                    Some(s) => {
                        s.copy_file(&from, to)?;
                    },
                    None => {
                        return Err(ParseError::InvalidData("no subvolume specified"));
                    },
                }
                proof {
                    assert(spec_apply_command(cmd_id, bag, st0) matches Ok(st2) && self.st()
                        =~= st2);
                }
                Ok(true)
            },
            Command::Unlink | Command::Rmdir => {
                let path = cmd.tlv_get(tlv.Path)?;
                match &mut self.current_subvol {
                    Some(s) => {
                        let _removed = s.pop_file(&path)?;
                    },
                    None => {
                        return Err(ParseError::InvalidData("no subvolume specified"));
                    },
                }
                proof {
                    assert(spec_apply_command(cmd_id, bag, st0) matches Ok(st2) && self.st()
                        =~= st2);
                }
                Ok(true)
            },
            Command::SetXattr | Command::RemoveXattr => {
                proof {
                    assert(self.st() =~= st0);
                }
                Ok(true)
            },
            Command::Clone => {
                let from = cmd.tlv_get(tlv.Path)?;
                let to = cmd.tlv_get(tlv.ClonePath)?;
                match &mut self.current_subvol {
                    Some(s) => {
                        s.copy_file(&from, to)?;
                    },
                    None => {
                        return Err(ParseError::InvalidData("no subvolume specified"));
                    },
                }
                proof {
                    assert(spec_apply_command(cmd_id, bag, st0) matches Ok(st2) && self.st()
                        =~= st2);
                }
                Ok(true)
            },
            Command::Chmod => {
                let path = cmd.tlv_get(tlv.Path)?;
                let mode = cmd.tlv_get_auto(tlv.Mode)?;
                match &mut self.current_subvol {
                    Some(s) => {
                        s.modify(path, Mutation::Chmod(mode))?;
                    },
                    None => {
                        return Err(ParseError::InvalidData("no subvolume specified"));
                    },
                }
                proof {
                    assert(spec_apply_command(cmd_id, bag, st0) matches Ok(st2) && self.st()
                        =~= st2);
                }
                Ok(true)
            },
            Command::Chown => {
                let path = cmd.tlv_get(tlv.Path)?;
                let user = cmd.tlv_get_auto(tlv.Uid)?;
                let group = cmd.tlv_get_auto(tlv.Gid)?;
                match &mut self.current_subvol {
                    Some(s) => {
                        s.modify(path, Mutation::Chown(user, group))?;
                    },
                    None => {
                        return Err(ParseError::InvalidData("no subvolume specified"));
                    },
                }
                proof {
                    assert(spec_apply_command(cmd_id, bag, st0) matches Ok(st2) && self.st()
                        =~= st2);
                }
                Ok(true)
            },
            Command::Utimes => {
                let path = cmd.tlv_get(tlv.Path)?;
                let accessed = cmd.tlv_get_def(tlv.Atime, self.default_dt)?;
                let created = cmd.tlv_get_def(tlv.Ctime, self.default_dt)?;
                let modified = cmd.tlv_get_def(tlv.Mtime, self.default_dt)?;
                match &mut self.current_subvol {
                    Some(s) => {
                        s.modify(path, Mutation::Utimes(accessed, created, modified))?;
                    },
                    None => {
                        return Err(ParseError::InvalidData("no subvolume specified"));
                    },
                }
                proof {
                    assert(spec_apply_command(cmd_id, bag, st0) matches Ok(st2) && self.st()
                        =~= st2);
                }
                Ok(true)
            },
            Command::End => {
                let mut finished: Option<SubvolumeInfo> = None;
                core::mem::swap(&mut finished, &mut self.current_subvol);
                match finished {
                    Some(subvol) => {
                        self.result.push(subvol);
                        proof {
                            assert(spec_apply_command(cmd_id, bag, st0) matches Ok(st2)
                                && self.st() =~= st2);
                        }
                        Ok(true)
                    },
                    None => Err(ParseError::InvalidData("end command, but no subvolume started")),
                }
            },
        }
    }

    /// Replays one whole stream: validates the header, then reads and
    /// applies command frames until the stream ends at a frame boundary
    /// or, when errors are not bypassed, a frame fails.  Returns the
    /// finished subvolumes; only a bad header is a failure.
    pub fn parse(self, data: &[u8]) -> (r: Result<Vec<SubvolumeInfo>, ParseError>)
        requires
            self.inv(),
            self.is_fresh(),
        ensures
            match r {
                Ok(subvols) => {
                    &&& spec_parse(data@, self.spec_settings().bypass_errors) == Result::<
                        Seq<SubvolumeView>,
                        (),
                    >::Ok(subvols.deep_view())
                    &&& forall|i: int|
                        0 <= i < subvols@.len() ==> (#[trigger] subvols@[i]).wf()
                },
                Err(e) => {
                    &&& spec_parse(data@, self.spec_settings().bypass_errors) is Err
                    &&& (e is UnexpectedEof || e is InvalidData)
                },
            },
    {
        let mut this = self;
        let ghost bp = this.settings.bypass_errors;
        let mut offseted = OffsetedReader::new(data);
        match Self::read_header(&mut offseted) {
            Ok(_) => {},
            Err(e) => {
                return Err(e);
            },
        }
        let ghost body = offseted.remaining();
        proof {
            assert(this.st() =~= fresh_state());
        }
        loop
            invariant_except_break
                spec_run(body, fresh_state(), bp) == spec_run(offseted.remaining(), this.st(), bp),
            invariant
                this.inv(),
                offseted.wf(),
                this.spec_settings().bypass_errors == bp,
            ensures
                spec_run(body, fresh_state(), bp) == this.st(),
            decreases offseted.remaining().len(),
        {
            let ghost rem = offseted.remaining();
            let ghost st_pre = this.st();
            let res = this.read_command(&mut offseted);
            match res {
                Ok(more) => {
                    if !more {
                        proof {
                            assert(spec_run(rem, st_pre, bp) == st_pre);
                        }
                        break;
                    }
                    proof {
                        assert(spec_run(rem, st_pre, bp) == spec_run(
                            rem.skip(spec_frame_size(rem)),
                            this.st(),
                            bp,
                        ));
                    }
                },
                Err(_) => {
                    proof {
                        assert(spec_run(rem, st_pre, bp) == if bp {
                            spec_run(rem.skip(spec_frame_size(rem)), st_pre, bp)
                        } else {
                            st_pre
                        });
                    }
                    if !this.settings.bypass_errors {
                        break;
                    }
                },
            }
        }
        proof {
            assert(spec_parse(data@, bp) == Result::<Seq<SubvolumeView>, ()>::Ok(
                this.result.deep_view(),
            ));
        }
        Ok(this.result)
    }
}

} // verus!
