use vstd::prelude::*;

verus! {

use crate::error::ParseError;
use crate::mixed::spec_from_bytes;
use crate::mixed::MixedString;
use crate::mixed::Seg;
use crate::model::Timestamp;
use crate::offseted_reader::OffsetedReader;
use crate::utils::read_mixed;
use crate::utils::read_timespec;
use crate::utils::read_u128;
use crate::utils::read_u16;
use crate::utils::read_u64;
use crate::utils::spec_timespec;
use crate::utils::try_read;
use vstd::bytes::spec_u128_from_le_bytes;
use vstd::bytes::spec_u16_from_le_bytes;
use vstd::bytes::spec_u64_from_le_bytes;

/// The attribute kinds a command body can carry.
#[derive(Copy, Clone, Debug, PartialEq, Eq, Structural)]
pub enum TLVs {
    UUID,
    Size,
    Mode,
    Uid,
    Gid,
    Rdev,
    Ctime,
    Mtime,
    Atime,
    XattrName,
    XattrData,
    Path,
    PathTo,
    PathLink,
    ClonePath,
}

/// The attribute kind a type identifier names, if any.
pub open spec fn spec_tlv_kind(id: u16) -> Option<TLVs> {
    if id == 1 { Some(TLVs::UUID) }
    else if id == 4 { Some(TLVs::Size) }
    else if id == 5 { Some(TLVs::Mode) }
    else if id == 6 { Some(TLVs::Uid) }
    else if id == 7 { Some(TLVs::Gid) }
    else if id == 8 { Some(TLVs::Rdev) }
    else if id == 9 { Some(TLVs::Ctime) }
    else if id == 10 { Some(TLVs::Mtime) }
    else if id == 11 { Some(TLVs::Atime) }
    else if id == 13 { Some(TLVs::XattrName) }
    else if id == 14 { Some(TLVs::XattrData) }
    else if id == 15 { Some(TLVs::Path) }
    else if id == 16 { Some(TLVs::PathTo) }
    else if id == 17 { Some(TLVs::PathLink) }
    else if id == 22 { Some(TLVs::ClonePath) }
    else { None }
}

impl TLVs {
    /// The attribute kind a type identifier names; identifiers outside
    /// the table name none.
    pub fn new(id: u16) -> (r: Option<TLVs>)
        ensures
            r == spec_tlv_kind(id),
    {
        match id {
            1 => Some(TLVs::UUID),
            4 => Some(TLVs::Size),
            5 => Some(TLVs::Mode),
            6 => Some(TLVs::Uid),
            7 => Some(TLVs::Gid),
            8 => Some(TLVs::Rdev),
            9 => Some(TLVs::Ctime),
            10 => Some(TLVs::Mtime),
            11 => Some(TLVs::Atime),
            13 => Some(TLVs::XattrName),
            14 => Some(TLVs::XattrData),
            15 => Some(TLVs::Path),
            16 => Some(TLVs::PathTo),
            17 => Some(TLVs::PathLink),
            22 => Some(TLVs::ClonePath),
            _ => None,
        }
    }
}

/// One attribute slot: absent, remembering which kind it stands for, or
/// present with the decoded value.
#[derive(Debug)]
pub enum TLVValue<T> {
    WNone(TLVs),
    WSome(T),
}

impl<T> TLVValue<T> {
    /// The value, when the slot holds one.
    pub fn into_option(self) -> (r: Option<T>)
        ensures
            match self {
                TLVValue::WNone(_) => r is None,
                TLVValue::WSome(v) => r == Some(v),
            },
    {
        match self {
            TLVValue::WNone(_) => None,
            TLVValue::WSome(v) => Some(v),
        }
    }
}

/// The typed attribute bag one command body decodes to.
#[allow(non_snake_case)]
#[derive(Debug)]
pub struct TLV {
    pub UUID: TLVValue<u128>,
    pub Size: TLVValue<u64>,
    pub Mode: TLVValue<u64>,
    pub Uid: TLVValue<u64>,
    pub Gid: TLVValue<u64>,
    pub Rdev: TLVValue<u64>,
    pub Ctime: TLVValue<Timestamp>,
    pub Mtime: TLVValue<Timestamp>,
    pub Atime: TLVValue<Timestamp>,
    pub XattrName: TLVValue<MixedString>,
    pub XattrData: TLVValue<MixedString>,
    pub Path: TLVValue<MixedString>,
    pub PathTo: TLVValue<MixedString>,
    pub PathLink: TLVValue<MixedString>,
    pub ClonePath: TLVValue<MixedString>,
}

/// A plain slot's value, when present.
pub open spec fn tlv_opt<T>(v: TLVValue<T>) -> Option<T> {
    match v {
        TLVValue::WNone(_) => None,
        TLVValue::WSome(x) => Some(x),
    }
}

/// A path slot's segments, when present.
pub open spec fn tlv_path_opt(v: TLVValue<MixedString>) -> Option<Seq<Seg>> {
    match v {
        TLVValue::WNone(_) => None,
        TLVValue::WSome(x) => Some(x@),
    }
}

/// The mathematical shape of an attribute bag: which slots are present
/// and what they hold.
#[verifier::ext_equal]
pub struct TLVView {
    pub uuid: Option<u128>,
    pub size: Option<u64>,
    pub mode: Option<u64>,
    pub uid: Option<u64>,
    pub gid: Option<u64>,
    pub rdev: Option<u64>,
    pub ctime: Option<Timestamp>,
    pub mtime: Option<Timestamp>,
    pub atime: Option<Timestamp>,
    pub xattr_name: Option<Seq<Seg>>,
    pub xattr_data: Option<Seq<Seg>>,
    pub path: Option<Seq<Seg>>,
    pub path_to: Option<Seq<Seg>>,
    pub path_link: Option<Seq<Seg>>,
    pub clone_path: Option<Seq<Seg>>,
}

impl View for TLV {
    type V = TLVView;

    open spec fn view(&self) -> TLVView {
        TLVView {
            uuid: tlv_opt(self.UUID),
            size: tlv_opt(self.Size),
            mode: tlv_opt(self.Mode),
            uid: tlv_opt(self.Uid),
            gid: tlv_opt(self.Gid),
            rdev: tlv_opt(self.Rdev),
            ctime: tlv_opt(self.Ctime),
            mtime: tlv_opt(self.Mtime),
            atime: tlv_opt(self.Atime),
            xattr_name: tlv_path_opt(self.XattrName),
            xattr_data: tlv_path_opt(self.XattrData),
            path: tlv_path_opt(self.Path),
            path_to: tlv_path_opt(self.PathTo),
            path_link: tlv_path_opt(self.PathLink),
            clone_path: tlv_path_opt(self.ClonePath),
        }
    }
}

/// The bag with every slot absent.
pub open spec fn empty_tlv() -> TLVView {
    TLVView {
        uuid: None,
        size: None,
        mode: None,
        uid: None,
        gid: None,
        rdev: None,
        ctime: None,
        mtime: None,
        atime: None,
        xattr_name: None,
        xattr_data: None,
        path: None,
        path_to: None,
        path_link: None,
        clone_path: None,
    }
}

/// One attribute routed into the bag: a known numeric or timestamp kind
/// demands its exact payload length and, for timestamps, a
/// representable value, failing the record otherwise (`None`); path
/// kinds accept any payload; unknown kinds are skipped.
pub open spec fn spec_tlv_add(t: TLVView, id: u16, b: Seq<u8>) -> Option<TLVView> {
    if id == 1 {
        if b.len() == 16 { Some(TLVView { uuid: Some(spec_u128_from_le_bytes(b)), ..t }) } else { None }
    } else if id == 4 {
        if b.len() == 8 { Some(TLVView { size: Some(spec_u64_from_le_bytes(b)), ..t }) } else { None }
    } else if id == 5 {
        if b.len() == 8 { Some(TLVView { mode: Some(spec_u64_from_le_bytes(b)), ..t }) } else { None }
    } else if id == 6 {
        if b.len() == 8 { Some(TLVView { uid: Some(spec_u64_from_le_bytes(b)), ..t }) } else { None }
    } else if id == 7 {
        if b.len() == 8 { Some(TLVView { gid: Some(spec_u64_from_le_bytes(b)), ..t }) } else { None }
    } else if id == 8 {
        if b.len() == 8 { Some(TLVView { rdev: Some(spec_u64_from_le_bytes(b)), ..t }) } else { None }
    } else if id == 9 {
        if b.len() == 12 {
            match spec_timespec(b) {
                Some(ts) => Some(TLVView { ctime: Some(ts), ..t }),
                None => None,
            }
        } else { None }
    } else if id == 10 {
        if b.len() == 12 {
            match spec_timespec(b) {
                Some(ts) => Some(TLVView { mtime: Some(ts), ..t }),
                None => None,
            }
        } else { None }
    } else if id == 11 {
        if b.len() == 12 {
            match spec_timespec(b) {
                Some(ts) => Some(TLVView { atime: Some(ts), ..t }),
                None => None,
            }
        } else { None }
    } else if id == 13 {
        Some(TLVView { xattr_name: Some(spec_from_bytes(b)), ..t })
    } else if id == 14 {
        Some(TLVView { xattr_data: Some(spec_from_bytes(b)), ..t })
    } else if id == 15 {
        Some(TLVView { path: Some(spec_from_bytes(b)), ..t })
    } else if id == 16 {
        Some(TLVView { path_to: Some(spec_from_bytes(b)), ..t })
    } else if id == 17 {
        Some(TLVView { path_link: Some(spec_from_bytes(b)), ..t })
    } else if id == 22 {
        Some(TLVView { clone_path: Some(spec_from_bytes(b)), ..t })
    } else {
        Some(t)
    }
}

/// Reads a sixty-four-bit slot whose window must hold exactly its
/// eight bytes.
fn take_u64(reader: &mut OffsetedReader) -> (r: Result<u64, ParseError>)
    requires
        old(reader).wf(),
    ensures
        final(reader).wf(),
        if old(reader).remaining().len() == 8 {
            r == Result::<u64, ParseError>::Ok(spec_u64_from_le_bytes(old(reader).remaining()))
        } else {
            r matches Err(e) && e is InvalidData
        },
{
    if reader.remaining_len() != 8 {
        return Err(ParseError::InvalidData("wrong length for a numeric attribute"));
    }
    proof {
        assert(old(reader).remaining().take(8) =~= old(reader).remaining());
    }
    let v = match read_u64(reader) {
        Ok(v) => v,
        Err(_) => {
            return Err(ParseError::InvalidData("wrong length for a numeric attribute"));
        },
    };
    Ok(v)
}

impl TLV {
    /// The bag with every slot absent.
    pub fn new() -> (r: Self)
        ensures
            r@ == empty_tlv(),
    {
        TLV {
            UUID: TLVValue::WNone(TLVs::UUID),
            Size: TLVValue::WNone(TLVs::Size),
            Mode: TLVValue::WNone(TLVs::Mode),
            Uid: TLVValue::WNone(TLVs::Uid),
            Gid: TLVValue::WNone(TLVs::Gid),
            Rdev: TLVValue::WNone(TLVs::Rdev),
            Ctime: TLVValue::WNone(TLVs::Ctime),
            Mtime: TLVValue::WNone(TLVs::Mtime),
            Atime: TLVValue::WNone(TLVs::Atime),
            XattrName: TLVValue::WNone(TLVs::XattrName),
            XattrData: TLVValue::WNone(TLVs::XattrData),
            Path: TLVValue::WNone(TLVs::Path),
            PathTo: TLVValue::WNone(TLVs::PathTo),
            PathLink: TLVValue::WNone(TLVs::PathLink),
            ClonePath: TLVValue::WNone(TLVs::ClonePath),
        }
    }

    /// Routes one attribute into the bag.  The reader must be the
    /// record's bounded payload window; a wrong window length for a
    /// fixed-size kind, or an unrepresentable timestamp, fails with
    /// `InvalidData` and leaves the bag unchanged.
    pub fn add(&mut self, id: u16, reader: &mut OffsetedReader) -> (r: Result<(), ParseError>)
        requires
            old(reader).wf(),
    ensures
            final(reader).wf(),
            match spec_tlv_add(old(self)@, id, old(reader).remaining()) {
                Some(t) => r is Ok && final(self)@ == t,
                None => {
                    &&& r matches Err(e) && e is InvalidData
                    &&& final(self)@ == old(self)@
                },
            },
    {
        let ghost b = old(reader).remaining();
        if id == 1 {
            if reader.remaining_len() != 16 {
                return Err(ParseError::InvalidData("wrong length for a numeric attribute"));
            }
            proof {
                assert(b.take(16) =~= b);
            }
            let v = match read_u128(reader) {
                Ok(v) => v,
                Err(_) => {
                    return Err(ParseError::InvalidData("wrong length for a numeric attribute"));
                },
            };
            self.UUID = TLVValue::WSome(v);
            proof {
                assert(self@ =~= TLVView { uuid: Some(spec_u128_from_le_bytes(b)), ..old(self)@ });
            }
            Ok(())
        } else if id == 4 {
            let v = take_u64(reader)?;
            self.Size = TLVValue::WSome(v);
            proof {
                assert(self@ =~= TLVView { size: Some(spec_u64_from_le_bytes(b)), ..old(self)@ });
            }
            Ok(())
        } else if id == 5 {
            let v = take_u64(reader)?;
            self.Mode = TLVValue::WSome(v);
            proof {
                assert(self@ =~= TLVView { mode: Some(spec_u64_from_le_bytes(b)), ..old(self)@ });
            }
            Ok(())
        } else if id == 6 {
            let v = take_u64(reader)?;
            self.Uid = TLVValue::WSome(v);
            proof {
                assert(self@ =~= TLVView { uid: Some(spec_u64_from_le_bytes(b)), ..old(self)@ });
            }
            Ok(())
        } else if id == 7 {
            let v = take_u64(reader)?;
            self.Gid = TLVValue::WSome(v);
            proof {
                assert(self@ =~= TLVView { gid: Some(spec_u64_from_le_bytes(b)), ..old(self)@ });
            }
            Ok(())
        } else if id == 8 {
            let v = take_u64(reader)?;
            self.Rdev = TLVValue::WSome(v);
            proof {
                assert(self@ =~= TLVView { rdev: Some(spec_u64_from_le_bytes(b)), ..old(self)@ });
            }
            Ok(())
        } else if id == 9 {
            let ts = self.take_timespec(reader)?;
            self.Ctime = TLVValue::WSome(ts);
            proof {
                assert(self@ =~= TLVView { ctime: spec_timespec(b), ..old(self)@ });
            }
            Ok(())
        } else if id == 10 {
            let ts = self.take_timespec(reader)?;
            self.Mtime = TLVValue::WSome(ts);
            proof {
                assert(self@ =~= TLVView { mtime: spec_timespec(b), ..old(self)@ });
            }
            Ok(())
        } else if id == 11 {
            let ts = self.take_timespec(reader)?;
            self.Atime = TLVValue::WSome(ts);
            proof {
                assert(self@ =~= TLVView { atime: spec_timespec(b), ..old(self)@ });
            }
            Ok(())
        } else if id == 13 {
            let s = read_mixed(reader);
            self.XattrName = TLVValue::WSome(s);
            proof {
                assert(self@ =~= TLVView { xattr_name: Some(spec_from_bytes(b)), ..old(self)@ });
            }
            Ok(())
        } else if id == 14 {
            let s = read_mixed(reader);
            self.XattrData = TLVValue::WSome(s);
            proof {
                assert(self@ =~= TLVView { xattr_data: Some(spec_from_bytes(b)), ..old(self)@ });
            }
            Ok(())
        } else if id == 15 {
            let s = read_mixed(reader);
            self.Path = TLVValue::WSome(s);
            proof {
                assert(self@ =~= TLVView { path: Some(spec_from_bytes(b)), ..old(self)@ });
            }
            Ok(())
        } else if id == 16 {
            let s = read_mixed(reader);
            self.PathTo = TLVValue::WSome(s);
            proof {
                assert(self@ =~= TLVView { path_to: Some(spec_from_bytes(b)), ..old(self)@ });
            }
            Ok(())
        } else if id == 17 {
            let s = read_mixed(reader);
            self.PathLink = TLVValue::WSome(s);
            proof {
                assert(self@ =~= TLVView { path_link: Some(spec_from_bytes(b)), ..old(self)@ });
            }
            Ok(())
        } else if id == 22 {
            let s = read_mixed(reader);
            self.ClonePath = TLVValue::WSome(s);
            proof {
                assert(self@ =~= TLVView { clone_path: Some(spec_from_bytes(b)), ..old(self)@ });
            }
            Ok(())
        } else {
            Ok(())
        }
    }

    /// Reads a timestamp slot whose window must hold exactly its twelve
    /// bytes and decode to a representable date-time.
    fn take_timespec(&self, reader: &mut OffsetedReader) -> (r: Result<Timestamp, ParseError>)
        requires
            old(reader).wf(),
        ensures
            final(reader).wf(),
            if old(reader).remaining().len() == 12 {
                match spec_timespec(old(reader).remaining()) {
                    Some(ts) => r == Result::<Timestamp, ParseError>::Ok(ts),
                    None => r matches Err(e) && e is InvalidData,
                }
            } else {
                r matches Err(e) && e is InvalidData
            },
    {
        if reader.remaining_len() != 12 {
            return Err(ParseError::InvalidData("wrong length for a timestamp attribute"));
        }
        proof {
            assert(old(reader).remaining().take(12) =~= old(reader).remaining());
        }
        match read_timespec(reader) {
            Ok(ts) => Ok(ts),
            Err(_) => Err(ParseError::InvalidData("invalid timestamp attribute")),
        }
    }
}

/// What a whole payload window decodes to: attribute records routed
/// into the bag until the window is exhausted.  A window that ends
/// inside a record header is an error; a record whose payload fails
/// stops the decode and yields the bag so far.
pub open spec fn spec_read_tlvs(b: Seq<u8>, t: TLVView) -> Result<TLVView, ()>
    decreases b.len(),
{
    if b.len() < 2 {
        Ok(t)
    } else if b.len() < 4 {
        Err(())
    } else {
        let id = spec_u16_from_le_bytes(b.take(2));
        let len = spec_u16_from_le_bytes(b.subrange(2, 4));
        let w = vstd::math::min(len as int, b.len() - 4);
        let window = b.subrange(4, 4 + w);
        match spec_tlv_add(t, id, window) {
            Some(t2) => spec_read_tlvs(b.skip(4 + w), t2),
            None => Ok(t),
        }
    }
}

/// Decodes the attribute records of one command body.  The reader must
/// be the command's bounded window; it is consumed.  Fails only when
/// the window ends inside a record header; a failed record payload
/// instead ends the decode with the bag read so far.
pub fn read_tlvs(reader: &mut OffsetedReader) -> (r: Result<TLV, ParseError>)
    requires
        old(reader).wf(),
    ensures
        final(reader).wf(),
        match r {
            Ok(t) => spec_read_tlvs(old(reader).remaining(), empty_tlv()) == Result::<
                TLVView,
                (),
            >::Ok(t@),
            Err(e) => {
                &&& spec_read_tlvs(old(reader).remaining(), empty_tlv()) is Err
                &&& e == ParseError::UnexpectedEof
            },
        },
{
    let ghost orig = reader.remaining();
    let mut res = TLV::new();
    loop
        invariant_except_break
            spec_read_tlvs(orig, empty_tlv()) == spec_read_tlvs(reader.remaining(), res@),
        invariant
            reader.wf(),
            orig == old(reader).remaining(),
        ensures
            spec_read_tlvs(orig, empty_tlv()) == Result::<TLVView, ()>::Ok(res@),
        decreases reader.remaining().len(),
    {
        let ghost b = reader.remaining();
        let id = match try_read(read_u16(reader))? {
            Some(id) => id,
            None => {
                proof {
                    assert(spec_read_tlvs(b, res@) == Result::<TLVView, ()>::Ok(res@));
                }
                break;
            },
        };
        let len = match read_u16(reader) {
            Ok(len) => len,
            Err(e) => {
                proof {
                    assert(spec_read_tlvs(b, res@) == Result::<TLVView, ()>::Err(()));
                }
                return Err(e);
            },
        };
        proof {
            assert(b.skip(2).take(2) =~= b.subrange(2, 4));
            assert(b.skip(2).skip(2) =~= b.skip(4));
        }
        let mut window = reader.take(len as usize);
        proof {
            let w = vstd::math::min(len as int, b.len() - 4);
            assert(b.skip(4).take(w) =~= b.subrange(4, 4 + w));
            assert(b.skip(4).skip(w) =~= b.skip(4 + w));
        }
        let ghost prev_bag = res@;
        let added = res.add(id, &mut window);
        proof {
            let w = vstd::math::min(len as int, b.len() - 4);
            assert(spec_read_tlvs(b, prev_bag) == match spec_tlv_add(
                prev_bag,
                id,
                b.subrange(4, 4 + w),
            ) {
                Some(t2) => spec_read_tlvs(b.skip(4 + w), t2),
                None => Result::<TLVView, ()>::Ok(prev_bag),
            });
        }
        if added.is_err() {
            proof {
                assert(spec_read_tlvs(b, prev_bag) == Result::<TLVView, ()>::Ok(prev_bag));
            }
            break;
        }
    }
    Ok(res)
}

} // verus!
