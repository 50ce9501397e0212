use vstd::prelude::*;

verus! {

use crate::error::ParseError;
use crate::tlv::TLVValue;

/// The commands a stream frame can carry, by opcode.
#[derive(Copy, Clone, Debug, PartialEq, Eq, Structural)]
pub enum Command {
    Subvolume,
    Snapshot,
    MkFile,
    MkDir,
    MkNod,
    MkFIFO,
    MkSock,
    Symlink,
    Rename,
    Link,
    Unlink,
    Rmdir,
    SetXattr,
    RemoveXattr,
    Clone,
    Chmod,
    Chown,
    Utimes,
    End,
    Unknown,
}

/// The command an opcode names; opcodes outside the table name
/// `Unknown`.
pub open spec fn spec_command_kind(id: u16) -> Command {
    if id == 1 { Command::Subvolume }
    else if id == 2 { Command::Snapshot }
    else if id == 3 { Command::MkFile }
    else if id == 4 { Command::MkDir }
    else if id == 5 { Command::MkNod }
    else if id == 6 { Command::MkFIFO }
    else if id == 7 { Command::MkSock }
    else if id == 8 { Command::Symlink }
    else if id == 9 { Command::Rename }
    else if id == 10 { Command::Link }
    else if id == 11 { Command::Unlink }
    else if id == 12 { Command::Rmdir }
    else if id == 13 { Command::SetXattr }
    else if id == 14 { Command::RemoveXattr }
    else if id == 16 { Command::Clone }
    else if id == 18 { Command::Chmod }
    else if id == 19 { Command::Chown }
    else if id == 20 { Command::Utimes }
    else if id == 21 { Command::End }
    else { Command::Unknown }
}

/// The largest value of an integer type, for the sentinel a missing
/// numeric attribute falls back to.
pub trait Bounded: Sized {
    /// The largest value of the type.
    spec fn spec_max() -> Self;

    /// The largest value of the type.
    fn max_value() -> (r: Self)
        ensures
            r == Self::spec_max(),
    ;
}

impl Bounded for u64 {
    open spec fn spec_max() -> u64 {
        u64::MAX
    }

    fn max_value() -> u64 {
        u64::MAX
    }
}

impl Bounded for u128 {
    open spec fn spec_max() -> u128 {
        u128::MAX
    }

    fn max_value() -> u128 {
        u128::MAX
    }
}

impl Command {
    /// The command an opcode names.
    pub fn new(id: u16) -> (r: Command)
        ensures
            r == spec_command_kind(id),
    {
        match id {
            1 => Command::Subvolume,
            2 => Command::Snapshot,
            3 => Command::MkFile,
            4 => Command::MkDir,
            5 => Command::MkNod,
            6 => Command::MkFIFO,
            7 => Command::MkSock,
            8 => Command::Symlink,
            9 => Command::Rename,
            10 => Command::Link,
            11 => Command::Unlink,
            12 => Command::Rmdir,
            13 => Command::SetXattr,
            14 => Command::RemoveXattr,
            16 => Command::Clone,
            18 => Command::Chmod,
            19 => Command::Chown,
            20 => Command::Utimes,
            21 => Command::End,
            _ => Command::Unknown,
        }
    }

    /// The slot's value, or the fallback: the given default when one is
    /// supplied, else an `InvalidData` failure naming the command.
    fn _tlv_get<T>(&self, val: TLVValue<T>, def: Option<T>) -> (r: Result<T, ParseError>)
        ensures
            match val {
                TLVValue::WSome(x) => r == Result::<T, ParseError>::Ok(x),
                TLVValue::WNone(_) => match def {
                    Some(d) => r == Result::<T, ParseError>::Ok(d),
                    None => r matches Err(e) && e is InvalidData,
                },
            },
    {
        match val {
            TLVValue::WSome(x) => Ok(x),
            TLVValue::WNone(_) => match def {
                Some(d) => Ok(d),
                None => Err(ParseError::InvalidData("required attribute not found in command")),
            },
        }
    }

    /// The slot's value; fails with `InvalidData` when the attribute
    /// was absent.
    pub fn tlv_get<T>(&self, val: TLVValue<T>) -> (r: Result<T, ParseError>)
        ensures
            match val {
                TLVValue::WSome(x) => r == Result::<T, ParseError>::Ok(x),
                TLVValue::WNone(_) => r matches Err(e) && e is InvalidData,
            },
    {
        self._tlv_get(val, None)
    }

    /// The slot's value, or the given default when the attribute was
    /// absent.
    pub fn tlv_get_def<T>(&self, val: TLVValue<T>, def: T) -> (r: Result<T, ParseError>)
        ensures
            match val {
                TLVValue::WSome(x) => r == Result::<T, ParseError>::Ok(x),
                TLVValue::WNone(_) => r == Result::<T, ParseError>::Ok(def),
            },
    {
        self._tlv_get(val, Some(def))
    }

    /// The slot's value, or the largest value of its integer type when
    /// the attribute was absent: the sentinel for fields the stream
    /// tolerates missing.
    pub fn tlv_get_auto<T: Bounded>(&self, val: TLVValue<T>) -> (r: Result<T, ParseError>)
        ensures
            match val {
                TLVValue::WSome(x) => r == Result::<T, ParseError>::Ok(x),
                TLVValue::WNone(_) => r == Result::<T, ParseError>::Ok(T::spec_max()),
            },
    {
        self._tlv_get(val, Some(T::max_value()))
    }
}

} // verus!
