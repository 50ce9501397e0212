use vstd::prelude::*;

verus! {

use crate::error::ParseError;
use crate::mixed::hex_digit;
use crate::mixed::mixed_bytes;
use crate::mixed::push_char;
use crate::mixed::MixedString;
use crate::model::Timestamp;
use crate::offseted_reader::OffsetedReader;
use vstd::bytes::spec_u16_from_le_bytes;
use vstd::bytes::spec_u32_from_le_bytes;
use vstd::bytes::spec_u64_from_le_bytes;
use vstd::bytes::spec_u128_from_le_bytes;
use vstd::bytes::u16_from_le_bytes;
use vstd::bytes::u32_from_le_bytes;
use vstd::bytes::u64_from_le_bytes;
use vstd::bytes::u128_from_le_bytes;

/// Turns the clean end-of-source failure into an absent value, so a
/// caller can tell a stream that stopped at a record boundary from one
/// that failed inside a record.
pub fn try_read<T>(r: Result<T, ParseError>) -> (out: Result<Option<T>, ParseError>)
    ensures
        match r {
            Ok(v) => out == Result::<Option<T>, ParseError>::Ok(Some(v)),
            Err(e) => if e is UnexpectedEof {
                out == Result::<Option<T>, ParseError>::Ok(None::<T>)
            } else {
                out == Result::<Option<T>, ParseError>::Err(e)
            },
        },
{
    match r {
        Ok(v) => Ok(Some(v)),
        Err(ParseError::UnexpectedEof) => Ok(None),
        Err(e) => Err(e),
    }
}

/// Reads a little-endian sixteen-bit integer.
pub fn read_u16(reader: &mut OffsetedReader) -> (r: Result<u16, ParseError>)
    requires
        old(reader).wf(),
    ensures
        final(reader).wf(),
        old(reader).remaining().len() >= 2 ==> {
            &&& r == Result::<u16, ParseError>::Ok(
                spec_u16_from_le_bytes(old(reader).remaining().take(2)),
            )
            &&& final(reader).remaining() == old(reader).remaining().skip(2)
            &&& final(reader).spec_offset() == old(reader).spec_offset() + 2
        },
        old(reader).remaining().len() < 2 ==> {
            &&& r == Result::<u16, ParseError>::Err(ParseError::UnexpectedEof)
            &&& *final(reader) == *old(reader)
        },
{
    let bytes = reader.read_exact(2)?;
    Ok(u16_from_le_bytes(bytes.as_slice()))
}

/// Reads a little-endian thirty-two-bit integer.
pub fn read_u32(reader: &mut OffsetedReader) -> (r: Result<u32, ParseError>)
    requires
        old(reader).wf(),
    ensures
        final(reader).wf(),
        old(reader).remaining().len() >= 4 ==> {
            &&& r == Result::<u32, ParseError>::Ok(
                spec_u32_from_le_bytes(old(reader).remaining().take(4)),
            )
            &&& final(reader).remaining() == old(reader).remaining().skip(4)
            &&& final(reader).spec_offset() == old(reader).spec_offset() + 4
        },
        old(reader).remaining().len() < 4 ==> {
            &&& r == Result::<u32, ParseError>::Err(ParseError::UnexpectedEof)
            &&& *final(reader) == *old(reader)
        },
{
    let bytes = reader.read_exact(4)?;
    Ok(u32_from_le_bytes(bytes.as_slice()))
}

/// Reads a little-endian sixty-four-bit integer.
pub fn read_u64(reader: &mut OffsetedReader) -> (r: Result<u64, ParseError>)
    requires
        old(reader).wf(),
    ensures
        final(reader).wf(),
        old(reader).remaining().len() >= 8 ==> {
            &&& r == Result::<u64, ParseError>::Ok(
                spec_u64_from_le_bytes(old(reader).remaining().take(8)),
            )
            &&& final(reader).remaining() == old(reader).remaining().skip(8)
            &&& final(reader).spec_offset() == old(reader).spec_offset() + 8
        },
        old(reader).remaining().len() < 8 ==> {
            &&& r == Result::<u64, ParseError>::Err(ParseError::UnexpectedEof)
            &&& *final(reader) == *old(reader)
        },
{
    let bytes = reader.read_exact(8)?;
    Ok(u64_from_le_bytes(bytes.as_slice()))
}

/// Reads a little-endian one-hundred-twenty-eight-bit integer.
pub fn read_u128(reader: &mut OffsetedReader) -> (r: Result<u128, ParseError>)
    requires
        old(reader).wf(),
    ensures
        final(reader).wf(),
        old(reader).remaining().len() >= 16 ==> {
            &&& r == Result::<u128, ParseError>::Ok(
                spec_u128_from_le_bytes(old(reader).remaining().take(16)),
            )
            &&& final(reader).remaining() == old(reader).remaining().skip(16)
            &&& final(reader).spec_offset() == old(reader).spec_offset() + 16
        },
        old(reader).remaining().len() < 16 ==> {
            &&& r == Result::<u128, ParseError>::Err(ParseError::UnexpectedEof)
            &&& *final(reader) == *old(reader)
        },
{
    let bytes = reader.read_exact(16)?;
    Ok(u128_from_le_bytes(bytes.as_slice()))
}

/// Whether a pair of seconds since the epoch and nanoseconds within the
/// second forms a date-time the calendar library can represent.
pub uninterp spec fn timestamp_in_range(secs: int, nanos: int) -> bool;

/// Relies on `chrono::DateTime::from_timestamp`: whether a pair of
/// seconds since the epoch and nanoseconds forms a representable
/// date-time depends on the two values alone.
#[verifier::external_body]
fn chrono_timestamp_valid(secs: i64, nanos: u32) -> (r: bool)
    ensures
        r == timestamp_in_range(secs as int, nanos as int),
{
    chrono::DateTime::from_timestamp(secs, nanos).is_some()
}

/// What a twelve-byte timestamp payload decodes to: the seconds field
/// read as an unsigned little-endian integer must fit the signed range,
/// and the pair must be a representable date-time.
pub open spec fn spec_timespec(b: Seq<u8>) -> Option<Timestamp> {
    let s = spec_u64_from_le_bytes(b.subrange(0, 8));
    let n = spec_u32_from_le_bytes(b.subrange(8, 12));
    if s <= i64::MAX && timestamp_in_range(s as int, n as int) {
        Some(Timestamp { secs: s as i64, nanos: n })
    } else {
        None
    }
}

/// Reads a timestamp: sixty-four bits of seconds and thirty-two bits of
/// nanoseconds, both little-endian.  Fails with `InvalidData` when the
/// seconds exceed the signed range or the pair is not a representable
/// date-time.
pub fn read_timespec(reader: &mut OffsetedReader) -> (r: Result<Timestamp, ParseError>)
    requires
        old(reader).wf(),
    ensures
        final(reader).wf(),
        old(reader).remaining().len() >= 12 ==> {
            &&& final(reader).remaining() == old(reader).remaining().skip(12)
            &&& match spec_timespec(old(reader).remaining().take(12)) {
                Some(t) => r == Result::<Timestamp, ParseError>::Ok(t),
                None => r matches Err(e) && e is InvalidData,
            }
        },
        old(reader).remaining().len() < 12 ==> {
            &&& r == Result::<Timestamp, ParseError>::Err(ParseError::UnexpectedEof)
            &&& final(reader).remaining() == if old(reader).remaining().len() >= 8 {
                old(reader).remaining().skip(8)
            } else {
                old(reader).remaining()
            }
        },
{
    let ghost orig = old(reader).remaining();
    let s = read_u64(reader)?;
    let n = match read_u32(reader) {
        Ok(n) => n,
        Err(e) => {
            return Err(e);
        },
    };
    proof {
        if orig.len() >= 12 {
            assert(orig.skip(8).take(4) =~= orig.take(12).subrange(8, 12));
            assert(orig.skip(8).skip(4) =~= orig.skip(12));
            assert(orig.take(8) =~= orig.take(12).subrange(0, 8));
        }
    }
    if s > i64::MAX as u64 {
        return Err(ParseError::InvalidData("too many seconds in timestamp"));
    }
    let secs = s as i64;
    if !chrono_timestamp_valid(secs, n) {
        return Err(ParseError::InvalidData("invalid timestamp"));
    }
    Ok(Timestamp { secs, nanos: n })
}

/// Reads whatever is left in the reader's window.
pub fn read_bytes(reader: &mut OffsetedReader) -> (r: Vec<u8>)
    requires
        old(reader).wf(),
    ensures
        final(reader).wf(),
        r@ == old(reader).remaining(),
        final(reader).remaining() == Seq::<u8>::empty(),
        final(reader).spec_offset() == old(reader).spec_offset() + old(reader).remaining().len(),
{
    let n = reader.remaining_len();
    let bytes = match reader.read_exact(n) {
        Ok(bytes) => bytes,
        Err(_) => {
            proof {
                assert(false);
            }
            Vec::new()
        },
    };
    proof {
        assert(old(reader).remaining().take(n as int) =~= old(reader).remaining());
        assert(old(reader).remaining().skip(n as int) =~= Seq::<u8>::empty());
    }
    bytes
}

/// Reads whatever is left in the reader's window as a path.
pub fn read_mixed(reader: &mut OffsetedReader) -> (r: MixedString)
    requires
        old(reader).wf(),
    ensures
        final(reader).wf(),
        r@ == crate::mixed::spec_from_bytes(old(reader).remaining()),
        mixed_bytes(r@) == old(reader).remaining(),
        final(reader).remaining() == Seq::<u8>::empty(),
{
    let bytes = read_bytes(reader);
    MixedString::from_bytes(bytes.as_slice())
}

/// The two lower-case hexadecimal digits of one byte.
pub open spec fn hex_byte_chars(b: u8) -> Seq<char> {
    seq![hex_digit(b / 16), hex_digit(b % 16)]
}

/// Each byte as two digits followed by a space.
pub open spec fn hex_spaced(b: Seq<u8>) -> Seq<char>
    decreases b.len(),
{
    if b.len() == 0 {
        Seq::empty()
    } else {
        hex_byte_chars(b[0]) + seq![' '] + hex_spaced(b.drop_first())
    }
}

/// Each byte as two digits, no separation.
pub open spec fn hex_packed(b: Seq<u8>) -> Seq<char>
    decreases b.len(),
{
    if b.len() == 0 {
        Seq::empty()
    } else {
        hex_byte_chars(b[0]) + hex_packed(b.drop_first())
    }
}

/// Bytes as space-separated digit pairs without a trailing space.
pub open spec fn hex_separated(b: Seq<u8>) -> Seq<char> {
    if b.len() == 0 {
        Seq::empty()
    } else {
        hex_spaced(b.drop_last()) + hex_byte_chars(b.last())
    }
}

/// The hexadecimal rendering of a byte dump: short dumps are
/// space-separated, middle-sized ones packed, and long ones elided down
/// to the first and last four bytes around an ellipsis.
pub open spec fn hex_chars(b: Seq<u8>) -> Seq<char> {
    if b.len() > 15 {
        hex_spaced(b.take(4)) + seq!['.', '.', '.', ' '] + hex_separated(b.skip(b.len() - 4))
    } else if b.len() > 10 {
        hex_packed(b)
    } else {
        hex_separated(b)
    }
}

proof fn lemma_hex_spaced_push(b: Seq<u8>, x: u8)
    ensures
        hex_spaced(b.push(x)) == hex_spaced(b) + hex_byte_chars(x) + seq![' '],
    decreases b.len(),
{
    assert(hex_spaced(Seq::<u8>::empty()) == Seq::<char>::empty());
    if b.len() == 0 {
        assert(b.push(x).drop_first() =~= Seq::<u8>::empty());
        assert(b.push(x)[0] == x);
        assert(hex_spaced(b.push(x)) =~= hex_spaced(b) + hex_byte_chars(x) + seq![' ']);
    } else {
        assert(b.push(x).drop_first() =~= b.drop_first().push(x));
        lemma_hex_spaced_push(b.drop_first(), x);
        assert(b.push(x)[0] == b[0]);
        assert(hex_spaced(b.push(x)) =~= hex_spaced(b) + hex_byte_chars(x) + seq![' ']);
    }
}

proof fn lemma_hex_packed_push(b: Seq<u8>, x: u8)
    ensures
        hex_packed(b.push(x)) == hex_packed(b) + hex_byte_chars(x),
    decreases b.len(),
{
    assert(hex_packed(Seq::<u8>::empty()) == Seq::<char>::empty());
    if b.len() == 0 {
        assert(b.push(x).drop_first() =~= Seq::<u8>::empty());
        assert(b.push(x)[0] == x);
        assert(hex_packed(b.push(x)) =~= hex_packed(b) + hex_byte_chars(x));
    } else {
        assert(b.push(x).drop_first() =~= b.drop_first().push(x));
        lemma_hex_packed_push(b.drop_first(), x);
        assert(b.push(x)[0] == b[0]);
        assert(hex_packed(b.push(x)) =~= hex_packed(b) + hex_byte_chars(x));
    }
}

/// Appends one byte as two lower-case hexadecimal digits.
fn push_hex_byte(s: &mut String, b: u8)
    ensures
        final(s)@ == old(s)@ + hex_byte_chars(b),
{
    let ghost prev = s@;
    push_char(s, crate::mixed::hex_digit_of(b / 16));
    push_char(s, crate::mixed::hex_digit_of(b % 16));
    proof {
        assert(s@ =~= prev + hex_byte_chars(b));
    }
}

/// Bytes of `b` from `from` to `to`, space-separated, with a trailing
/// space.
fn push_hex_spaced(s: &mut String, b: &[u8], from: usize, to: usize)
    requires
        from <= to <= b@.len(),
    ensures
        final(s)@ == old(s)@ + hex_spaced(b@.subrange(from as int, to as int)),
{
    let ghost base = s@;
    let mut i: usize = from;
    while i < to
        invariant
            from <= i <= to <= b@.len(),
            s@ == base + hex_spaced(b@.subrange(from as int, i as int)),
        decreases to - i,
    {
        push_hex_byte(s, b[i]);
        push_char(s, ' ');
        proof {
            lemma_hex_spaced_push(b@.subrange(from as int, i as int), b@[i as int]);
            assert(b@.subrange(from as int, i as int).push(b@[i as int])
                =~= b@.subrange(from as int, i + 1));
            assert(s@ =~= base + hex_spaced(b@.subrange(from as int, i + 1)));
        }
        i = i + 1;
    }
}

/// Bytes of `b` from `from` to `to`, space-separated, without a
/// trailing space.
fn push_hex_separated(s: &mut String, b: &[u8], from: usize, to: usize)
    requires
        from <= to <= b@.len(),
    ensures
        final(s)@ == old(s)@ + hex_separated(b@.subrange(from as int, to as int)),
{
    let ghost base = s@;
    if from == to {
        proof {
            assert(b@.subrange(from as int, to as int) =~= Seq::<u8>::empty());
            assert(s@ =~= base + hex_separated(Seq::<u8>::empty()));
        }
        return;
    }
    push_hex_spaced(s, b, from, to - 1);
    push_hex_byte(s, b[to - 1]);
    proof {
        let whole = b@.subrange(from as int, to as int);
        assert(whole.drop_last() =~= b@.subrange(from as int, to - 1));
        assert(s@ =~= base + hex_separated(whole));
    }
}

/// Renders a byte dump: short dumps space-separated, middle-sized ones
/// packed, long ones elided to the first and last four bytes around an
/// ellipsis.
pub fn hex(arr: &[u8]) -> (r: String)
    ensures
        r@ == hex_chars(arr@),
{
    let n = arr.len();
    let mut res = String::new();
    if n > 15 {
        push_hex_spaced(&mut res, arr, 0, 4);
        let ghost with_head = res@;
        push_char(&mut res, '.');
        push_char(&mut res, '.');
        push_char(&mut res, '.');
        push_char(&mut res, ' ');
        proof {
            assert(res@ =~= with_head + seq!['.', '.', '.', ' ']);
            assert(arr@.subrange(0, 4) =~= arr@.take(4));
        }
        push_hex_separated(&mut res, arr, n - 4, n);
        proof {
            assert(arr@.subrange(n - 4, n as int) =~= arr@.skip(n - 4));
            assert(res@ =~= hex_chars(arr@));
        }
    } else if n > 10 {
        let mut i: usize = 0;
        while i < n
            invariant
                n == arr@.len(),
                i <= n,
                res@ == hex_packed(arr@.subrange(0, i as int)),
            decreases n - i,
        {
            push_hex_byte(&mut res, arr[i]);
            proof {
                lemma_hex_packed_push(arr@.subrange(0, i as int), arr@[i as int]);
                assert(arr@.subrange(0, i as int).push(arr@[i as int])
                    =~= arr@.subrange(0, i + 1));
            }
            i = i + 1;
        }
        proof {
            assert(arr@.subrange(0, n as int) =~= arr@);
        }
    } else {
        push_hex_separated(&mut res, arr, 0, n);
        proof {
            assert(arr@.subrange(0, n as int) =~= arr@);
        }
    }
    res
}

} // verus!
