use vstd::prelude::*;

verus! {

use crate::error::ParseError;
use vstd::slice::slice_subrange;
use vstd::slice::slice_to_vec;

/// A bounded window over a byte source that counts the bytes consumed.
///
/// A reader covers `remaining()` bytes still to be read.  `take`
/// produces a sub-reader over a prefix of those bytes whose reported
/// offsets stay in the outer stream's coordinate system, and advances
/// this reader past the whole window, so that a sub-reader abandoned
/// early never desynchronizes its parent.
pub struct OffsetedReader<'a> {
    data: &'a [u8],
    pos: usize,
    end: usize,
    bias: usize,
}

impl<'a> OffsetedReader<'a> {
    /// Internal consistency: the window lies inside the data and the
    /// reported offset cannot overflow.
    pub closed spec fn wf(&self) -> bool {
        &&& self.pos <= self.end
        &&& self.end <= self.data@.len()
        &&& self.bias + self.end <= usize::MAX
    }

    /// The bytes still to be read.
    pub closed spec fn remaining(&self) -> Seq<u8> {
        self.data@.subrange(self.pos as int, self.end as int)
    }

    /// The offset of the next byte, in the outer stream's coordinates.
    pub closed spec fn spec_offset(&self) -> int {
        self.bias + self.pos
    }

    /// A reader over all of `data`, starting at offset zero.
    pub fn new(data: &'a [u8]) -> (r: Self)
        ensures
            r.wf(),
            r.remaining() == data@,
            r.spec_offset() == 0,
    {
        let end = data.len();
        proof {
            assert(data@.subrange(0, end as int) =~= data@);
        }
        Self { data, pos: 0, end, bias: 0 }
    }

    /// A reader over all of `data` whose reported offsets start at
    /// `offset`, for sub-windows of a larger stream.
    pub fn after(offset: usize, data: &'a [u8]) -> (r: Self)
        requires
            offset + data@.len() <= usize::MAX,
        ensures
            r.wf(),
            r.remaining() == data@,
            r.spec_offset() == offset,
    {
        let end = data.len();
        proof {
            assert(data@.subrange(0, end as int) =~= data@);
        }
        Self { data, pos: 0, end, bias: offset }
    }

    /// The number of bytes consumed so far, counted from the reader's
    /// starting offset.
    pub fn get_offset(&self) -> (r: usize)
        requires
            self.wf(),
        ensures
            r == self.spec_offset(),
    {
        self.bias + self.pos
    }

    /// How many bytes are still to be read.
    pub fn remaining_len(&self) -> (r: usize)
        requires
            self.wf(),
        ensures
            r == self.remaining().len(),
    {
        self.end - self.pos
    }

    /// Reads exactly `n` bytes, or fails with `UnexpectedEof` leaving
    /// the reader unchanged when fewer remain.
    pub fn read_exact(&mut self, n: usize) -> (r: Result<Vec<u8>, ParseError>)
        requires
            old(self).wf(),
        ensures
            final(self).wf(),
            n <= old(self).remaining().len() ==> {
                &&& r is Ok
                &&& r->Ok_0@ == old(self).remaining().take(n as int)
                &&& final(self).remaining() == old(self).remaining().skip(n as int)
                &&& final(self).spec_offset() == old(self).spec_offset() + n
            },
            n > old(self).remaining().len() ==> {
                &&& r == Result::<Vec<u8>, ParseError>::Err(ParseError::UnexpectedEof)
                &&& *final(self) == *old(self)
            },
    {
        if n > self.end - self.pos {
            return Err(ParseError::UnexpectedEof);
        }
        let out = slice_to_vec(slice_subrange(self.data, self.pos, self.pos + n));
        proof {
            assert(self.data@.subrange(self.pos as int, self.pos + n)
                =~= old(self).remaining().take(n as int));
            assert(self.data@.subrange(self.pos + n, self.end as int)
                =~= old(self).remaining().skip(n as int));
        }
        self.pos = self.pos + n;
        Ok(out)
    }

    /// Splits off a sub-reader over the next `n` remaining bytes (or
    /// all of them, when fewer remain).  This reader advances past the
    /// whole window at once, so bytes the sub-reader never reads are
    /// discarded.
    pub fn take(&mut self, n: usize) -> (sub: OffsetedReader<'a>)
        requires
            old(self).wf(),
        ensures
            final(self).wf(),
            sub.wf(),
            sub.remaining() == old(self).remaining().take(
                vstd::math::min(n as int, old(self).remaining().len() as int),
            ),
            sub.spec_offset() == old(self).spec_offset(),
            final(self).remaining() == old(self).remaining().skip(
                vstd::math::min(n as int, old(self).remaining().len() as int),
            ),
            final(self).spec_offset() == old(self).spec_offset() + vstd::math::min(
                n as int,
                old(self).remaining().len() as int,
            ),
    {
        let avail = self.end - self.pos;
        let w = if n < avail { n } else { avail };
        let sub = OffsetedReader {
            data: self.data,
            pos: self.pos,
            end: self.pos + w,
            bias: self.bias,
        };
        proof {
            assert(sub.remaining() =~= old(self).remaining().take(w as int));
            assert(self.data@.subrange(self.pos + w, self.end as int)
                =~= old(self).remaining().skip(w as int));
        }
        self.pos = self.pos + w;
        sub
    }
}

} // verus!
