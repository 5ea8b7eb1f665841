//! A byte vector on loan, with a read position.
use vstd::prelude::*;

verus! {

/// `std::io::Error`: the error of a write or a read. The buffer never
/// makes one.
#[verifier::external_type_specification]
#[verifier::external_body]
pub struct ExIoError(std::io::Error);

/// `copy_from_slice` of slices: copies all of `src` into `dst`. std
/// documents that the two must be of one length.
pub assume_specification<T>[ <[T]>::copy_from_slice ](dst: &mut [T], src: &[T]) where T: Copy
    requires
        old(dst)@.len() == src@.len(),
    ensures
        final(dst)@ == src@,
;

/// A borrowed byte vector that is written at its end and read from an
/// offset that moves forward with every read. The loan is in the open: what
/// the buffer holds when it is let go is what the lender finds in the
/// vector.
pub struct VecBuf<'a> {
    /// The vector on loan.
    pub _data: &'a mut Vec<u8>,
    /// The position of the next byte to be read.
    pub _offset: usize,
}

impl<'a> VecBuf<'a> {
    /// The bytes of the vector.
    pub open spec fn data(&self) -> Seq<u8> {
        self._data@
    }

    /// The vector on loan.
    pub open spec fn target(&self) -> &'a mut Vec<u8> {
        self._data
    }

    /// The position of the next byte to be read.
    pub open spec fn spec_offset(&self) -> usize {
        self._offset
    }

    /// The read position lies within the bytes or at their end.
    pub open spec fn wf(&self) -> bool {
        self.spec_offset() <= self.data().len()
    }

    /// The bytes that are left to be read.
    pub open spec fn unread(&self) -> Seq<u8> {
        self.data().skip(self.spec_offset() as int)
    }

    /// A buffer over `buf` that reads from its start. What the buffer
    /// leaves in the vector is what `buf` holds when the loan ends.
    pub fn from(buf: &'a mut Vec<u8>) -> (wrapped: VecBuf<'a>)
        ensures
            wrapped.data() == old(buf)@,
            wrapped.spec_offset() == 0,
            wrapped.wf(),
            *final(wrapped.target()) == *final(buf),
    {
        VecBuf { _data: buf, _offset: 0 }
    }

    #[verifier::when_used_as_spec(spec_offset)]
    pub fn offset(&self) -> (offset: usize)
        ensures
            offset == self.spec_offset(),
    {
        self._offset
    }

    /// The number of bytes that are left to be read.
    pub fn len(&self) -> (len: usize)
        requires
            self.wf(),
        ensures
            len == self.unread().len(),
            len == self.data().len() - self.spec_offset(),
    {
        self._data.len() - self._offset
    }

    /// Moves the read position.
    pub fn set_offset(&mut self, offset: usize)
        ensures
            final(self).spec_offset() == offset,
            final(self).data() == old(self).data(),
            *final(final(self).target()) == *final(old(self).target()),
    {
        self._offset = offset;
    }

    /// Empties the vector and moves the read position to its start.
    pub fn clear(&mut self)
        ensures
            final(self).spec_offset() == 0,
            final(self).data() == Seq::<u8>::empty(),
            final(self).wf(),
            *final(final(self).target()) == *final(old(self).target()),
    {
        self._offset = 0;
        self._data.clear();
    }

    /// Appends all of `buf` to the vector and returns its length.
    pub fn write(&mut self, buf: &[u8]) -> (written: Result<usize, std::io::Error>)
        ensures
            written is Ok,
            written->Ok_0 == buf@.len(),
            final(self).data() == old(self).data() + buf@,
            final(self).spec_offset() == old(self).spec_offset(),
            *final(final(self).target()) == *final(old(self).target()),
    {
        let size = buf.len();
        self._data.extend_from_slice(buf);
        proof {
            assert(self.data() =~= old(self).data() + buf@);
        }
        Ok(size)
    }

    /// Does nothing: every write is in the vector at once.
    pub fn flush(&mut self) -> (flushed: Result<(), std::io::Error>)
        ensures
            flushed is Ok,
            final(self).data() == old(self).data(),
            final(self).spec_offset() == old(self).spec_offset(),
            *final(final(self).target()) == *final(old(self).target()),
    {
        Ok(())
    }

    /// Fills `buf` with the next unread bytes, moves the read position
    /// behind them and returns their number. Where nothing is left to be
    /// read, returns 0 and leaves `buf` as it is.
    pub fn read(&mut self, buf: &mut [u8]) -> (read: Result<usize, std::io::Error>)
        requires
            old(self).wf(),
            old(self).unread().len() == 0 || old(buf)@.len() <= old(self).unread().len(),
        ensures
            read is Ok,
            old(self).unread().len() == 0 ==> read->Ok_0 == 0 && final(buf)@ == old(buf)@,
            old(self).unread().len() > 0 ==> read->Ok_0 == old(buf)@.len() && final(buf)@
                == old(self).unread().take(old(buf)@.len() as int),
            final(self).spec_offset() == old(self).spec_offset() + read->Ok_0,
            final(self).data() == old(self).data(),
            final(self).wf(),
            *final(final(self).target()) == *final(old(self).target()),
    {
        let needed = buf.len();
        let mut current = self.len();
        if current == 0 {
            return Ok(0);
        }
        if needed < current {
            current = needed
        }
        let total: usize = self._data.len();
        proof {
            assert(current == needed);
            assert(self._offset + current <= total);
        }
        let src = &self._data.as_slice()[self._offset..self._offset + current];
        buf.copy_from_slice(src);
        proof {
            assert(src@ =~= old(self).unread().take(needed as int));
        }
        self._offset += current;
        Ok(current)
    }
}

} // verus!
