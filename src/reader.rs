//! Reading a file's text line by line under the size ceiling.

use vstd::prelude::*;
use crate::classify::{decode_utf8, utf8_decode, MAX_FILE_SIZE_BYTES};

verus! {

/// Why a bounded read gave no text.
#[derive(Clone, Copy, Debug, PartialEq, Eq, Structural)]
pub enum ReadFailure {
    /// The running total, or the size known beforehand, passed the ceiling.
    SizeExceeded,
    /// The bytes read are not valid UTF-8.
    InvalidUtf8,
}

/// The bytes of a file read so far, never more than the ceiling.
pub struct BoundedText {
    bytes: Vec<u8>,
}

impl View for BoundedText {
    type V = Seq<u8>;

    closed spec fn view(&self) -> Seq<u8> {
        self.bytes@
    }
}

/// Whether taking `line` bytes after `read` bytes passes the ceiling.
pub open spec fn exceeds_limit(read: nat, line: nat) -> bool {
    read + line > MAX_FILE_SIZE_BYTES
}

impl BoundedText {
    /// Nothing read so far stays within the ceiling.
    pub open spec fn wf(&self) -> bool {
        self@.len() <= MAX_FILE_SIZE_BYTES
    }

    /// Starts a read of a file whose metadata gave `size_hint` bytes. Fails
    /// before any byte is read where that size already passes the ceiling.
    pub fn new(size_hint: u64) -> (r: Result<Self, ReadFailure>)
        ensures
            r is Ok <==> size_hint <= MAX_FILE_SIZE_BYTES,
            r is Ok ==> r->Ok_0@ == Seq::<u8>::empty() && r->Ok_0.wf(),
            r is Err ==> r->Err_0 == ReadFailure::SizeExceeded,
    {
        if size_hint > MAX_FILE_SIZE_BYTES {
            Err(ReadFailure::SizeExceeded)
        } else {
            Ok(BoundedText { bytes: Vec::new() })
        }
    }

    /// Number of bytes taken so far.
    pub fn len(&self) -> (r: usize)
        ensures
            r == self@.len(),
    {
        self.bytes.len()
    }

    /// Takes the next line of the file. Fails, keeping what was read, the
    /// moment the running total passes the ceiling.
    pub fn push_line(&mut self, line: &[u8]) -> (r: Result<(), ReadFailure>)
        requires
            old(self).wf(),
        ensures
            final(self).wf(),
            r == (if exceeds_limit(old(self)@.len(), line@.len()) {
                Err(ReadFailure::SizeExceeded)
            } else {
                Ok(())
            }),
            r.is_ok() ==> final(self)@ == old(self)@ + line@,
            r.is_err() ==> final(self)@ == old(self)@,
    {
        if line.len() > MAX_FILE_SIZE_BYTES as usize - self.bytes.len() {
            return Err(ReadFailure::SizeExceeded);
        }
        let ghost start = self.bytes@;
        let mut i: usize = 0;
        while i < line.len()
            invariant
                i <= line@.len(),
                start.len() + line@.len() <= MAX_FILE_SIZE_BYTES,
                self.bytes@ == start + line@.subrange(0, i as int),
            decreases line@.len() - i,
        {
            self.bytes.push(line[i]);
            i = i + 1;
            assert(self.bytes@ == start + line@.subrange(0, i as int));
        }
        assert(line@.subrange(0, line@.len() as int) == line@);
        Ok(())
    }

    /// The text read, where the bytes are valid UTF-8.
    pub fn finish(self) -> (r: Result<String, ReadFailure>)
        ensures
            r.is_ok() == utf8_decode(self@).is_some(),
            r.is_ok() ==> r.unwrap()@ == utf8_decode(self@).unwrap(),
            r.is_err() ==> r == Err::<String, ReadFailure>(ReadFailure::InvalidUtf8),
            (forall|i: int| 0 <= i < self@.len() ==> self@[i] < 128u8) ==> r.is_ok(),
    {
        match decode_utf8(self.bytes.as_slice()) {
            Some(s) => Ok(s),
            None => Err(ReadFailure::InvalidUtf8),
        }
    }
}

} // verus!
