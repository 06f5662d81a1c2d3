//! Reading a message front to back, with the name of each field at hand.

use vstd::prelude::*;
use crate::error::VncError;
use crate::wire::{read_be16, read_be32};

verus! {

/// The `count` bytes at `at`, which are the named field.
pub open spec fn bytes_at(bytes: Seq<u8>, at: int, count: int, field: &'static str) -> Result<
    Seq<u8>,
    VncError,
> {
    if at + count > usize::MAX {
        Err(VncError::Role { role: field, after: " 长度溢出" })
    } else if at + count > bytes.len() {
        Err(VncError::Role { role: field, after: " 截断" })
    } else {
        Ok(bytes.subrange(at, at + count))
    }
}

/// The two bytes at `at` as a number.
pub open spec fn u16_at(bytes: Seq<u8>, at: int, field: &'static str) -> Result<u16, VncError> {
    match bytes_at(bytes, at, 2, field) {
        Err(e) => Err(e),
        Ok(_) => Ok(crate::wire::be16(bytes, at)),
    }
}

/// The four bytes at `at` as a number.
pub open spec fn u32_at(bytes: Seq<u8>, at: int, field: &'static str) -> Result<u32, VncError> {
    match bytes_at(bytes, at, 4, field) {
        Err(e) => Err(e),
        Ok(_) => Ok(crate::wire::be32(bytes, at)),
    }
}

/// Bytes, and how many of them have been read.
pub struct WireCursor<'a> {
    pub bytes: &'a [u8],
    pub position: usize,
}

impl<'a> WireCursor<'a> {
    /// The position is not past the end.
    pub open spec fn wf(self) -> bool {
        self.position <= self.bytes@.len()
    }

    /// Nothing has been read.
    pub fn new(bytes: &'a [u8]) -> (r: Self)
        ensures
            r.wf(),
            r.bytes == bytes,
            r.position == 0,
    {
        WireCursor { bytes, position: 0 }
    }

    /// The number of bytes that are left.
    pub fn remaining(&self) -> (r: usize)
        requires
            self.wf(),
        ensures
            r == self.bytes@.len() - self.position,
    {
        self.bytes.len() - self.position
    }

    /// The bytes that are left.
    pub fn remaining_bytes(&self) -> (r: &'a [u8])
        requires
            self.wf(),
        ensures
            r@ == self.bytes@.skip(self.position as int),
    {
        let rest = vstd::slice::slice_subrange(self.bytes, self.position, self.bytes.len());
        assert(rest@ =~= self.bytes@.skip(self.position as int));
        rest
    }

    /// Reads `count` bytes. A refusal reads nothing.
    pub fn take(&mut self, count: usize, field: &'static str) -> (r: Result<&'a [u8], VncError>)
        requires
            old(self).wf(),
        ensures
            final(self).wf(),
            final(self).bytes == old(self).bytes,
            match bytes_at(old(self).bytes@, old(self).position as int, count as int, field) {
                Ok(s) => r matches Ok(v) && v@ == s && final(self).position == old(self).position
                    + count,
                Err(e) => r == Err::<&'a [u8], VncError>(e) && final(self).position == old(
                    self,
                ).position,
            },
    {
        let end: usize = match self.position.checked_add(count) {
            Some(end) => end,
            None => {
                return Err(VncError::Role { role: field, after: " 长度溢出" });
            },
        };
        if end > self.bytes.len() {
            return Err(VncError::Role { role: field, after: " 截断" });
        }
        let value = vstd::slice::slice_subrange(self.bytes, self.position, end);
        self.position = end;
        Ok(value)
    }

    /// Reads two bytes as a number. A refusal reads nothing.
    pub fn read_u16(&mut self, field: &'static str) -> (r: Result<u16, VncError>)
        requires
            old(self).wf(),
        ensures
            final(self).wf(),
            final(self).bytes == old(self).bytes,
            r == u16_at(old(self).bytes@, old(self).position as int, field),
            final(self).position == old(self).position + (if r is Ok {
                2int
            } else {
                0
            }),
    {
        let start: usize = self.position;
        let _field = self.take(2, field)?;
        Ok(read_be16(self.bytes, start))
    }

    /// Reads four bytes as a number. A refusal reads nothing.
    pub fn read_u32(&mut self, field: &'static str) -> (r: Result<u32, VncError>)
        requires
            old(self).wf(),
        ensures
            final(self).wf(),
            final(self).bytes == old(self).bytes,
            r == u32_at(old(self).bytes@, old(self).position as int, field),
            final(self).position == old(self).position + (if r is Ok {
                4int
            } else {
                0
            }),
    {
        let start: usize = self.position;
        let _field = self.take(4, field)?;
        Ok(read_be32(self.bytes, start))
    }
}

/// Whether all bytes are zero.
pub open spec fn all_zero(bytes: Seq<u8>) -> bool {
    forall|i: int| 0 <= i < bytes.len() ==> bytes[i] == 0
}

/// Whether all bytes are zero.
pub fn is_all_zero(bytes: &[u8]) -> (r: bool)
    ensures
        r == all_zero(bytes@),
{
    let mut i: usize = 0;
    while i < bytes.len()
        invariant
            i <= bytes@.len(),
            forall|k: int| 0 <= k < i ==> bytes@[k] == 0,
        decreases bytes@.len() - i,
    {
        if bytes[i] != 0 {
            return false;
        }
        i = i + 1;
    }
    true
}

} // verus!
