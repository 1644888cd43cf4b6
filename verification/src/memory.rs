//! Guest memory bridge.
//!
//! Every ABI host call crosses the guest's linear memory exactly here: the
//! host copies argument bytes out with [`GuestMemory::read`] and hands
//! result bytes back with [`GuestMemory::write_back`], at an offset the
//! guest's own allocator chose. The host never frees guest memory, and no
//! reference into it outlives a call; both operations copy.
//!
//! The embedder owns the actual linear memory and presents it to this
//! module as a byte vector.

use vstd::prelude::*;

use crate::error::AbiError;
use crate::ptr::Ptr;

verus! {

/// A guest instance's linear memory, as the bridge sees it: a flat byte
/// array. Offsets and lengths at the ABI are 32 bits wide.
pub struct GuestMemory {
    pub data: Vec<u8>,
}

impl GuestMemory {
    /// Wrap a byte array as guest memory.
    pub fn new(data: Vec<u8>) -> (r: GuestMemory)
        ensures
            r.data@ == data@,
    {
        GuestMemory { data }
    }

    /// The bytes `[ptr, ptr + len)` of guest memory, copied out.
    ///
    /// Succeeds exactly when the whole range lies inside the memory;
    /// otherwise the guest handed over a bad pointer and the call traps.
    pub fn read(&self, ptr: u32, len: u32) -> (r: Result<Vec<u8>, AbiError>)
        ensures
            match r {
                Ok(b) => {
                    &&& ptr + len <= self.data@.len()
                    &&& b@ == self.data@.subrange(ptr as int, ptr as int + len as int)
                },
                Err(e) => {
                    &&& e == AbiError::BadPointer
                    &&& ptr + len > self.data@.len()
                },
            },
    {
        if (ptr as u64) + (len as u64) > self.data.len() as u64 {
            return Err(AbiError::BadPointer);
        }
        let mut out: Vec<u8> = Vec::new();
        let mut i: usize = 0;
        while i < len as usize
            invariant
                i <= len,
                ptr + len <= self.data@.len(),
                self.data@.len() <= usize::MAX,
                out@ == self.data@.subrange(ptr as int, ptr as int + i as int),
            decreases len as int - i as int,
        {
            out.push(self.data[ptr as usize + i]);
            proof {
                assert(out@ =~= self.data@.subrange(ptr as int, ptr as int + (i + 1) as int));
            }
            i = i + 1;
        }
        Ok(out)
    }

    /// Write `bytes` into guest memory at the offset the guest's allocator
    /// returned, and pack the resulting pointer.
    ///
    /// An allocator answer of zero means the guest is out of memory: the
    /// call traps with `AllocatorReturnedZero` and no byte of guest memory
    /// is touched. An answer that does not leave room for `bytes` inside
    /// the memory traps with `BadPointer`, again without a partial write.
    pub fn write_back(&mut self, alloc_offset: u32, bytes: &Vec<u8>) -> (r: Result<
        Ptr,
        AbiError,
    >)
        requires
            bytes@.len() <= u32::MAX,
        ensures
            match r {
                Ok(p) => {
                    &&& alloc_offset != 0
                    &&& alloc_offset + bytes@.len() <= old(self).data@.len()
                    &&& p == (Ptr { ptr: alloc_offset, size: bytes@.len() as u32 })
                    &&& final(self).data@ == old(self).data@.subrange(0, alloc_offset as int)
                        + bytes@ + old(self).data@.subrange(
                        alloc_offset as int + bytes@.len() as int,
                        old(self).data@.len() as int,
                    )
                    &&& final(self).data@.subrange(
                        alloc_offset as int,
                        alloc_offset as int + bytes@.len() as int,
                    ) == bytes@
                },
                Err(e) => {
                    &&& final(self).data@ == old(self).data@
                    &&& (e == AbiError::AllocatorReturnedZero <==> alloc_offset == 0)
                    &&& (e == AbiError::BadPointer <==> (alloc_offset != 0 && alloc_offset
                        + bytes@.len() > old(self).data@.len()))
                    &&& (e == AbiError::AllocatorReturnedZero || e == AbiError::BadPointer)
                },
            },
    {
        if alloc_offset == 0 {
            return Err(AbiError::AllocatorReturnedZero);
        }
        if (alloc_offset as u64) + (bytes.len() as u64) > self.data.len() as u64 {
            return Err(AbiError::BadPointer);
        }
        let off = alloc_offset as usize;
        let mut i: usize = 0;
        while i < bytes.len()
            invariant
                i <= bytes@.len(),
                off == alloc_offset,
                alloc_offset != 0,
                off + bytes@.len() <= self.data@.len(),
                self.data@.len() <= usize::MAX,
                self.data@.len() == old(self).data@.len(),
                forall|j: int| 0 <= j < off ==> self.data@[j] == old(self).data@[j],
                forall|j: int|
                    off <= j < off + i ==> self.data@[j] == bytes@[j - off],
                forall|j: int|
                    off + i <= j < self.data@.len() ==> self.data@[j] == old(self).data@[j],
            decreases bytes@.len() - i as int,
        {
            let b = bytes[i];
            self.data.set(off + i, b);
            i = i + 1;
        }
        proof {
            assert(self.data@ =~= old(self).data@.subrange(0, alloc_offset as int) + bytes@
                + old(self).data@.subrange(
                alloc_offset as int + bytes@.len() as int,
                old(self).data@.len() as int,
            ));
            assert(self.data@.subrange(
                alloc_offset as int,
                alloc_offset as int + bytes@.len() as int,
            ) =~= bytes@);
        }
        Ok(Ptr { ptr: alloc_offset, size: bytes.len() as u32 })
    }
}

/// Reading back the range a successful `write_back` filled yields exactly
/// the bytes that were handed to `write_back`, byte for byte.
pub proof fn lemma_write_back_read_back(
    before: Seq<u8>,
    after: Seq<u8>,
    offset: int,
    bytes: Seq<u8>,
)
    requires
        0 <= offset,
        offset + bytes.len() <= before.len(),
        after == before.subrange(0, offset) + bytes + before.subrange(
            offset + bytes.len(),
            before.len() as int,
        ),
    ensures
        after.subrange(offset, offset + bytes.len()) == bytes,
{
    assert(after.subrange(offset, offset + bytes.len()) =~= bytes);
}

} // verus!
