//! Packed guest-memory pointers.
//!
//! Host functions that hand variable-length bytes back to a guest return a
//! single `u64` that packs a 32-bit offset into the guest's linear memory
//! together with a 32-bit length. The offset travels in the low half and
//! the length in the high half.

use vstd::prelude::*;

verus! {

/// A pointer into guest linear memory: an offset and the length of the
/// buffer that starts there.
#[derive(Clone, Copy, Debug, PartialEq, Eq, Structural)]
pub struct Ptr {
    pub ptr: u32,
    pub size: u32,
}

/// The `u64` wire form of a pointer: offset in the low 32 bits, length in
/// the high 32 bits.
pub open spec fn spec_pack(ptr: u32, size: u32) -> u64 {
    (ptr as u64) | ((size as u64) << 32)
}

impl Ptr {
    /// Pack the pointer into its `u64` wire form.
    pub fn pack(self) -> (r: u64)
        ensures
            r == spec_pack(self.ptr, self.size),
    {
        (self.ptr as u64) | ((self.size as u64) << 32)
    }

    /// Recover a pointer from its `u64` wire form.
    pub fn unpack(value: u64) -> (r: Ptr)
        ensures
            r.ptr == value & 0xffff_ffff,
            r.size == value >> 32,
            spec_pack(r.ptr, r.size) == value,
    {
        proof {
            assert(value & 0xffff_ffff <= 0xffff_ffffu64) by (bit_vector);
            assert(value >> 32 <= 0xffff_ffffu64) by (bit_vector);
        }
        let ptr = (value & 0xffff_ffff) as u32;
        let size = (value >> 32) as u32;
        proof {
            assert(spec_pack((value & 0xffff_ffff) as u32, (value >> 32) as u32) == value)
                by (bit_vector);
        }
        Ptr { ptr, size }
    }
}

/// Packing then unpacking a pointer gives the pointer back: the two halves
/// of the `u64` never interfere.
pub proof fn lemma_pack_unpack(ptr: u32, size: u32)
    ensures
        spec_pack(ptr, size) & 0xffff_ffff == ptr,
        spec_pack(ptr, size) >> 32 == size,
{
    assert(((ptr as u64) | ((size as u64) << 32)) & 0xffff_ffff == ptr) by (bit_vector);
    assert(((ptr as u64) | ((size as u64) << 32)) >> 32 == size) by (bit_vector);
}

} // verus!
