//! The foreign memory reference family.
//!
//! Typed views over foreign memory with varying guarantees: aligned and in
//! bounds ([`og_ref::OGRef`], [`og_mut_ref::OGMutRef`], [`og_slice::OGSlice`],
//! [`og_mut_slice::OGMutSlice`]), owned snapshot ([`og_copy::OGCopy`]),
//! known-valid contents ([`og_val::OGVal`], [`og_slice_val::OGSliceVal`]),
//! and values handed back by foreign calls ([`og_ret::OGRet`]).
//!
//! Every reference carries the imprint of the runtime instance it was
//! created under, and every privileged operation demands a scope with that
//! same imprint: here that equality stands in the operations' `requires`,
//! so presenting a scope of another instance is rejected when the caller is
//! verified — the static analog of a fatal abort on host misuse, which a
//! library of verified, non-panicking functions cannot express at run
//! time. The runtime entry points, whose scopes arrive at run time, compare
//! imprints dynamically instead and fail with
//! [`IDMismatch`](crate::OGError::IDMismatch).

use vstd::prelude::*;

use crate::bit_pattern_validate::BitPatternValidate;

pub mod og_copy;
pub mod og_mut_ref;
pub mod og_mut_slice;
pub mod og_ref;
pub mod og_ret;
pub mod og_slice;
pub mod og_slice_val;
pub mod og_val;

verus! {

/// The bytes of foreign memory `mem` in the range `[addr, addr + size)`.
pub open spec fn region_bytes(mem: Seq<u8>, addr: int, size: nat) -> Seq<u8> {
    mem.subrange(addr, addr + size)
}

/// Whether a value of type `U` at `byte_offset` inside a value of type `T`
/// fits and is well-aligned for every possible placement of `T`.
///
/// The alignment condition asks that `U`'s alignment divide the greatest
/// power of two dividing both `T`'s alignment and the offset; for
/// power-of-two alignments, that is exactly that `U`'s alignment divide both
/// of them.
pub open spec fn sub_ref_check_spec<T: BitPatternValidate, U: BitPatternValidate>(
    byte_offset: int,
) -> bool {
    &&& byte_offset + U::size_spec() <= T::size_spec()
    &&& T::align_spec() as int % U::align_spec() as int == 0
    &&& byte_offset % U::align_spec() as int == 0
}

/// Decide whether a sub-reference of type `U` at `byte_offset` within a
/// value of type `T` fits within `T` and is well-aligned.
///
/// The check is deliberately static and offset-based, never inspecting an
/// actual address, so it is conservative for every placement of `T`: an
/// over-aligned `U` is rejected even at offsets where some placements would
/// happen to align.
pub fn sub_ref_check<T: BitPatternValidate, U: BitPatternValidate>(byte_offset: usize) -> (r:
    bool)
    ensures
        r == sub_ref_check_spec::<T, U>(byte_offset as int),
{
    proof {
        U::lemma_align();
    }
    let t_size = T::size_of();
    let t_align = T::align_of();
    let u_size = U::size_of();
    let u_align = U::align_of();
    // First, ensure that an element of type `U` at `byte_offset` fits
    // within `T`.
    let end = match byte_offset.checked_add(u_size) {
        Some(e) => e,
        None => {
            // Overflow computing the end: cannot fit within any `T`, whose
            // size is a representable number.
            return false;
        },
    };
    if end > t_size {
        return false;
    }
    // Now check that a value of type `U` at `byte_offset` within a value of
    // type `T` is well-aligned wherever that `T` may be placed: `U`'s
    // alignment must divide both `T`'s alignment and the offset.
    if t_align % u_align != 0 {
        return false;
    }
    if byte_offset % u_align != 0 {
        return false;
    }
    true
}

} // verus!
