//! The [`AllocTracker`] trait: a predicate object deciding whether a byte
//! range of foreign memory is currently known-allocated.
//!
//! The tracker is consulted exactly when a raw address is upgraded into a
//! reference, and it must be conservative: reporting a range as valid is a
//! safety claim, so an implementation must never report a range unless that
//! range is presently allocated (and, for the mutable variant, writable by
//! the host). A false negative only degrades availability.

use vstd::prelude::*;

verus! {

/// A capability answering whether a byte range is currently known-allocated
/// (and, for the mutable variant, known-writable) within one foreign
/// instance. The concrete shape is backend-defined.
pub trait AllocTracker: Sized {
    /// Whether the range `[ptr, ptr + len)` is known-allocated and readable.
    spec fn valid_spec(&self, ptr: int, len: int) -> bool;

    /// Whether the range `[ptr, ptr + len)` is known-allocated and writable.
    spec fn valid_mut_spec(&self, ptr: int, len: int) -> bool;

    /// The size of the foreign memory this tracker speaks about: every range
    /// it reports as valid lies within `[0, bound_spec())`.
    spec fn bound_spec(&self) -> int;

    /// Every valid range lies within the tracker's bound.
    proof fn lemma_valid_in_bounds(&self, ptr: int, len: int)
        requires
            self.valid_spec(ptr, len) || self.valid_mut_spec(ptr, len),
        ensures
            0 <= ptr,
            ptr + len <= self.bound_spec(),
    ;

    /// The bound is a byte count of real memory, so it is representable.
    proof fn lemma_bound_fits(&self)
        ensures
            self.bound_spec() <= usize::MAX,
    ;

    /// A range known-writable is also known-readable.
    proof fn lemma_mut_implies_valid(&self, ptr: int, len: int)
        requires
            self.valid_mut_spec(ptr, len),
        ensures
            self.valid_spec(ptr, len),
    ;

    /// Decide whether the range `[ptr, ptr + len)` is known-allocated and
    /// readable.
    fn is_valid(&self, ptr: usize, len: usize) -> (r: bool)
        ensures
            r == self.valid_spec(ptr as int, len as int),
    ;

    /// Decide whether the range `[ptr, ptr + len)` is known-allocated and
    /// writable.
    fn is_valid_mut(&self, ptr: usize, len: usize) -> (r: bool)
        ensures
            r == self.valid_mut_spec(ptr as int, len as int),
    ;
}

} // verus!
