//! Host-side safety layer for exchanging data with untrusted foreign code.
//!
//! Every pointer that crosses the trust boundary is wrapped in a reference
//! type carrying the imprint of the runtime instance it belongs to, every
//! dereference is gated by a scope capability, and every value read back is
//! validated against its type's legal bit patterns before the host may treat
//! it as a value of that type.
//!
//! Foreign memory is represented explicitly as a byte arena owned by the
//! [`AccessScope`](markers::AccessScope) capability, so that the borrow
//! discipline on the scope is exactly the discipline on foreign memory
//! accesses, and addresses are plain offsets into that arena.

use vstd::prelude::*;

pub mod alloc_tracker;
pub mod bit_pattern_validate;
pub mod foreign_memory;
pub mod id;
pub mod abi;
pub mod markers;
pub mod maybe_valid;
pub mod rt;

verus! {

/// Shared error type for all fallible runtime operations.
#[derive(Clone, Debug, Eq, PartialEq, Structural)]
pub enum OGError {
    /// An internal error occurred.
    InternalError,

    /// The runtime could not allocate sufficient memory for the requested
    /// operation.
    AllocNoMem,

    /// The requested operation requires an allocation with an invalid layout
    /// (such as an alignment that is zero or not a power of two).
    AllocInvalidLayout,

    /// The runtime could not register the callback due to an insufficient
    /// number of callback slots.
    SetupCallbackInsufficientSlots,

    /// The operation could not be completed, as there is a mismatch between
    /// the IDs of different runtime components.
    ///
    /// Most likely, a supplied `AllocScope` or `AccessScope` marker belongs
    /// to a different runtime instance. Marker types must always be used
    /// with the exact instance alongside which they were created.
    IDMismatch,

    /// A stack overflow occurred in the foreign library.
    StackOverflow,

    /// The runtime failed to find a symbol to be exposed by the foreign
    /// library.
    SymbolNotFound,
}

pub type OGResult<T> = Result<T, OGError>;

} // verus!
