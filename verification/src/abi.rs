//! ABI marker types.
//!
//! A runtime is tagged with the calling-convention family it implements.
//! Concrete calling-convention layers are outside this crate; the mock
//! runtime, which never transfers control to real foreign code, uses the
//! generic marker.

use vstd::prelude::*;

verus! {

/// Marker trait for calling-convention families.
pub trait OGABI {
}

/// For mock implementations, which have no ABI constraints: a pure type
/// tag that cannot be constructed outside this module.
pub struct GenericABI {
    _private: (),
}

impl OGABI for GenericABI {

}

} // verus!
