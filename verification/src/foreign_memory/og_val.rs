//! [`OGVal`]: a reference whose pointee is known to hold a legal value.
//!
//! An `OGVal` is produced by validating or writing through one of the
//! reference types; it carries the validated host value itself, the address
//! it was read from or written to, and the imprint of its runtime instance,
//! so it can be turned back into a reference.

use vstd::prelude::*;

use crate::bit_pattern_validate::BitPatternValidate;
use crate::id::OGID;

use super::og_mut_ref::OGMutRef;
use super::og_ref::OGRef;

verus! {

/// A validated value read out of (or just written into) foreign memory at a
/// known address of a known runtime instance.
pub struct OGVal<ID: OGID, T: BitPatternValidate> {
    pub(crate) value: T,
    pub(crate) addr: usize,
    pub(crate) id_imprint: ID::Imprint,
}

impl<ID: OGID, T: BitPatternValidate> OGVal<ID, T> {
    /// The validated value.
    pub closed spec fn value_spec(&self) -> T {
        self.value
    }

    /// The address of the foreign memory this value was read from.
    pub closed spec fn addr_spec(&self) -> int {
        self.addr as int
    }

    /// The imprint of the runtime instance this value belongs to.
    pub closed spec fn id_imprint_spec(&self) -> ID::Imprint {
        self.id_imprint
    }

    pub(crate) fn new(value: T, addr: usize, id_imprint: ID::Imprint) -> (r: Self)
        ensures
            r.value_spec() == value,
            r.addr_spec() == addr as int,
            r.id_imprint_spec() == id_imprint,
    {
        OGVal { value, addr, id_imprint }
    }

    /// Return the imprint of the runtime instance this value belongs to.
    pub fn id_imprint(&self) -> (r: ID::Imprint)
        ensures
            r == self.id_imprint_spec(),
    {
        self.id_imprint
    }

    /// Borrow the validated value.
    pub fn value(&self) -> (r: &T)
        ensures
            *r == self.value_spec(),
    {
        &self.value
    }

    /// Take the validated value out; host-owned, it may freely escape any
    /// scope.
    pub fn into_value(self) -> (r: T)
        ensures
            r == self.value_spec(),
    {
        self.value
    }

    /// Step back down to an untrusted shared reference to the same address.
    pub fn as_ref(&self) -> (r: OGRef<ID, T>)
        ensures
            r.addr_spec() == self.addr_spec(),
            r.id_imprint_spec() == self.id_imprint_spec(),
    {
        OGRef::new_at(self.addr, self.id_imprint)
    }

    /// Step back down to an untrusted mutable reference to the same address.
    pub fn as_mut(&self) -> (r: OGMutRef<ID, T>)
        ensures
            r.addr_spec() == self.addr_spec(),
            r.id_imprint_spec() == self.id_imprint_spec(),
    {
        OGMutRef::new_at(self.addr, self.id_imprint)
    }
}

} // verus!
