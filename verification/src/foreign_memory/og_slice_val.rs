//! [`OGSliceVal`]: a slice of foreign memory whose elements are all known
//! to hold legal values.
//!
//! Produced by validating or filling an
//! [`OGSlice`](super::og_slice::OGSlice) or
//! [`OGMutSlice`](super::og_mut_slice::OGMutSlice); it carries the
//! validated host values, the base address, and the imprint of its runtime
//! instance.

use vstd::prelude::*;

use crate::bit_pattern_validate::BitPatternValidate;
use crate::id::OGID;

verus! {

/// The validated values of a slice of foreign memory of a known runtime
/// instance.
pub struct OGSliceVal<ID: OGID, T: BitPatternValidate> {
    pub(crate) values: Vec<T>,
    pub(crate) addr: usize,
    pub(crate) id_imprint: ID::Imprint,
}

impl<ID: OGID, T: BitPatternValidate> OGSliceVal<ID, T> {
    /// The validated values, element by element.
    pub closed spec fn values_spec(&self) -> Seq<T> {
        self.values@
    }

    /// The base address of the foreign memory these values were read from.
    pub closed spec fn addr_spec(&self) -> int {
        self.addr as int
    }

    /// The imprint of the runtime instance this slice belongs to.
    pub closed spec fn id_imprint_spec(&self) -> ID::Imprint {
        self.id_imprint
    }

    pub(crate) fn new(values: Vec<T>, addr: usize, id_imprint: ID::Imprint) -> (r: Self)
        ensures
            r.values_spec() == values@,
            r.addr_spec() == addr as int,
            r.id_imprint_spec() == id_imprint,
    {
        OGSliceVal { values, addr, id_imprint }
    }

    /// Return the imprint of the runtime instance this slice belongs to.
    pub fn id_imprint(&self) -> (r: ID::Imprint)
        ensures
            r == self.id_imprint_spec(),
    {
        self.id_imprint
    }

    /// The number of elements.
    pub fn len(&self) -> (r: usize)
        ensures
            r == self.values_spec().len(),
    {
        self.values.len()
    }

    /// Borrow the validated values.
    pub fn values(&self) -> (r: &Vec<T>)
        ensures
            r@ == self.values_spec(),
    {
        &self.values
    }

    /// Take the validated values out; host-owned, they may freely escape
    /// any scope.
    pub fn into_values(self) -> (r: Vec<T>)
        ensures
            r@ == self.values_spec(),
    {
        self.values
    }
}

} // verus!
