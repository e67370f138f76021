//! [`OGRef`]: a shared reference into allocated, readable foreign memory
//! with the size and alignment of a type `T`.
//!
//! The referenced memory may or may not hold a legal value of `T`: it can be
//! aliased by other references into foreign memory, and foreign code may
//! rewrite it whenever it runs. Reading it back as a `T` therefore goes
//! through validation against an [`AccessScope`] of the same instance.

use vstd::prelude::*;

use core::marker::PhantomData;

use crate::alloc_tracker::AllocTracker;
use crate::bit_pattern_validate::{AlwaysValid, BitPatternValidate};
use crate::id::OGID;
use crate::markers::{AccessScope, AllocScope};

use super::og_copy::OGCopy;
use super::og_val::OGVal;
use super::region_bytes;
use super::sub_ref_check;
use super::sub_ref_check_spec;

verus! {

/// A shared reference into a region of allocated, readable foreign memory
/// with size and alignment of type `T`, bound to the runtime instance whose
/// imprint it carries.
pub struct OGRef<ID: OGID, T: BitPatternValidate> {
    pub(crate) addr: usize,
    pub(crate) id_imprint: ID::Imprint,
    pub(crate) _type: PhantomData<T>,
}

impl<ID: OGID, T: BitPatternValidate> Clone for OGRef<ID, T> {
    fn clone(&self) -> (r: Self)
        ensures
            r == *self,
    {
        OGRef { addr: self.addr, id_imprint: self.id_imprint, _type: PhantomData }
    }
}

impl<ID: OGID, T: BitPatternValidate> Copy for OGRef<ID, T> {}

impl<ID: OGID, T: BitPatternValidate> OGRef<ID, T> {
    /// The address this reference points at.
    pub closed spec fn addr_spec(&self) -> int {
        self.addr as int
    }

    /// The imprint of the runtime instance this reference belongs to.
    pub closed spec fn id_imprint_spec(&self) -> ID::Imprint {
        self.id_imprint
    }

    /// Whether the referenced region lies within a foreign memory of
    /// `mem_len` bytes.
    pub open spec fn region_in(&self, mem_len: int) -> bool {
        self.addr_spec() + T::size_spec() <= mem_len
    }

    pub(crate) fn new_at(addr: usize, id_imprint: ID::Imprint) -> (r: Self)
        ensures
            r.addr_spec() == addr as int,
            r.id_imprint_spec() == id_imprint,
    {
        OGRef { addr, id_imprint, _type: PhantomData }
    }

    /// Create an `OGRef` from a raw address within an [`AllocScope`].
    ///
    /// Returns a reference exactly when the address is aligned for `T` and
    /// the scope's tracker reports the region of `T`'s size at that address
    /// as allocated and readable; the reference then carries the scope's
    /// imprint and lies within the tracker's bound.
    pub fn upgrade_from_ptr<R: AllocTracker>(ptr: usize, alloc_scope: &AllocScope<R, ID>) -> (r:
        Option<Self>)
        ensures
            (r is Some) <==> (ptr as int % T::align_spec() as int == 0
                && alloc_scope.tracker_spec().valid_spec(ptr as int, T::size_spec() as int)),
            r matches Some(og) ==> og.addr_spec() == ptr as int && og.id_imprint_spec()
                == alloc_scope.id_imprint_spec() && og.region_in(
                alloc_scope.tracker_spec().bound_spec(),
            ) && og.addr_spec() + T::size_spec() <= usize::MAX,
    {
        proof {
            T::lemma_align();
        }
        let size = T::size_of();
        let align = T::align_of();
        if ptr % align == 0 && alloc_scope.tracker().is_valid(ptr, size) {
            proof {
                let tr = alloc_scope.tracker_spec();
                tr.lemma_valid_in_bounds(ptr as int, size as int);
                tr.lemma_bound_fits();
            }
            Some(OGRef { addr: ptr, id_imprint: alloc_scope.id_imprint(), _type: PhantomData })
        } else {
            None
        }
    }

    /// Return the raw address of this reference's pointee.
    pub fn as_ptr(&self) -> (r: usize)
        ensures
            r as int == self.addr_spec(),
    {
        self.addr
    }

    /// Create an owned, still-unvalidated copy of this reference's
    /// underlying memory.
    ///
    /// Takes a shared `AccessScope` borrow: neither host nor foreign code
    /// can modify foreign memory during the copy.
    pub fn copy(&self, access_scope: &AccessScope<ID>) -> (r: OGCopy<T>)
        requires
            self.id_imprint_spec() == access_scope.id_imprint_spec(),
            self.region_in(access_scope.mem_spec().len() as int),
        ensures
            r.wf(),
            r.bytes_spec() == region_bytes(access_scope.mem_spec(), self.addr_spec(),
            T::size_spec()),
    {
        let size = T::size_of();
        let bytes = access_scope.read_bytes(self.addr, size);
        OGCopy::from_bytes(bytes.as_slice())
    }

    /// Validate the current contents of this reference's memory as a value
    /// of type `T`.
    ///
    /// Takes a shared `AccessScope` borrow, ensuring the memory is not
    /// concurrently modified. Returns the decoded value exactly when the
    /// current bytes form a legal pattern of `T`; returns `None` otherwise,
    /// an ordinary outcome meaning foreign code produced garbage.
    pub fn validate(&self, access_scope: &AccessScope<ID>) -> (r: Option<OGVal<ID, T>>)
        requires
            self.id_imprint_spec() == access_scope.id_imprint_spec(),
            self.region_in(access_scope.mem_spec().len() as int),
        ensures
            (r is Some) <==> T::valid_pattern(
                region_bytes(access_scope.mem_spec(), self.addr_spec(), T::size_spec()),
            ),
            r matches Some(v) ==> v.value_spec() == T::decode_spec(
                region_bytes(access_scope.mem_spec(), self.addr_spec(), T::size_spec()),
            ) && v.addr_spec() == self.addr_spec() && v.id_imprint_spec()
                == self.id_imprint_spec(),
    {
        let size = T::size_of();
        let bytes = access_scope.read_bytes(self.addr, size);
        if T::validate(bytes.as_slice()) {
            let value = T::decode(bytes.as_slice());
            Some(OGVal::new(value, self.addr, self.id_imprint))
        } else {
            None
        }
    }

    /// Create a sub-reference to a value of type `U` at `byte_offset`
    /// within this reference.
    ///
    /// Succeeds exactly when a value of `U`'s size fits at that offset
    /// within `T` and `U`'s alignment divides both `T`'s alignment and the
    /// offset; the checks are static and offset-based, never inspecting the
    /// actual address, so they hold for every placement of `T`.
    pub fn sub_ref<U: BitPatternValidate>(self, byte_offset: usize) -> (r: Option<OGRef<ID, U>>)
        requires
            self.addr_spec() + T::size_spec() <= usize::MAX,
        ensures
            (r is Some) <==> sub_ref_check_spec::<T, U>(byte_offset as int),
            r matches Some(og) ==> og.addr_spec() == self.addr_spec() + byte_offset
                && og.id_imprint_spec() == self.id_imprint_spec(),
    {
        if sub_ref_check::<T, U>(byte_offset) {
            Some(
                OGRef {
                    addr: self.addr + byte_offset,
                    id_imprint: self.id_imprint,
                    _type: PhantomData,
                },
            )
        } else {
            None
        }
    }
}

impl<ID: OGID, T: AlwaysValid> OGRef<ID, T> {
    /// Read this reference's memory as a value of type `T`, without
    /// inspecting its bytes.
    ///
    /// For types where every bit pattern is legal, validation cannot fail,
    /// so this conversion is infallible.
    pub fn valid(&self, access_scope: &AccessScope<ID>) -> (r: OGVal<ID, T>)
        requires
            self.id_imprint_spec() == access_scope.id_imprint_spec(),
            self.region_in(access_scope.mem_spec().len() as int),
        ensures
            r.value_spec() == T::decode_spec(
                region_bytes(access_scope.mem_spec(), self.addr_spec(), T::size_spec()),
            ),
            r.addr_spec() == self.addr_spec(),
            r.id_imprint_spec() == self.id_imprint_spec(),
    {
        proof {
            T::lemma_always_valid(
                region_bytes(access_scope.mem_spec(), self.addr_spec(), T::size_spec()),
            );
        }
        let size = T::size_of();
        let bytes = access_scope.read_bytes(self.addr, size);
        let value = T::decode(bytes.as_slice());
        OGVal::new(value, self.addr, self.id_imprint)
    }
}

} // verus!
