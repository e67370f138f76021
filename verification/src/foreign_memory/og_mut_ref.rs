//! [`OGMutRef`]: a reference into allocated, readable and writable foreign
//! memory with the size and alignment of a type `T`.
//!
//! Like [`OGRef`](super::og_ref::OGRef), but additionally writable: write
//! operations take a unique `AccessScope` borrow, closing every outstanding
//! readable view of foreign memory, and hand back an
//! [`OGVal`](super::og_val::OGVal) — the host just wrote a legal value, so
//! it may immediately treat the memory as valid without re-validating.

use vstd::prelude::*;

use core::marker::PhantomData;

use crate::alloc_tracker::AllocTracker;
use crate::bit_pattern_validate::{AlwaysValid, BitPatternValidate};
use crate::id::OGID;
use crate::markers::{AccessScope, AllocScope};

use super::og_copy::OGCopy;
use super::og_ref::OGRef;
use super::og_val::OGVal;
use super::region_bytes;
use super::sub_ref_check;
use super::sub_ref_check_spec;

verus! {

/// A reference into a region of allocated, readable and writable foreign
/// memory with size and alignment of type `T`, bound to the runtime
/// instance whose imprint it carries.
pub struct OGMutRef<ID: OGID, T: BitPatternValidate> {
    pub(crate) addr: usize,
    pub(crate) id_imprint: ID::Imprint,
    pub(crate) _type: PhantomData<T>,
}

impl<ID: OGID, T: BitPatternValidate> Clone for OGMutRef<ID, T> {
    fn clone(&self) -> (r: Self)
        ensures
            r == *self,
    {
        OGMutRef { addr: self.addr, id_imprint: self.id_imprint, _type: PhantomData }
    }
}

impl<ID: OGID, T: BitPatternValidate> Copy for OGMutRef<ID, T> {}

impl<ID: OGID, T: BitPatternValidate> OGMutRef<ID, T> {
    /// The address this reference points at.
    pub closed spec fn addr_spec(&self) -> int {
        self.addr as int
    }

    /// The imprint of the runtime instance this reference belongs to.
    pub closed spec fn id_imprint_spec(&self) -> ID::Imprint {
        self.id_imprint
    }

    /// Whether the referenced region lies within a foreign memory of
    /// `mem_len` bytes.
    pub open spec fn region_in(&self, mem_len: int) -> bool {
        self.addr_spec() + T::size_spec() <= mem_len
    }

    pub(crate) fn new_at(addr: usize, id_imprint: ID::Imprint) -> (r: Self)
        ensures
            r.addr_spec() == addr as int,
            r.id_imprint_spec() == id_imprint,
    {
        OGMutRef { addr, id_imprint, _type: PhantomData }
    }

    /// Create an `OGMutRef` from a raw address within an [`AllocScope`].
    ///
    /// Returns a reference exactly when the address is aligned for `T` and
    /// the scope's tracker reports the region of `T`'s size at that address
    /// as allocated and writable; the reference then carries the scope's
    /// imprint and lies within the tracker's bound.
    pub fn upgrade_from_ptr<R: AllocTracker>(ptr: usize, alloc_scope: &AllocScope<R, ID>) -> (r:
        Option<Self>)
        ensures
            (r is Some) <==> (ptr as int % T::align_spec() as int == 0
                && alloc_scope.tracker_spec().valid_mut_spec(ptr as int, T::size_spec() as int)),
            r matches Some(og) ==> og.addr_spec() == ptr as int && og.id_imprint_spec()
                == alloc_scope.id_imprint_spec() && og.region_in(
                alloc_scope.tracker_spec().bound_spec(),
            ) && og.addr_spec() + T::size_spec() <= usize::MAX,
    {
        proof {
            T::lemma_align();
        }
        let size = T::size_of();
        let align = T::align_of();
        if ptr % align == 0 && alloc_scope.tracker().is_valid_mut(ptr, size) {
            proof {
                let tr = alloc_scope.tracker_spec();
                tr.lemma_valid_in_bounds(ptr as int, size as int);
                tr.lemma_bound_fits();
            }
            Some(OGMutRef { addr: ptr, id_imprint: alloc_scope.id_imprint(), _type: PhantomData })
        } else {
            None
        }
    }

    /// Return the raw address of this reference's pointee.
    pub fn as_ptr(&self) -> (r: usize)
        ensures
            r as int == self.addr_spec(),
    {
        self.addr
    }

    /// Convert this mutable reference into an immutable [`OGRef`].
    pub fn as_immut(&self) -> (r: OGRef<ID, T>)
        ensures
            r.addr_spec() == self.addr_spec(),
            r.id_imprint_spec() == self.id_imprint_spec(),
    {
        OGRef::new_at(self.addr, self.id_imprint)
    }

    /// Write a value of type `T` to this reference.
    ///
    /// Takes a unique `AccessScope` borrow: no other host reference into
    /// foreign memory can be read or written for its duration. The region
    /// of this reference afterwards holds exactly the byte representation
    /// of `val`, the rest of foreign memory is unchanged, and the returned
    /// [`OGVal`] holds `val` itself — reading it back yields the value just
    /// written.
    pub fn write(&self, val: T, access_scope: &mut AccessScope<ID>) -> (r: OGVal<ID, T>)
        requires
            self.id_imprint_spec() == old(access_scope).id_imprint_spec(),
            self.region_in(old(access_scope).mem_spec().len() as int),
        ensures
            final(access_scope).id_imprint_spec() == old(access_scope).id_imprint_spec(),
            final(access_scope).mem_spec().len() == old(access_scope).mem_spec().len(),
            region_bytes(final(access_scope).mem_spec(), self.addr_spec(), T::size_spec())
                == T::encode_spec(val),
            forall|j: int|
                0 <= j < old(access_scope).mem_spec().len() && !(self.addr_spec() <= j
                    < self.addr_spec() + T::size_spec()) ==> final(access_scope).mem_spec()[j]
                    == old(access_scope).mem_spec()[j],
            r.value_spec() == val,
            r.addr_spec() == self.addr_spec(),
            r.id_imprint_spec() == self.id_imprint_spec(),
    {
        proof {
            T::lemma_encode_len(val);
        }
        let bytes = val.encode();
        access_scope.write_bytes(self.addr, bytes.as_slice());
        proof {
            assert(region_bytes(final(access_scope).mem_spec(), self.addr_spec(), T::size_spec())
                =~= T::encode_spec(val));
        }
        OGVal::new(val, self.addr, self.id_imprint)
    }

    /// Write the contents of an [`OGCopy`] snapshot to this reference.
    ///
    /// In contrast to [`OGMutRef::write`], no validated reference is
    /// returned: the snapshot may hold an invalid pattern for type `T`.
    pub fn write_copy(&self, copy: &OGCopy<T>, access_scope: &mut AccessScope<ID>)
        requires
            copy.wf(),
            self.id_imprint_spec() == old(access_scope).id_imprint_spec(),
            self.region_in(old(access_scope).mem_spec().len() as int),
        ensures
            final(access_scope).id_imprint_spec() == old(access_scope).id_imprint_spec(),
            final(access_scope).mem_spec().len() == old(access_scope).mem_spec().len(),
            region_bytes(final(access_scope).mem_spec(), self.addr_spec(), T::size_spec())
                == copy.bytes_spec(),
            forall|j: int|
                0 <= j < old(access_scope).mem_spec().len() && !(self.addr_spec() <= j
                    < self.addr_spec() + T::size_spec()) ==> final(access_scope).mem_spec()[j]
                    == old(access_scope).mem_spec()[j],
    {
        access_scope.write_bytes(self.addr, copy.as_bytes());
        proof {
            assert(region_bytes(final(access_scope).mem_spec(), self.addr_spec(), T::size_spec())
                =~= copy.bytes_spec());
        }
    }

    /// Create an owned, still-unvalidated copy of this reference's
    /// underlying memory.
    pub fn copy(&self, access_scope: &AccessScope<ID>) -> (r: OGCopy<T>)
        requires
            self.id_imprint_spec() == access_scope.id_imprint_spec(),
            self.region_in(access_scope.mem_spec().len() as int),
        ensures
            r.wf(),
            r.bytes_spec() == region_bytes(access_scope.mem_spec(), self.addr_spec(),
            T::size_spec()),
    {
        self.as_immut().copy(access_scope)
    }

    /// Validate the current contents of this reference's memory as a value
    /// of type `T`; see [`OGRef::validate`].
    pub fn validate(&self, access_scope: &AccessScope<ID>) -> (r: Option<OGVal<ID, T>>)
        requires
            self.id_imprint_spec() == access_scope.id_imprint_spec(),
            self.region_in(access_scope.mem_spec().len() as int),
        ensures
            (r is Some) <==> T::valid_pattern(
                region_bytes(access_scope.mem_spec(), self.addr_spec(), T::size_spec()),
            ),
            r matches Some(v) ==> v.value_spec() == T::decode_spec(
                region_bytes(access_scope.mem_spec(), self.addr_spec(), T::size_spec()),
            ) && v.addr_spec() == self.addr_spec() && v.id_imprint_spec()
                == self.id_imprint_spec(),
    {
        self.as_immut().validate(access_scope)
    }

    /// Create a sub-reference to a value of type `U` at `byte_offset`
    /// within this reference; see [`OGRef::sub_ref`].
    pub fn sub_ref<U: BitPatternValidate>(self, byte_offset: usize) -> (r: Option<
        OGMutRef<ID, U>,
    >)
        requires
            self.addr_spec() + T::size_spec() <= usize::MAX,
        ensures
            (r is Some) <==> sub_ref_check_spec::<T, U>(byte_offset as int),
            r matches Some(og) ==> og.addr_spec() == self.addr_spec() + byte_offset
                && og.id_imprint_spec() == self.id_imprint_spec(),
    {
        if sub_ref_check::<T, U>(byte_offset) {
            Some(
                OGMutRef {
                    addr: self.addr + byte_offset,
                    id_imprint: self.id_imprint,
                    _type: PhantomData,
                },
            )
        } else {
            None
        }
    }
}

impl<ID: OGID, T: BitPatternValidate + Copy> OGMutRef<ID, T> {
    /// Copy the contents of a host reference to this foreign reference,
    /// byte for byte; see [`OGMutRef::write`] for the access discipline.
    pub fn write_ref(&self, val: &T, access_scope: &mut AccessScope<ID>) -> (r: OGVal<ID, T>)
        requires
            self.id_imprint_spec() == old(access_scope).id_imprint_spec(),
            self.region_in(old(access_scope).mem_spec().len() as int),
        ensures
            final(access_scope).id_imprint_spec() == old(access_scope).id_imprint_spec(),
            final(access_scope).mem_spec().len() == old(access_scope).mem_spec().len(),
            region_bytes(final(access_scope).mem_spec(), self.addr_spec(), T::size_spec())
                == T::encode_spec(*val),
            forall|j: int|
                0 <= j < old(access_scope).mem_spec().len() && !(self.addr_spec() <= j
                    < self.addr_spec() + T::size_spec()) ==> final(access_scope).mem_spec()[j]
                    == old(access_scope).mem_spec()[j],
            r.value_spec() == *val,
            r.addr_spec() == self.addr_spec(),
            r.id_imprint_spec() == self.id_imprint_spec(),
    {
        self.write(*val, access_scope)
    }
}

impl<ID: OGID, T: AlwaysValid> OGMutRef<ID, T> {
    /// Read this reference's memory as a value of type `T`, without
    /// inspecting its bytes; see [`OGRef::valid`].
    pub fn valid(&self, access_scope: &AccessScope<ID>) -> (r: OGVal<ID, T>)
        requires
            self.id_imprint_spec() == access_scope.id_imprint_spec(),
            self.region_in(access_scope.mem_spec().len() as int),
        ensures
            r.value_spec() == T::decode_spec(
                region_bytes(access_scope.mem_spec(), self.addr_spec(), T::size_spec()),
            ),
            r.addr_spec() == self.addr_spec(),
            r.id_imprint_spec() == self.id_imprint_spec(),
    {
        self.as_immut().valid(access_scope)
    }
}

} // verus!
