//! [`OGSlice`]: a slice of allocated, readable foreign memory containing
//! objects with the size and alignment of a type `T`.
//!
//! The length of the slice is held by the host, never trusted from foreign
//! memory. The elements may or may not hold legal values of `T`; reading
//! them back goes through per-element validation.

use vstd::prelude::*;

use core::marker::PhantomData;

use vstd::arithmetic::mul::lemma_mul_inequality;

use crate::alloc_tracker::AllocTracker;
use crate::bit_pattern_validate::{AlwaysValid, BitPatternValidate};
use crate::id::OGID;
use crate::markers::{AccessScope, AllocScope};

use super::og_ref::OGRef;
use super::og_slice_val::OGSliceVal;
use super::region_bytes;

verus! {

/// A slice of allocated, readable foreign memory, `length` elements of
/// `T`'s size starting at `addr`, bound to the runtime instance whose
/// imprint it carries.
pub struct OGSlice<ID: OGID, T: BitPatternValidate> {
    pub(crate) addr: usize,
    pub(crate) length: usize,
    pub(crate) id_imprint: ID::Imprint,
    pub(crate) _type: PhantomData<T>,
}

impl<ID: OGID, T: BitPatternValidate> Clone for OGSlice<ID, T> {
    fn clone(&self) -> (r: Self)
        ensures
            r == *self,
    {
        OGSlice {
            addr: self.addr,
            length: self.length,
            id_imprint: self.id_imprint,
            _type: PhantomData,
        }
    }
}

impl<ID: OGID, T: BitPatternValidate> Copy for OGSlice<ID, T> {}

impl<ID: OGID, T: BitPatternValidate> OGSlice<ID, T> {
    /// The base address of the slice.
    pub closed spec fn addr_spec(&self) -> int {
        self.addr as int
    }

    /// The number of elements of the slice.
    pub closed spec fn len_spec(&self) -> int {
        self.length as int
    }

    /// The imprint of the runtime instance this slice belongs to.
    pub closed spec fn id_imprint_spec(&self) -> ID::Imprint {
        self.id_imprint
    }

    /// The address of element `i`.
    pub open spec fn elem_addr(&self, i: int) -> int {
        self.addr_spec() + i * T::size_spec()
    }

    /// The bytes of element `i` in foreign memory `mem`.
    pub open spec fn elem_bytes(&self, mem: Seq<u8>, i: int) -> Seq<u8> {
        region_bytes(mem, self.elem_addr(i), T::size_spec())
    }

    /// Whether every element of the slice holds a legal pattern of `T` in
    /// foreign memory `mem`.
    pub open spec fn all_valid(&self, mem: Seq<u8>) -> bool {
        forall|i: int|
            0 <= i < self.len_spec() ==> T::valid_pattern(#[trigger] self.elem_bytes(mem, i))
    }

    /// Whether the slice's region lies within a foreign memory of `mem_len`
    /// bytes.
    pub open spec fn region_in(&self, mem_len: int) -> bool {
        self.addr_spec() + self.len_spec() * T::size_spec() <= mem_len
    }

    /// Whether the slice's end offset is representable; holds for every
    /// slice upgraded through a tracker.
    pub open spec fn fits(&self) -> bool {
        self.addr_spec() + self.len_spec() * T::size_spec() <= usize::MAX
    }

    pub(crate) fn new_parts(addr: usize, length: usize, id_imprint: ID::Imprint) -> (r: Self)
        ensures
            r.addr_spec() == addr as int,
            r.len_spec() == length as int,
            r.id_imprint_spec() == id_imprint,
    {
        OGSlice { addr, length, id_imprint, _type: PhantomData }
    }

    /// Create an `OGSlice` from a raw address and length within an
    /// [`AllocScope`].
    ///
    /// Returns a slice exactly when the total byte length is representable,
    /// the address is aligned for `T`, and the scope's tracker reports the
    /// whole region as allocated and readable; the slice then carries the
    /// scope's imprint and lies within the tracker's bound.
    pub fn upgrade_from_ptr<R: AllocTracker>(
        ptr: usize,
        length: usize,
        alloc_scope: &AllocScope<R, ID>,
    ) -> (r: Option<Self>)
        ensures
            (r is Some) <==> (length * T::size_spec() <= usize::MAX && ptr as int
                % T::align_spec() as int == 0 && alloc_scope.tracker_spec().valid_spec(
                ptr as int,
                length * T::size_spec(),
            )),
            r matches Some(og) ==> og.addr_spec() == ptr as int && og.len_spec()
                == length as int && og.id_imprint_spec() == alloc_scope.id_imprint_spec()
                && og.region_in(alloc_scope.tracker_spec().bound_spec()) && og.fits(),
    {
        proof {
            T::lemma_align();
        }
        let size = T::size_of();
        let align = T::align_of();
        let total = match length.checked_mul(size) {
            Some(t) => t,
            None => {
                return None;
            },
        };
        if ptr % align == 0 && alloc_scope.tracker().is_valid(ptr, total) {
            proof {
                let tr = alloc_scope.tracker_spec();
                tr.lemma_valid_in_bounds(ptr as int, total as int);
                tr.lemma_bound_fits();
            }
            Some(
                OGSlice {
                    addr: ptr,
                    length,
                    id_imprint: alloc_scope.id_imprint(),
                    _type: PhantomData,
                },
            )
        } else {
            None
        }
    }

    /// Return the raw address of the slice's first element.
    pub fn as_ptr(&self) -> (r: usize)
        ensures
            r as int == self.addr_spec(),
    {
        self.addr
    }

    /// Return the number of elements of the slice.
    pub fn len(&self) -> (r: usize)
        ensures
            r as int == self.len_spec(),
    {
        self.length
    }

    /// Get a reference to the element at index `idx`, bound to the same
    /// instance, exactly when `idx` is within the slice.
    pub fn get(&self, idx: usize) -> (r: Option<OGRef<ID, T>>)
        requires
            self.fits(),
        ensures
            (r is Some) <==> (idx as int) < self.len_spec(),
            r matches Some(og) ==> og.addr_spec() == self.elem_addr(idx as int)
                && og.id_imprint_spec() == self.id_imprint_spec(),
    {
        if idx < self.length {
            let size = T::size_of();
            proof {
                lemma_mul_inequality(idx as int, self.len_spec(), T::size_spec() as int);
            }
            Some(OGRef::new_at(self.addr + idx * size, self.id_imprint))
        } else {
            None
        }
    }

    /// Obtain an iterator handing out an [`OGRef`] for each element.
    pub fn iter(&self) -> (r: OGSliceIter<ID, T>)
        ensures
            r.inner_spec() == *self,
            r.idx_spec() == 0,
    {
        OGSliceIter { inner: *self, idx: 0 }
    }

    /// Validate the current contents of every element as a value of type
    /// `T`.
    ///
    /// Takes a shared `AccessScope` borrow, ensuring the memory is not
    /// concurrently modified. Returns the decoded values exactly when every
    /// element's bytes form a legal pattern of `T` — the conjunction over
    /// the elements, computed with a short-circuit on the first invalid
    /// element; returns `None` otherwise.
    pub fn validate(&self, access_scope: &AccessScope<ID>) -> (r: Option<OGSliceVal<ID, T>>)
        requires
            self.id_imprint_spec() == access_scope.id_imprint_spec(),
            self.region_in(access_scope.mem_spec().len() as int),
            self.fits(),
        ensures
            (r is Some) <==> self.all_valid(access_scope.mem_spec()),
            r matches Some(sv) ==> sv.values_spec().len() == self.len_spec() && (forall|i: int|
                0 <= i < self.len_spec() ==> sv.values_spec()[i] == T::decode_spec(
                    #[trigger] self.elem_bytes(access_scope.mem_spec(), i),
                )) && sv.addr_spec() == self.addr_spec() && sv.id_imprint_spec()
                == self.id_imprint_spec(),
    {
        let size = T::size_of();
        let mut values: Vec<T> = Vec::new();
        let mut i: usize = 0;
        while i < self.length
            invariant
                i <= self.length,
                size == T::size_spec(),
                self.region_in(access_scope.mem_spec().len() as int),
                self.fits(),
                values@.len() == i,
                forall|k: int|
                    0 <= k < i ==> T::valid_pattern(
                        #[trigger] self.elem_bytes(access_scope.mem_spec(), k),
                    ),
                forall|k: int|
                    0 <= k < i ==> values@[k] == T::decode_spec(
                        #[trigger] self.elem_bytes(access_scope.mem_spec(), k),
                    ),
            decreases self.length - i,
        {
            proof {
                lemma_mul_inequality(i + 1, self.len_spec(), T::size_spec() as int);
                assert((i + 1) * T::size_spec() == i * T::size_spec() + T::size_spec())
                    by (nonlinear_arith);
            }
            let bytes = access_scope.read_bytes(self.addr + i * size, size);
            if !T::validate(bytes.as_slice()) {
                // Abort on the first invalid element: one illegal pattern
                // refutes the conjunction.
                proof {
                    assert(!T::valid_pattern(self.elem_bytes(access_scope.mem_spec(), i as int)));
                }
                return None;
            }
            values.push(T::decode(bytes.as_slice()));
            i = i + 1;
        }
        Some(OGSliceVal::new(values, self.addr, self.id_imprint))
    }
}

impl<ID: OGID, T: AlwaysValid> OGSlice<ID, T> {
    /// Read every element as a value of type `T`, without inspecting any
    /// bytes.
    ///
    /// For types where every bit pattern is legal, per-element validation
    /// cannot fail, so this conversion is infallible.
    pub fn valid(&self, access_scope: &AccessScope<ID>) -> (r: OGSliceVal<ID, T>)
        requires
            self.id_imprint_spec() == access_scope.id_imprint_spec(),
            self.region_in(access_scope.mem_spec().len() as int),
            self.fits(),
        ensures
            r.values_spec().len() == self.len_spec(),
            forall|i: int|
                0 <= i < self.len_spec() ==> r.values_spec()[i] == T::decode_spec(
                    #[trigger] self.elem_bytes(access_scope.mem_spec(), i),
                ),
            r.addr_spec() == self.addr_spec(),
            r.id_imprint_spec() == self.id_imprint_spec(),
    {
        let size = T::size_of();
        let mut values: Vec<T> = Vec::new();
        let mut i: usize = 0;
        while i < self.length
            invariant
                i <= self.length,
                size == T::size_spec(),
                self.region_in(access_scope.mem_spec().len() as int),
                self.fits(),
                values@.len() == i,
                forall|k: int|
                    0 <= k < i ==> values@[k] == T::decode_spec(
                        #[trigger] self.elem_bytes(access_scope.mem_spec(), k),
                    ),
            decreases self.length - i,
        {
            proof {
                lemma_mul_inequality(i + 1, self.len_spec(), T::size_spec() as int);
                assert((i + 1) * T::size_spec() == i * T::size_spec() + T::size_spec())
                    by (nonlinear_arith);
            }
            let bytes = access_scope.read_bytes(self.addr + i * size, size);
            proof {
                T::lemma_always_valid(bytes@);
            }
            values.push(T::decode(bytes.as_slice()));
            i = i + 1;
        }
        OGSliceVal::new(values, self.addr, self.id_imprint)
    }
}

/// An iterator over an [`OGSlice`], handing out an [`OGRef`] per element.
pub struct OGSliceIter<ID: OGID, T: BitPatternValidate> {
    pub(crate) inner: OGSlice<ID, T>,
    pub(crate) idx: usize,
}

impl<ID: OGID, T: BitPatternValidate> OGSliceIter<ID, T> {
    /// The slice being iterated over.
    pub closed spec fn inner_spec(&self) -> OGSlice<ID, T> {
        self.inner
    }

    /// The index of the next element to hand out.
    pub closed spec fn idx_spec(&self) -> int {
        self.idx as int
    }

    /// Hand out a reference to the next element, until the slice is
    /// exhausted.
    pub fn next(&mut self) -> (r: Option<OGRef<ID, T>>)
        requires
            old(self).inner_spec().fits(),
        ensures
            final(self).inner_spec() == old(self).inner_spec(),
            (r is Some) <==> old(self).idx_spec() < old(self).inner_spec().len_spec(),
            r matches Some(og) ==> og.addr_spec() == old(self).inner_spec().elem_addr(
                old(self).idx_spec(),
            ) && og.id_imprint_spec() == old(self).inner_spec().id_imprint_spec()
                && final(self).idx_spec() == old(self).idx_spec() + 1,
            (r is None) ==> final(self).idx_spec() == old(self).idx_spec(),
    {
        if let Some(item) = self.inner.get(self.idx) {
            self.idx = self.idx + 1;
            Some(item)
        } else {
            None
        }
    }
}

} // verus!
