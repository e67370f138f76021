//! [`OGMutSlice`]: a slice of allocated, readable and writable foreign
//! memory containing objects with the size and alignment of a type `T`.
//!
//! Like [`OGSlice`](super::og_slice::OGSlice), but additionally writable:
//! filling the slice takes a unique `AccessScope` borrow and hands back an
//! [`OGSliceVal`](super::og_slice_val::OGSliceVal) of the values just
//! written.

use vstd::prelude::*;

use core::marker::PhantomData;

use vstd::arithmetic::mul::lemma_mul_inequality;

use crate::alloc_tracker::AllocTracker;
use crate::bit_pattern_validate::{AlwaysValid, BitPatternValidate};
use crate::id::OGID;
use crate::markers::{AccessScope, AllocScope};

use super::og_mut_ref::OGMutRef;
use super::og_slice::OGSlice;
use super::og_slice_val::OGSliceVal;
use super::region_bytes;

verus! {

/// A slice of allocated, readable and writable foreign memory, `length`
/// elements of `T`'s size starting at `addr`, bound to the runtime instance
/// whose imprint it carries.
pub struct OGMutSlice<ID: OGID, T: BitPatternValidate> {
    pub(crate) addr: usize,
    pub(crate) length: usize,
    pub(crate) id_imprint: ID::Imprint,
    pub(crate) _type: PhantomData<T>,
}

impl<ID: OGID, T: BitPatternValidate> Clone for OGMutSlice<ID, T> {
    fn clone(&self) -> (r: Self)
        ensures
            r == *self,
    {
        OGMutSlice {
            addr: self.addr,
            length: self.length,
            id_imprint: self.id_imprint,
            _type: PhantomData,
        }
    }
}

impl<ID: OGID, T: BitPatternValidate> Copy for OGMutSlice<ID, T> {}

impl<ID: OGID, T: BitPatternValidate> OGMutSlice<ID, T> {
    /// The base address of the slice.
    pub closed spec fn addr_spec(&self) -> int {
        self.addr as int
    }

    /// The number of elements of the slice.
    pub closed spec fn len_spec(&self) -> int {
        self.length as int
    }

    /// The imprint of the runtime instance this slice belongs to.
    pub closed spec fn id_imprint_spec(&self) -> ID::Imprint {
        self.id_imprint
    }

    /// The address of element `i`.
    pub open spec fn elem_addr(&self, i: int) -> int {
        self.addr_spec() + i * T::size_spec()
    }

    /// The bytes of element `i` in foreign memory `mem`.
    pub open spec fn elem_bytes(&self, mem: Seq<u8>, i: int) -> Seq<u8> {
        region_bytes(mem, self.elem_addr(i), T::size_spec())
    }

    /// Whether every element of the slice holds a legal pattern of `T` in
    /// foreign memory `mem`.
    pub open spec fn all_valid(&self, mem: Seq<u8>) -> bool {
        forall|i: int|
            0 <= i < self.len_spec() ==> T::valid_pattern(#[trigger] self.elem_bytes(mem, i))
    }

    /// Whether the slice's region lies within a foreign memory of `mem_len`
    /// bytes.
    pub open spec fn region_in(&self, mem_len: int) -> bool {
        self.addr_spec() + self.len_spec() * T::size_spec() <= mem_len
    }

    /// Whether the slice's end offset is representable; holds for every
    /// slice upgraded through a tracker.
    pub open spec fn fits(&self) -> bool {
        self.addr_spec() + self.len_spec() * T::size_spec() <= usize::MAX
    }

    pub(crate) fn new_parts(addr: usize, length: usize, id_imprint: ID::Imprint) -> (r: Self)
        ensures
            r.addr_spec() == addr as int,
            r.len_spec() == length as int,
            r.id_imprint_spec() == id_imprint,
    {
        OGMutSlice { addr, length, id_imprint, _type: PhantomData }
    }

    /// Create an `OGMutSlice` from a raw address and length within an
    /// [`AllocScope`].
    ///
    /// Returns a slice exactly when the total byte length is representable,
    /// the address is aligned for `T`, and the scope's tracker reports the
    /// whole region as allocated and writable; the slice then carries the
    /// scope's imprint and lies within the tracker's bound.
    pub fn upgrade_from_ptr<R: AllocTracker>(
        ptr: usize,
        length: usize,
        alloc_scope: &AllocScope<R, ID>,
    ) -> (r: Option<Self>)
        ensures
            (r is Some) <==> (length * T::size_spec() <= usize::MAX && ptr as int
                % T::align_spec() as int == 0 && alloc_scope.tracker_spec().valid_mut_spec(
                ptr as int,
                length * T::size_spec(),
            )),
            r matches Some(og) ==> og.addr_spec() == ptr as int && og.len_spec()
                == length as int && og.id_imprint_spec() == alloc_scope.id_imprint_spec()
                && og.region_in(alloc_scope.tracker_spec().bound_spec()) && og.fits(),
    {
        proof {
            T::lemma_align();
        }
        let size = T::size_of();
        let align = T::align_of();
        let total = match length.checked_mul(size) {
            Some(t) => t,
            None => {
                return None;
            },
        };
        if ptr % align == 0 && alloc_scope.tracker().is_valid_mut(ptr, total) {
            proof {
                let tr = alloc_scope.tracker_spec();
                tr.lemma_valid_in_bounds(ptr as int, total as int);
                tr.lemma_bound_fits();
            }
            Some(
                OGMutSlice {
                    addr: ptr,
                    length,
                    id_imprint: alloc_scope.id_imprint(),
                    _type: PhantomData,
                },
            )
        } else {
            None
        }
    }

    /// Return the raw address of the slice's first element.
    pub fn as_ptr(&self) -> (r: usize)
        ensures
            r as int == self.addr_spec(),
    {
        self.addr
    }

    /// Return the number of elements of the slice.
    pub fn len(&self) -> (r: usize)
        ensures
            r as int == self.len_spec(),
    {
        self.length
    }

    /// Convert this mutable slice into an immutable [`OGSlice`].
    pub fn as_immut(&self) -> (r: OGSlice<ID, T>)
        ensures
            r.addr_spec() == self.addr_spec(),
            r.len_spec() == self.len_spec(),
            r.id_imprint_spec() == self.id_imprint_spec(),
    {
        OGSlice::new_parts(self.addr, self.length, self.id_imprint)
    }

    /// Get a mutable reference to the element at index `idx`, bound to the
    /// same instance, exactly when `idx` is within the slice.
    pub fn get(&self, idx: usize) -> (r: Option<OGMutRef<ID, T>>)
        requires
            self.fits(),
        ensures
            (r is Some) <==> (idx as int) < self.len_spec(),
            r matches Some(og) ==> og.addr_spec() == self.elem_addr(idx as int)
                && og.id_imprint_spec() == self.id_imprint_spec(),
    {
        if idx < self.length {
            let size = T::size_of();
            proof {
                lemma_mul_inequality(idx as int, self.len_spec(), T::size_spec() as int);
            }
            Some(OGMutRef::new_at(self.addr + idx * size, self.id_imprint))
        } else {
            None
        }
    }

    /// Obtain an iterator handing out an [`OGMutRef`] for each element.
    pub fn iter(&self) -> (r: OGMutSliceIter<ID, T>)
        ensures
            r.inner_spec() == *self,
            r.idx_spec() == 0,
    {
        OGMutSliceIter { inner: *self, idx: 0 }
    }

    /// Validate the current contents of every element as a value of type
    /// `T`; see [`OGSlice::validate`].
    pub fn validate(&self, access_scope: &AccessScope<ID>) -> (r: Option<OGSliceVal<ID, T>>)
        requires
            self.id_imprint_spec() == access_scope.id_imprint_spec(),
            self.region_in(access_scope.mem_spec().len() as int),
            self.fits(),
        ensures
            (r is Some) <==> self.all_valid(access_scope.mem_spec()),
            r matches Some(sv) ==> sv.values_spec().len() == self.len_spec() && (forall|i: int|
                0 <= i < self.len_spec() ==> sv.values_spec()[i] == T::decode_spec(
                    #[trigger] self.elem_bytes(access_scope.mem_spec(), i),
                )) && sv.addr_spec() == self.addr_spec() && sv.id_imprint_spec()
                == self.id_imprint_spec(),
    {
        let imm = self.as_immut();
        let r = imm.validate(access_scope);
        proof {
            assert forall|i: int| 0 <= i < self.len_spec() implies #[trigger] self.elem_bytes(
                access_scope.mem_spec(),
                i,
            ) == imm.elem_bytes(access_scope.mem_spec(), i) by {}
            assert forall|i: int| 0 <= i < imm.len_spec() implies #[trigger] imm.elem_bytes(
                access_scope.mem_spec(),
                i,
            ) == self.elem_bytes(access_scope.mem_spec(), i) by {}
            assert(self.all_valid(access_scope.mem_spec()) == imm.all_valid(
                access_scope.mem_spec(),
            ));
        }
        r
    }
}

impl<ID: OGID, T: BitPatternValidate + Copy> OGMutSlice<ID, T> {
    /// Fill this slice with the leading elements of a host slice, byte by
    /// byte; source elements beyond the slice's length are ignored.
    ///
    /// Takes a unique `AccessScope` borrow: no other host reference into
    /// foreign memory can be read or written for its duration. Afterwards
    /// every element of the region holds exactly the byte representation of
    /// the corresponding source element, the rest of foreign memory is
    /// unchanged, and the returned [`OGSliceVal`] holds the copied source
    /// values themselves.
    pub fn copy_from_slice(&self, src: &[T], access_scope: &mut AccessScope<ID>) -> (r:
        OGSliceVal<ID, T>)
        requires
            src@.len() >= self.len_spec(),
            self.id_imprint_spec() == old(access_scope).id_imprint_spec(),
            self.region_in(old(access_scope).mem_spec().len() as int),
            self.fits(),
        ensures
            final(access_scope).id_imprint_spec() == old(access_scope).id_imprint_spec(),
            final(access_scope).mem_spec().len() == old(access_scope).mem_spec().len(),
            forall|i: int|
                0 <= i < self.len_spec() ==> #[trigger] self.elem_bytes(
                    final(access_scope).mem_spec(),
                    i,
                ) == T::encode_spec(src@[i]),
            forall|j: int|
                0 <= j < old(access_scope).mem_spec().len() && !(self.addr_spec() <= j
                    < self.addr_spec() + self.len_spec() * T::size_spec())
                    ==> final(access_scope).mem_spec()[j] == old(access_scope).mem_spec()[j],
            r.values_spec() == src@.take(self.len_spec()),
            r.addr_spec() == self.addr_spec(),
            r.id_imprint_spec() == self.id_imprint_spec(),
    {
        let size = T::size_of();
        let mut values: Vec<T> = Vec::new();
        let mut i: usize = 0;
        while i < self.length
            invariant
                i <= self.length,
                size == T::size_spec(),
                src@.len() >= self.len_spec(),
                self.region_in(old(access_scope).mem_spec().len() as int),
                self.fits(),
                access_scope.id_imprint_spec() == old(access_scope).id_imprint_spec(),
                access_scope.mem_spec().len() == old(access_scope).mem_spec().len(),
                values@ == src@.take(i as int),
                forall|k: int|
                    0 <= k < i ==> #[trigger] self.elem_bytes(access_scope.mem_spec(), k)
                        == T::encode_spec(src@[k]),
                forall|j: int|
                    0 <= j < old(access_scope).mem_spec().len() && !(self.addr_spec() <= j
                        < self.addr_spec() + i * T::size_spec()) ==> access_scope.mem_spec()[j]
                        == old(access_scope).mem_spec()[j],
            decreases self.length - i,
        {
            proof {
                lemma_mul_inequality(i + 1, self.len_spec(), T::size_spec() as int);
                assert((i + 1) * T::size_spec() == i * T::size_spec() + T::size_spec())
                    by (nonlinear_arith);
                T::lemma_encode_len(src@[i as int]);
            }
            let ghost pre_mem = access_scope.mem_spec();
            let bytes = src[i].encode();
            access_scope.write_bytes(self.addr + i * size, bytes.as_slice());
            proof {
                assert forall|k: int| 0 <= k < i + 1 implies #[trigger] self.elem_bytes(
                    access_scope.mem_spec(),
                    k,
                ) == T::encode_spec(src@[k]) by {
                    if k < i {
                        lemma_mul_inequality(k + 1, i as int, T::size_spec() as int);
                        assert((k + 1) * T::size_spec() == k * T::size_spec() + T::size_spec())
                            by (nonlinear_arith);
                        assert(self.elem_bytes(access_scope.mem_spec(), k) =~= self.elem_bytes(
                            pre_mem,
                            k,
                        ));
                    } else {
                        assert(self.elem_bytes(access_scope.mem_spec(), k) =~= bytes@);
                    }
                }
            }
            values.push(src[i]);
            i = i + 1;
            proof {
                assert(values@ =~= src@.take(i as int));
            }
        }
        proof {
            assert(values@ =~= src@.take(self.len_spec()));
        }
        OGSliceVal::new(values, self.addr, self.id_imprint)
    }
}

impl<ID: OGID, T: AlwaysValid> OGMutSlice<ID, T> {
    /// Read every element as a value of type `T`, without inspecting any
    /// bytes; see [`OGSlice::valid`].
    pub fn valid(&self, access_scope: &AccessScope<ID>) -> (r: OGSliceVal<ID, T>)
        requires
            self.id_imprint_spec() == access_scope.id_imprint_spec(),
            self.region_in(access_scope.mem_spec().len() as int),
            self.fits(),
        ensures
            r.values_spec().len() == self.len_spec(),
            forall|i: int|
                0 <= i < self.len_spec() ==> r.values_spec()[i] == T::decode_spec(
                    #[trigger] self.elem_bytes(access_scope.mem_spec(), i),
                ),
            r.addr_spec() == self.addr_spec(),
            r.id_imprint_spec() == self.id_imprint_spec(),
    {
        let imm = self.as_immut();
        let r = imm.valid(access_scope);
        proof {
            assert forall|i: int| 0 <= i < self.len_spec() implies #[trigger] self.elem_bytes(
                access_scope.mem_spec(),
                i,
            ) == imm.elem_bytes(access_scope.mem_spec(), i) by {}
        }
        r
    }
}

/// An iterator over an [`OGMutSlice`], handing out an [`OGMutRef`] per
/// element.
pub struct OGMutSliceIter<ID: OGID, T: BitPatternValidate> {
    pub(crate) inner: OGMutSlice<ID, T>,
    pub(crate) idx: usize,
}

impl<ID: OGID, T: BitPatternValidate> OGMutSliceIter<ID, T> {
    /// The slice being iterated over.
    pub closed spec fn inner_spec(&self) -> OGMutSlice<ID, T> {
        self.inner
    }

    /// The index of the next element to hand out.
    pub closed spec fn idx_spec(&self) -> int {
        self.idx as int
    }

    /// Hand out a reference to the next element, until the slice is
    /// exhausted.
    pub fn next(&mut self) -> (r: Option<OGMutRef<ID, T>>)
        requires
            old(self).inner_spec().fits(),
        ensures
            final(self).inner_spec() == old(self).inner_spec(),
            (r is Some) <==> old(self).idx_spec() < old(self).inner_spec().len_spec(),
            r matches Some(og) ==> og.addr_spec() == old(self).inner_spec().elem_addr(
                old(self).idx_spec(),
            ) && og.id_imprint_spec() == old(self).inner_spec().id_imprint_spec()
                && final(self).idx_spec() == old(self).idx_spec() + 1,
            (r is None) ==> final(self).idx_spec() == old(self).idx_spec(),
    {
        if let Some(item) = self.inner.get(self.idx) {
            self.idx = self.idx + 1;
            Some(item)
        } else {
            None
        }
    }
}

} // verus!
