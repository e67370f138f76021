//! [`OGCopy`]: an owned, host-side byte snapshot of foreign memory of the
//! shape of a type `T`, of unverified validity.
//!
//! A copy can escape every scope, since it is host-owned; but its contents
//! are still untrusted and must pass validation before they may be treated
//! as a value of `T`.

use vstd::prelude::*;

use crate::bit_pattern_validate::{AlwaysValid, BitPatternValidate};
use crate::id::OGID;
use crate::markers::AccessScope;
use crate::maybe_valid::MaybeValid;

use super::og_mut_ref::OGMutRef;
use super::og_ref::OGRef;
use super::region_bytes;

verus! {

/// An owned copy of some unvalidated foreign memory, with the size of type
/// `T`.
#[derive(Debug)]
pub struct OGCopy<T: BitPatternValidate> {
    pub(crate) inner: MaybeValid<T>,
}

impl<T: BitPatternValidate> OGCopy<T> {
    /// The snapshot's bytes.
    pub closed spec fn bytes_spec(&self) -> Seq<u8> {
        self.inner.bytes_spec()
    }

    /// Well-formedness: the snapshot holds exactly `T::size_spec()` bytes.
    pub open spec fn wf(&self) -> bool {
        self.bytes_spec().len() == T::size_spec()
    }

    /// Create an `OGCopy` with zero-initialized contents.
    pub fn zeroed() -> (r: Self)
        ensures
            r.wf(),
            r.bytes_spec() == Seq::new(T::size_spec(), |i: int| 0u8),
    {
        OGCopy { inner: MaybeValid::zeroed() }
    }

    /// Create an `OGCopy` by filling its contents from a byte slice of
    /// exactly `T::size_spec()` bytes.
    pub fn from_bytes(src: &[u8]) -> (r: Self)
        requires
            src@.len() == T::size_spec(),
        ensures
            r.wf(),
            r.bytes_spec() == src@,
    {
        OGCopy { inner: MaybeValid::from_bytes(src) }
    }

    /// Create an `OGCopy` from a legal value of type `T`.
    pub fn new(val: T) -> (r: Self)
        ensures
            r.wf(),
            r.bytes_spec() == T::encode_spec(val),
    {
        OGCopy { inner: MaybeValid::new(val) }
    }

    pub(crate) fn into_inner(self) -> (r: MaybeValid<T>)
        ensures
            r.bytes_spec() == self.bytes_spec(),
            r.wf() == self.wf(),
    {
        self.inner
    }

    /// Borrow the snapshot's bytes.
    pub fn as_bytes(&self) -> (r: &[u8])
        ensures
            r@ == self.bytes_spec(),
    {
        self.inner.as_bytes()
    }

    /// Refill this snapshot from the memory behind a shared foreign
    /// reference.
    ///
    /// Takes a shared `AccessScope` borrow of the same instance as the
    /// reference, ensuring the memory is not concurrently modified.
    pub fn update_from_ref<ID: OGID>(
        &mut self,
        r: OGRef<ID, T>,
        access_scope: &AccessScope<ID>,
    )
        requires
            r.id_imprint_spec() == access_scope.id_imprint_spec(),
            r.region_in(access_scope.mem_spec().len() as int),
        ensures
            final(self).wf(),
            final(self).bytes_spec() == region_bytes(access_scope.mem_spec(), r.addr_spec(),
            T::size_spec()),
    {
        let size = T::size_of();
        let bytes = access_scope.read_bytes(r.as_ptr(), size);
        self.inner = MaybeValid::from_bytes(bytes.as_slice());
    }

    /// Refill this snapshot from the memory behind a mutable foreign
    /// reference.
    pub fn update_from_mut_ref<ID: OGID>(
        &mut self,
        r: OGMutRef<ID, T>,
        access_scope: &AccessScope<ID>,
    )
        requires
            r.id_imprint_spec() == access_scope.id_imprint_spec(),
            r.region_in(access_scope.mem_spec().len() as int),
        ensures
            final(self).wf(),
            final(self).bytes_spec() == region_bytes(access_scope.mem_spec(), r.addr_spec(),
            T::size_spec()),
    {
        self.update_from_ref(r.as_immut(), access_scope)
    }

    /// Validate this snapshot's bytes as a value of type `T`, consuming the
    /// snapshot.
    ///
    /// Returns the decoded value exactly when the bytes form a legal
    /// pattern of `T`; otherwise returns the snapshot back, unchanged.
    pub fn validate(self) -> (r: Result<T, Self>)
        requires
            self.wf(),
        ensures
            (r is Ok) <==> T::valid_pattern(self.bytes_spec()),
            r matches Ok(v) ==> v == T::decode_spec(self.bytes_spec()),
            r matches Err(c) ==> c == self,
    {
        if T::validate(self.inner.as_bytes()) {
            Ok(T::decode(self.inner.as_bytes()))
        } else {
            Err(self)
        }
    }

    /// Validate this snapshot's bytes as a value of type `T`, without
    /// consuming the snapshot.
    pub fn validate_ref(&self) -> (r: Option<T>)
        requires
            self.wf(),
        ensures
            (r is Some) <==> T::valid_pattern(self.bytes_spec()),
            r matches Some(v) ==> v == T::decode_spec(self.bytes_spec()),
    {
        if T::validate(self.inner.as_bytes()) {
            Some(T::decode(self.inner.as_bytes()))
        } else {
            None
        }
    }

    /// Validate a copy of this snapshot's bytes as a value of type `T`.
    pub fn validate_copy(&self) -> (r: Option<T>)
        requires
            self.wf(),
        ensures
            (r is Some) <==> T::valid_pattern(self.bytes_spec()),
            r matches Some(v) ==> v == T::decode_spec(self.bytes_spec()),
    {
        let cloned = self.clone();
        match cloned.validate() {
            Ok(v) => Some(v),
            Err(_) => None,
        }
    }
}

impl<T: AlwaysValid> OGCopy<T> {
    /// Read this snapshot as a value of type `T`, consuming the snapshot.
    ///
    /// For types where every bit pattern is legal, validation cannot fail,
    /// so this conversion is infallible.
    pub fn valid(self) -> (r: T)
        requires
            self.wf(),
        ensures
            r == T::decode_spec(self.bytes_spec()),
    {
        proof {
            T::lemma_always_valid(self.bytes_spec());
        }
        T::decode(self.inner.as_bytes())
    }

    /// Read this snapshot as a value of type `T`, without consuming the
    /// snapshot.
    pub fn valid_ref(&self) -> (r: T)
        requires
            self.wf(),
        ensures
            r == T::decode_spec(self.bytes_spec()),
    {
        proof {
            T::lemma_always_valid(self.bytes_spec());
        }
        T::decode(self.inner.as_bytes())
    }
}

impl<T: BitPatternValidate> Clone for OGCopy<T> {
    /// Clone by a byte-wise copy of the snapshot, irrespective of whether
    /// `T` itself is cloneable.
    fn clone(&self) -> (r: Self)
        ensures
            r.bytes_spec() == self.bytes_spec(),
            r.wf() == self.wf(),
    {
        OGCopy { inner: self.inner.clone() }
    }
}

} // verus!
