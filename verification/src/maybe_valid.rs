//! [`MaybeValid`]: initialized bytes with the size of a type `T`, not
//! necessarily containing a legal value of `T`.
//!
//! This is the tagged-buffer representation of "memory of `T`'s shape whose
//! contents are untrusted": a byte buffer of exactly `T::size_spec()` bytes
//! together with a phantom type marker. It may only be treated as a `T`
//! after validation against `T`'s legal bit patterns.

use vstd::prelude::*;

use core::marker::PhantomData;

use crate::bit_pattern_validate::BitPatternValidate;

verus! {

/// Initialized bytes with size of type `T`, which may or may not form a
/// legal value of `T`.
#[derive(Debug)]
pub struct MaybeValid<T: BitPatternValidate> {
    bytes: Vec<u8>,
    _type: PhantomData<T>,
}

impl<T: BitPatternValidate> MaybeValid<T> {
    /// The bytes this buffer holds.
    pub closed spec fn bytes_spec(&self) -> Seq<u8> {
        self.bytes@
    }

    /// Well-formedness: the buffer holds exactly `T::size_spec()` bytes.
    /// Every constructor establishes this and every method preserves it.
    pub open spec fn wf(&self) -> bool {
        self.bytes_spec().len() == T::size_spec()
    }

    /// Create a `MaybeValid` with zero-initialized contents.
    pub fn zeroed() -> (r: Self)
        ensures
            r.wf(),
            r.bytes_spec() == Seq::new(T::size_spec(), |i: int| 0u8),
    {
        let size = T::size_of();
        let mut bytes: Vec<u8> = Vec::new();
        let mut i: usize = 0;
        while i < size
            invariant
                i <= size,
                bytes@ == Seq::new(i as nat, |j: int| 0u8),
            decreases size - i,
        {
            bytes.push(0);
            i = i + 1;
            proof {
                assert(bytes@ =~= Seq::new(i as nat, |j: int| 0u8));
            }
        }
        MaybeValid { bytes, _type: PhantomData }
    }

    /// Create a `MaybeValid` by filling its contents from a byte slice of
    /// exactly `T::size_spec()` bytes.
    pub fn from_bytes(src: &[u8]) -> (r: Self)
        requires
            src@.len() == T::size_spec(),
        ensures
            r.wf(),
            r.bytes_spec() == src@,
    {
        let len = src.len();
        let mut bytes: Vec<u8> = Vec::new();
        let mut i: usize = 0;
        while i < len
            invariant
                i <= len,
                len == src@.len(),
                bytes@ == src@.take(i as int),
            decreases len - i,
        {
            bytes.push(src[i]);
            i = i + 1;
            proof {
                assert(bytes@ =~= src@.take(i as int));
            }
        }
        proof {
            assert(bytes@ =~= src@);
        }
        MaybeValid { bytes, _type: PhantomData }
    }

    /// Borrow the bytes of this buffer.
    pub fn as_bytes(&self) -> (r: &[u8])
        ensures
            r@ == self.bytes_spec(),
    {
        self.bytes.as_slice()
    }

    /// Overwrite the contents with the byte representation of `val`.
    pub fn write(&mut self, val: T)
        ensures
            final(self).wf(),
            final(self).bytes_spec() == T::encode_spec(val),
    {
        proof {
            T::lemma_encode_len(val);
        }
        self.bytes = val.encode();
    }

    /// Create a `MaybeValid` holding the byte representation of a legal
    /// value of type `T`.
    pub fn new(val: T) -> (r: Self)
        ensures
            r.wf(),
            r.bytes_spec() == T::encode_spec(val),
    {
        proof {
            T::lemma_encode_len(val);
        }
        MaybeValid { bytes: val.encode(), _type: PhantomData }
    }
}

impl<T: BitPatternValidate> Clone for MaybeValid<T> {
    /// Clone by a byte-wise copy of the buffer, irrespective of whether `T`
    /// itself is cloneable.
    fn clone(&self) -> (r: Self)
        ensures
            r.bytes_spec() == self.bytes_spec(),
            r.wf() == self.wf(),
    {
        let bytes = self.bytes.clone();
        proof {
            assert(bytes@ =~= self.bytes@);
        }
        MaybeValid { bytes, _type: PhantomData }
    }
}

} // verus!
