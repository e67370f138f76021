//! [`OGRet`]: a value handed back by foreign code.
//!
//! Either initialized bytes copied out of the sandbox (whose validity is
//! still unverified), or a known-valid instance of `T` that the host
//! constructed itself.

use vstd::prelude::*;

use crate::bit_pattern_validate::{AlwaysValid, BitPatternValidate};
use crate::maybe_valid::MaybeValid;

use super::og_copy::OGCopy;

verus! {

/// A value returned by foreign code: either initialized, unvalidated bytes,
/// or a known-valid value.
#[derive(Debug)]
pub enum OGRet<T: BitPatternValidate> {
    Initialized(MaybeValid<T>),
    Valid(T),
}

impl<T: BitPatternValidate> OGRet<T> {
    /// Well-formedness: an `Initialized` buffer holds bytes of `T`'s size.
    pub open spec fn wf(&self) -> bool {
        match self {
            OGRet::Initialized(mv) => mv.wf(),
            OGRet::Valid(_) => true,
        }
    }

    /// Wrap a known-valid value of type `T`.
    pub fn from_valid_value(val: T) -> (r: Self)
        ensures
            r == OGRet::Valid(val),
            r.wf(),
    {
        OGRet::Valid(val)
    }

    /// Wrap initialized, unvalidated memory of `T`'s shape.
    pub fn from_initialized_memory(maybe_valid: MaybeValid<T>) -> (r: Self)
        ensures
            r == OGRet::Initialized(maybe_valid),
            r.wf() == maybe_valid.wf(),
    {
        OGRet::Initialized(maybe_valid)
    }

    /// Wrap the bytes of an owned foreign-memory snapshot.
    pub fn from_og_copy(og_copy: OGCopy<T>) -> (r: Self)
        ensures
            r matches OGRet::Initialized(mv) && mv.bytes_spec() == og_copy.bytes_spec(),
            r.wf() == og_copy.wf(),
    {
        OGRet::Initialized(og_copy.into_inner())
    }

    /// Validate this return value as a value of type `T`, consuming it.
    ///
    /// A known-valid value is handed out directly; initialized bytes are
    /// handed out exactly when they form a legal pattern of `T`, and
    /// otherwise returned back unchanged.
    pub fn validate(self) -> (r: Result<T, Self>)
        requires
            self.wf(),
        ensures
            self matches OGRet::Valid(v) ==> r matches Ok(rv) && rv == v,
            self matches OGRet::Initialized(mv) ==> {
                &&& (r is Ok) <==> T::valid_pattern(mv.bytes_spec())
                &&& (r matches Ok(rv) ==> rv == T::decode_spec(mv.bytes_spec()))
            },
            r matches Err(c) ==> c == self,
    {
        match self {
            OGRet::Initialized(maybe_valid) => {
                if T::validate(maybe_valid.as_bytes()) {
                    Ok(T::decode(maybe_valid.as_bytes()))
                } else {
                    Err(OGRet::Initialized(maybe_valid))
                }
            },
            OGRet::Valid(val) => Ok(val),
        }
    }
}

impl<T: BitPatternValidate + Copy> OGRet<T> {
    /// Validate this return value as a value of type `T`, without consuming
    /// it.
    pub fn validate_ref(&self) -> (r: Option<T>)
        requires
            self.wf(),
        ensures
            self matches OGRet::Valid(v) ==> r matches Some(rv) && rv == v,
            self matches OGRet::Initialized(mv) ==> {
                &&& (r is Some) <==> T::valid_pattern(mv.bytes_spec())
                &&& (r matches Some(rv) ==> rv == T::decode_spec(mv.bytes_spec()))
            },
    {
        match self {
            OGRet::Initialized(maybe_valid) => {
                if T::validate(maybe_valid.as_bytes()) {
                    Some(T::decode(maybe_valid.as_bytes()))
                } else {
                    None
                }
            },
            OGRet::Valid(val) => Some(*val),
        }
    }
}

impl<T: AlwaysValid> OGRet<T> {
    /// Read this return value as a value of type `T`, consuming it.
    ///
    /// For types where every bit pattern is legal, this cannot fail.
    pub fn valid(self) -> (r: T)
        requires
            self.wf(),
        ensures
            self matches OGRet::Valid(v) ==> r == v,
            self matches OGRet::Initialized(mv) ==> r == T::decode_spec(mv.bytes_spec()),
    {
        match self {
            OGRet::Initialized(maybe_valid) => {
                proof {
                    T::lemma_always_valid(maybe_valid.bytes_spec());
                }
                T::decode(maybe_valid.as_bytes())
            },
            OGRet::Valid(val) => val,
        }
    }
}

impl<T: AlwaysValid + Copy> OGRet<T> {
    /// Read this return value as a value of type `T`, without consuming it.
    pub fn valid_ref(&self) -> (r: T)
        requires
            self.wf(),
        ensures
            self matches OGRet::Valid(v) ==> r == v,
            self matches OGRet::Initialized(mv) ==> r == T::decode_spec(mv.bytes_spec()),
    {
        match self {
            OGRet::Initialized(maybe_valid) => {
                proof {
                    T::lemma_always_valid(maybe_valid.bytes_spec());
                }
                T::decode(maybe_valid.as_bytes())
            },
            OGRet::Valid(val) => *val,
        }
    }
}

} // verus!
