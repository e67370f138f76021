//! Runtime-instance IDs.
//!
//! Many safety invariants of this crate are enforced by issuing affine marker
//! type instances ([`AllocScope`](crate::markers::AllocScope),
//! [`AccessScope`](crate::markers::AccessScope)), which are used to construct
//! a form of compile-time mutual exclusion (like ensuring that foreign memory
//! is not modified while dereferencable references exist into it).
//!
//! For this to work, each runtime instance must issue only a single instance
//! of each marker type, and only this instance may be used with the runtime
//! functions that rely on them. With multiple runtimes, each wrapping their
//! own library instance, this may not hold. For this reason, each runtime and
//! marker type is branded with an [`OGID`] generic argument. There are two
//! families of branding:
//!
//! - Lifetime branding ([`OGLifetimeBranding`]): each instance is generic
//!   over an anonymous, invariant lifetime, so the type system itself ensures
//!   that no runtime's marker types can be used with another runtime. Its
//!   imprints compare unconditionally equal, as two imprints of the same
//!   branded type can only originate from the same instance.
//!
//! - Counter branding ([`OGRuntimeBranding`]): multiple instances share one
//!   type, distinguished by a monotonically increasing counter that is
//!   compared at run time. This trades a little overhead for ergonomics
//!   (e.g., pooled runtime instances of the same type). The counter is a
//!   value the caller holds and threads through, in place of process-global
//!   state; distinctness of imprints is guaranteed among brandings drawn
//!   from the same counter.

use vstd::prelude::*;

use core::marker::PhantomData;

verus! {

/// An instance ID type.
///
/// An [`OGID`] must never be duplicated, i.e., it must be an affine type:
/// none of the types in this module are `Clone` or `Copy`, and they cannot be
/// constructed outside of it.
///
/// [`OGID::get_imprint`] produces an imprint of this ID instance, which is
/// not subject to those constraints: it can be freely duplicated. The
/// following must hold:
///
/// - for any [`OGID`] instance `A` and any two imprints `a_1` and `a_2` of
///   `A`, `a_1 == a_2`;
///
/// - for any two distinct [`OGID`] instances `A` and `B` of the same type
///   that supports multiple instances, an imprint of `A` and an imprint of
///   `B` are unequal.
///
/// The first constraint is captured by `get_imprint` returning the one value
/// `imprint_spec()` of the instance. The second holds for lifetime branding
/// by construction, since imprints of distinct instances have distinct
/// branded types and cannot be compared at all; for counter branding it
/// holds among brandings drawn from one [`OGRuntimeBrandingCounter`], which
/// never issues a counter value twice. A counter stands in for what would
/// otherwise be process-global state, so callers must draw every branding of
/// one family of instances from the same counter: brandings drawn from two
/// separate counters may carry equal imprints.
pub trait OGID: Sized {
    type Imprint: OGIDImprint;

    /// The one imprint value that every call of `get_imprint` returns.
    spec fn imprint_spec(&self) -> Self::Imprint;

    fn get_imprint(&self) -> (r: Self::Imprint)
        ensures
            r == self.imprint_spec(),
    ;
}

/// A freely copyable fingerprint of an [`OGID`] instance.
pub trait OGIDImprint: Sized + Copy {
    /// The numeric ID distinguishing the originating [`OGID`] instance among
    /// instances of the same type. Types that guarantee singleton-instance
    /// uniqueness by construction may use one fixed number.
    spec fn numeric_spec(&self) -> u64;

    /// Two imprints of one type are equal exactly when their numeric IDs
    /// are: the numeric ID carries all there is to an imprint.
    proof fn lemma_numeric_eq(a: Self, b: Self)
        ensures
            (a == b) <==> (a.numeric_spec() == b.numeric_spec()),
    ;

    /// Return the numeric ID of this imprint.
    fn numeric_id(&self) -> (r: u64)
        ensures
            r == self.numeric_spec(),
    ;

    /// Compare two imprints of the same [`OGID`] type.
    fn matches(&self, other: &Self) -> (r: bool)
        ensures
            r == (*self == *other),
    ;
}

/// Imprint reflexivity: any two imprints obtained from the same ID instance
/// are equal, since [`OGID::get_imprint`] always returns
/// [`OGID::imprint_spec`].
pub proof fn lemma_imprint_reflexivity<ID: OGID>(id: &ID, a: ID::Imprint, b: ID::Imprint)
    requires
        a == id.imprint_spec(),
        b == id.imprint_spec(),
    ensures
        a == b,
{
}

/// An ID branded by an invariant, anonymous lifetime.
///
/// [`OGLifetimeBranding::new`] runs a closure over a branding generic over a
/// fresh lifetime `'new_id`. Because the type is invariant over `'id`, no two
/// calls can produce brandings whose lifetimes subtype one another, so values
/// branded by different calls can never be mixed.
pub struct OGLifetimeBranding<'id>(PhantomData<&'id mut &'id ()>);

impl OGLifetimeBranding<'_> {
    pub fn new<R, F: for<'new_id> FnOnce(OGLifetimeBranding<'new_id>) -> R>(f: F) -> (r: R)
        requires
            forall|brand: OGLifetimeBranding<'_>| #[trigger] f.requires((brand,)),
        ensures
            exists|brand: OGLifetimeBranding<'_>| #[trigger] f.ensures((brand,), r),
    {
        f(OGLifetimeBranding(PhantomData))
    }
}

impl<'id> OGID for OGLifetimeBranding<'id> {
    type Imprint = OGLifetimeBrandingImprint<'id>;

    closed spec fn imprint_spec(&self) -> OGLifetimeBrandingImprint<'id> {
        OGLifetimeBrandingImprint(PhantomData)
    }

    fn get_imprint(&self) -> (r: OGLifetimeBrandingImprint<'id>) {
        OGLifetimeBrandingImprint(PhantomData)
    }
}

/// The imprint of a lifetime-branded ID. All imprints of one branded type
/// originate from the same instance, so comparison needs no runtime state.
#[derive(Debug, Clone, Copy)]
pub struct OGLifetimeBrandingImprint<'id>(PhantomData<&'id mut &'id ()>);

impl<'id> PartialEq for OGLifetimeBrandingImprint<'id> {
    fn eq(&self, _rhs: &OGLifetimeBrandingImprint<'id>) -> (r: bool) {
        // The imprint is invariant over `'id`: being handed two values of
        // identical type means they were issued from the same branded
        // lifetime, no runtime check required.
        true
    }
}

impl<'id> vstd::std_specs::cmp::PartialEqSpecImpl for OGLifetimeBrandingImprint<'id> {
    open spec fn obeys_eq_spec() -> bool {
        true
    }

    open spec fn eq_spec(&self, _rhs: &OGLifetimeBrandingImprint<'id>) -> bool {
        true
    }
}

impl<'id> Eq for OGLifetimeBrandingImprint<'id> {}

impl<'id> OGIDImprint for OGLifetimeBrandingImprint<'id> {
    open spec fn numeric_spec(&self) -> u64 {
        0
    }

    proof fn lemma_numeric_eq(a: Self, b: Self) {
    }

    fn numeric_id(&self) -> (r: u64) {
        0
    }

    fn matches(&self, _other: &Self) -> (r: bool) {
        true
    }
}

/// The state from which [`OGRuntimeBranding`] instances are drawn: a
/// monotonically increasing counter, held by the caller instead of in global
/// state, so that every draw is visibly tied to the counter it came from.
///
/// All brandings of one family of instances must be drawn from one counter:
/// only then are their imprints pairwise distinct. Two separate counters
/// issue overlapping values, as two imprints are told apart by their
/// numeric ID alone.
pub struct OGRuntimeBrandingCounter {
    next: u64,
}

impl OGRuntimeBrandingCounter {
    /// The counter value the next branding will carry.
    pub closed spec fn next_spec(&self) -> u64 {
        self.next
    }

    pub fn new() -> (r: Self)
        ensures
            r.next_spec() == 0,
    {
        OGRuntimeBrandingCounter { next: 0 }
    }
}

/// An ID branded by a runtime-compared counter value.
#[derive(Debug)]
pub struct OGRuntimeBranding(u64);

impl OGRuntimeBranding {
    /// The counter value this branding was drawn at.
    pub closed spec fn numeric_spec(&self) -> u64 {
        self.0
    }

    /// Draw a fresh branding from the counter.
    ///
    /// Every draw carries the counter value at the time of the draw and
    /// advances the counter, so no two draws from one counter carry the same
    /// value, which makes their imprints unequal.
    pub fn new(ctr: &mut OGRuntimeBrandingCounter) -> (r: Self)
        requires
            old(ctr).next_spec() < u64::MAX,
        ensures
            r.numeric_spec() == old(ctr).next_spec(),
            final(ctr).next_spec() == old(ctr).next_spec() + 1,
    {
        let id = ctr.next;
        ctr.next = ctr.next + 1;
        OGRuntimeBranding(id)
    }
}

impl OGID for OGRuntimeBranding {
    type Imprint = OGRuntimeBrandingImprint;

    closed spec fn imprint_spec(&self) -> OGRuntimeBrandingImprint {
        OGRuntimeBrandingImprint(self.numeric_spec())
    }

    fn get_imprint(&self) -> (r: OGRuntimeBrandingImprint) {
        OGRuntimeBrandingImprint(self.0)
    }
}

/// The imprint of a counter-branded ID: the counter value it was drawn at.
#[derive(Debug, Clone, Copy, PartialEq, Eq, Structural)]
pub struct OGRuntimeBrandingImprint(u64);

impl OGIDImprint for OGRuntimeBrandingImprint {
    closed spec fn numeric_spec(&self) -> u64 {
        self.0
    }

    proof fn lemma_numeric_eq(a: Self, b: Self) {
    }

    fn numeric_id(&self) -> (r: u64) {
        self.0
    }

    fn matches(&self, other: &Self) -> (r: bool) {
        self.0 == other.0
    }
}

/// Imprint distinctness for counter-branded IDs: brandings drawn at
/// different counter values carry unequal imprints.
pub proof fn lemma_counter_imprint_distinctness(a: &OGRuntimeBranding, b: &OGRuntimeBranding)
    requires
        a.numeric_spec() != b.numeric_spec(),
    ensures
        a.imprint_spec() != b.imprint_spec(),
{
}

} // verus!
