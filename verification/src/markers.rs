//! The scope capability marker types, [`AllocScope`] and [`AccessScope`].
//!
//! An `AllocScope` must be presented to create a foreign reference: it owns
//! an [`AllocTracker`] deciding which byte ranges are known-allocated. An
//! `AccessScope` must be presented to dereference one: a shared borrow of it
//! means foreign memory may be concurrently read, a unique borrow means no
//! other host reference into foreign memory may be used for its duration.
//!
//! In this crate, foreign memory itself is modeled explicitly: the
//! `AccessScope` owns the byte arena standing for the foreign instance's
//! memory, so that Rust's borrow discipline on the scope is literally the
//! access discipline on that memory. Addresses are plain offsets into the
//! arena.

use vstd::prelude::*;

use crate::alloc_tracker::AllocTracker;
use crate::id::{OGID, OGIDImprint};

verus! {

/// Capability proving that certain regions of foreign memory are currently
/// allocated, as decided by the owned tracker. It is narrowed when entering
/// a nested allocation or callback context and restored on return, modeling
/// a stack of live allocations.
pub struct AllocScope<T: AllocTracker, ID: OGID> {
    pub(crate) tracker: T,
    pub(crate) id_imprint: ID::Imprint,
}

impl<T: AllocTracker, ID: OGID> AllocScope<T, ID> {
    /// The tracker this scope carries.
    pub closed spec fn tracker_spec(&self) -> T {
        self.tracker
    }

    /// The imprint of the runtime instance this scope belongs to.
    pub closed spec fn id_imprint_spec(&self) -> ID::Imprint {
        self.id_imprint
    }

    /// Privileged constructor: only the runtime creates scopes.
    pub(crate) fn new(tracker: T, id_imprint: ID::Imprint) -> (r: Self)
        ensures
            r.tracker_spec() == tracker,
            r.id_imprint_spec() == id_imprint,
    {
        AllocScope { tracker, id_imprint }
    }

    /// Borrow the tracker, to consult which ranges are allocated.
    pub fn tracker(&self) -> (r: &T)
        ensures
            *r == self.tracker_spec(),
    {
        &self.tracker
    }

    /// Borrow the tracker for narrowing; only the runtime's own operations
    /// restore the stacking discipline afterwards.
    pub fn tracker_mut(&mut self) -> (r: &mut T)
        ensures
            *r == old(self).tracker_spec(),
            final(self).tracker_spec() == *final(r),
            final(self).id_imprint_spec() == old(self).id_imprint_spec(),
    {
        &mut self.tracker
    }

    /// Return the imprint of the runtime instance this scope belongs to.
    pub fn id_imprint(&self) -> (r: ID::Imprint)
        ensures
            r == self.id_imprint_spec(),
    {
        self.id_imprint
    }
}

/// Capability governing access to foreign memory. It owns the byte arena
/// standing for the foreign instance's memory: reading a range takes a
/// shared borrow, writing takes a unique borrow, so the borrow discipline
/// on this scope is the access-exclusivity mechanism.
pub struct AccessScope<ID: OGID> {
    pub(crate) id_imprint: ID::Imprint,
    pub(crate) memory: Vec<u8>,
}

impl<ID: OGID> AccessScope<ID> {
    /// The imprint of the runtime instance this scope belongs to.
    pub closed spec fn id_imprint_spec(&self) -> ID::Imprint {
        self.id_imprint
    }

    /// The current contents of the foreign instance's memory.
    pub closed spec fn mem_spec(&self) -> Seq<u8> {
        self.memory@
    }

    /// Privileged constructor: only the runtime creates scopes.
    pub(crate) fn new(id_imprint: ID::Imprint, memory: Vec<u8>) -> (r: Self)
        ensures
            r.id_imprint_spec() == id_imprint,
            r.mem_spec() == memory@,
    {
        AccessScope { id_imprint, memory }
    }

    /// Return the imprint of the runtime instance this scope belongs to.
    pub fn id_imprint(&self) -> (r: ID::Imprint)
        ensures
            r == self.id_imprint_spec(),
    {
        self.id_imprint
    }

    /// The size of the foreign instance's memory.
    pub fn mem_len(&self) -> (r: usize)
        ensures
            r == self.mem_spec().len(),
    {
        self.memory.len()
    }

    /// Copy out the byte range `[addr, addr + len)` of foreign memory.
    pub(crate) fn read_bytes(&self, addr: usize, len: usize) -> (r: Vec<u8>)
        requires
            addr + len <= self.mem_spec().len(),
        ensures
            r@ == self.mem_spec().subrange(addr as int, addr + len),
    {
        let mem_len = self.memory.len();
        let mut out: Vec<u8> = Vec::new();
        let mut i: usize = 0;
        while i < len
            invariant
                i <= len,
                mem_len == self.mem_spec().len(),
                addr + len <= mem_len,
                out@ == self.mem_spec().subrange(addr as int, addr + i),
            decreases len - i,
        {
            out.push(self.memory[addr + i]);
            i = i + 1;
            proof {
                assert(out@ =~= self.mem_spec().subrange(addr as int, addr + i));
            }
        }
        out
    }

    /// Overwrite the byte range starting at `addr` with `bytes`, leaving the
    /// rest of foreign memory unchanged.
    pub(crate) fn write_bytes(&mut self, addr: usize, bytes: &[u8])
        requires
            addr + bytes@.len() <= old(self).mem_spec().len(),
        ensures
            final(self).id_imprint_spec() == old(self).id_imprint_spec(),
            final(self).mem_spec().len() == old(self).mem_spec().len(),
            forall|j: int|
                0 <= j < old(self).mem_spec().len() && !(addr <= j < addr + bytes@.len())
                    ==> final(self).mem_spec()[j] == old(self).mem_spec()[j],
            forall|j: int| 0 <= j < bytes@.len() ==> final(self).mem_spec()[addr + j] == bytes@[j],
    {
        let len = bytes.len();
        let mem_len = self.memory.len();
        let mut i: usize = 0;
        while i < len
            invariant
                i <= len,
                len == bytes@.len(),
                mem_len == self.mem_spec().len(),
                addr + len <= mem_len,
                self.id_imprint_spec() == old(self).id_imprint_spec(),
                self.mem_spec().len() == old(self).mem_spec().len(),
                forall|j: int|
                    0 <= j < self.mem_spec().len() && !(addr <= j < addr + i)
                        ==> self.mem_spec()[j] == old(self).mem_spec()[j],
                forall|j: int| 0 <= j < i ==> self.mem_spec()[addr + j] == bytes@[j],
            decreases len - i,
        {
            self.memory[addr + i] = bytes[i];
            i = i + 1;
        }
    }
}

/// Crate-internal: the spec accessors of `AllocScope` read its fields.
pub(crate) proof fn lemma_alloc_scope_parts<T: AllocTracker, ID: OGID>(s: &AllocScope<T, ID>)
    ensures
        s.tracker_spec() == s.tracker,
        s.id_imprint_spec() == s.id_imprint,
{
}

/// Helper checking the imprint stored in a reference type against the
/// imprint of a presented `AllocScope`.
pub fn check_alloc_scope_imprint<ID: OGID, R: AllocTracker>(
    ref_imprint: ID::Imprint,
    alloc_scope: &AllocScope<R, ID>,
) -> (r: bool)
    ensures
        r == (ref_imprint == alloc_scope.id_imprint_spec()),
{
    ref_imprint.matches(&alloc_scope.id_imprint)
}

/// Helper checking the imprint stored in a reference type against the
/// imprint of a presented `AccessScope`.
pub fn check_access_scope_imprint<ID: OGID>(
    ref_imprint: ID::Imprint,
    access_scope: &AccessScope<ID>,
) -> (r: bool)
    ensures
        r == (ref_imprint == access_scope.id_imprint_spec()),
{
    ref_imprint.matches(&access_scope.id_imprint)
}

/// Helper checking the imprint stored in a reference type against the
/// imprints of both a presented `AllocScope` and `AccessScope`.
pub fn check_scopes_imprint<ID: OGID, R: AllocTracker>(
    ref_imprint: ID::Imprint,
    alloc_scope: &AllocScope<R, ID>,
    access_scope: &AccessScope<ID>,
) -> (r: bool)
    ensures
        r == (ref_imprint == alloc_scope.id_imprint_spec() && ref_imprint
            == access_scope.id_imprint_spec()),
{
    if ref_imprint.matches(&alloc_scope.id_imprint) {
        ref_imprint.matches(&access_scope.id_imprint)
    } else {
        false
    }
}

} // verus!
