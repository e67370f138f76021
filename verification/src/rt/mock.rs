//! The mock runtime: a reference backend usable without real isolation
//! hardware.
//!
//! Foreign memory is an explicit byte arena, and allocation and callback
//! scopes form an explicit chain of frames that is walked to decide
//! validity and to dispatch callbacks. Nested allocations follow a stack
//! discipline: entering narrows the scope's chain by one frame, returning
//! restores it.
//!
//! The mock runtime never transfers control to real foreign code; callback
//! dispatch is driven by the host through an explicit context, standing in
//! for a foreign call of the registered trampoline.

use vstd::prelude::*;

use crate::OGError;
use crate::OGResult;
use crate::abi::GenericABI;
use crate::alloc_tracker::AllocTracker;
use crate::bit_pattern_validate::BitPatternValidate;
use crate::foreign_memory::og_mut_ref::OGMutRef;
use crate::foreign_memory::og_mut_slice::OGMutSlice;
use crate::foreign_memory::og_ref::OGRef;
use crate::foreign_memory::og_slice::OGSlice;
use crate::id::OGID;
use crate::markers::{
    AccessScope,
    AllocScope,
    check_access_scope_imprint,
    check_alloc_scope_imprint,
    lemma_alloc_scope_parts,
};
use crate::rt::{CallbackContext, CallbackReturn, OGRuntime};

verus! {

/// The number of callback slots the mock runtime offers: the trampoline
/// pool it models has one trampoline per callback identifier.
pub const MOCK_RT_CALLBACK_SLOTS: usize = 512;

/// One tracked allocation of foreign memory.
#[derive(Clone, Copy, Debug)]
pub struct MockRtAllocation {
    pub(crate) ptr: usize,
    pub(crate) len: usize,
    pub(crate) mutable: bool,
}

impl MockRtAllocation {
    /// The first address of the allocation.
    pub closed spec fn ptr_spec(&self) -> int {
        self.ptr as int
    }

    /// The byte length of the allocation.
    pub closed spec fn len_spec(&self) -> int {
        self.len as int
    }

    /// Whether the allocation is writable by the host.
    pub closed spec fn mutable_spec(&self) -> bool {
        self.mutable
    }

    /// The first address past the allocation.
    pub open spec fn end_spec(&self) -> int {
        self.ptr_spec() + self.len_spec()
    }

    /// Whether the range `[ptr, ptr + len)` lies within this allocation,
    /// writable if demanded.
    pub open spec fn matches_spec(&self, ptr: int, len: int, mutable: bool) -> bool {
        &&& self.ptr_spec() <= ptr
        &&& ptr + len <= self.end_spec()
        &&& (!mutable || self.mutable_spec())
    }

    /// Decide whether the range `[ptr, ptr + len)` lies within this
    /// allocation, writable if demanded.
    pub fn matches(&self, ptr: usize, len: usize, mutable: bool) -> (r: bool)
        ensures
            r == self.matches_spec(ptr as int, len as int, mutable),
    {
        ptr >= self.ptr && (ptr as u128) + (len as u128) <= (self.ptr as u128) + (
        self.len as u128) && (!mutable || self.mutable)
    }
}

/// One frame of the allocation chain: a tracked allocation, or a
/// registered callback identifier.
pub enum MockRtAllocChainFrame {
    Allocation(MockRtAllocation),
    Callback(usize),
}

/// The mock runtime's allocation tracker: a base (optionally treating the
/// whole arena as valid, for unmodeled foreign-side allocation) and a stack
/// of frames for nested allocations and registered callbacks.
pub struct MockRtAllocChain {
    pub(crate) base_all_valid: bool,
    pub(crate) mem_size: usize,
    pub(crate) frames: Vec<MockRtAllocChainFrame>,
}

impl MockRtAllocChain {
    /// Whether the base frame treats the whole arena as valid.
    pub closed spec fn base_spec(&self) -> bool {
        self.base_all_valid
    }

    /// The size of the foreign instance's memory.
    pub closed spec fn mem_size_spec(&self) -> int {
        self.mem_size as int
    }

    /// The stack of frames, oldest first.
    pub closed spec fn frames_spec(&self) -> Seq<MockRtAllocChainFrame> {
        self.frames@
    }

    /// The first address above every allocation tracked in `frames`: the
    /// next stacked allocation starts at or above it.
    pub open spec fn high_mark_rec(frames: Seq<MockRtAllocChainFrame>) -> int
        decreases frames.len(),
    {
        if frames.len() == 0 {
            0
        } else {
            let rest = Self::high_mark_rec(frames.drop_last());
            match frames.last() {
                MockRtAllocChainFrame::Allocation(a) => if a.end_spec() > rest {
                    a.end_spec()
                } else {
                    rest
                },
                MockRtAllocChainFrame::Callback(_) => rest,
            }
        }
    }

    /// The first address above every allocation this chain tracks.
    pub open spec fn high_mark(&self) -> int {
        Self::high_mark_rec(self.frames_spec())
    }

    /// The stack discipline of `frames` over a memory of `mem_size` bytes:
    /// every allocation starts at or above the allocations below it and
    /// ends within the memory.
    pub open spec fn wf_rec(frames: Seq<MockRtAllocChainFrame>, mem_size: int) -> bool
        decreases frames.len(),
    {
        if frames.len() == 0 {
            true
        } else {
            Self::wf_rec(frames.drop_last(), mem_size) && match frames.last() {
                MockRtAllocChainFrame::Allocation(a) => a.ptr_spec() >= Self::high_mark_rec(
                    frames.drop_last(),
                ) && a.end_spec() <= mem_size,
                MockRtAllocChainFrame::Callback(_) => true,
            }
        }
    }

    /// Well-formedness: the frames follow the stack discipline within the
    /// arena. Established by [`MockRt::new`] and preserved by every runtime
    /// operation.
    pub open spec fn wf(&self) -> bool {
        Self::wf_rec(self.frames_spec(), self.mem_size_spec())
    }

    /// Whether one frame is an allocation covering the range
    /// `[ptr, ptr + len)` within a memory of `mem_size` bytes, writable if
    /// demanded.
    pub open spec fn frame_covers(
        frame: MockRtAllocChainFrame,
        ptr: int,
        len: int,
        mutable: bool,
        mem_size: int,
    ) -> bool {
        &&& frame matches MockRtAllocChainFrame::Allocation(a)
        &&& a.matches_spec(ptr, len, mutable)
        &&& a.end_spec() <= mem_size
    }

    /// Whether some allocation frame covers the range `[ptr, ptr + len)`
    /// within the arena, writable if demanded.
    pub open spec fn covered_spec(&self, ptr: int, len: int, mutable: bool) -> bool {
        exists|k: int|
            0 <= k < self.frames_spec().len() && #[trigger] Self::frame_covers(
                self.frames_spec()[k],
                ptr,
                len,
                mutable,
                self.mem_size_spec(),
            )
    }

    /// Whether the chain records the callback identifier `id`.
    pub open spec fn has_callback_spec(&self, id: int) -> bool {
        exists|k: int|
            0 <= k < self.frames_spec().len() && #[trigger] self.frames_spec()[k]
                == MockRtAllocChainFrame::Callback(id as usize)
    }

    /// The callback identifier the next registration will use: one above
    /// the most recently registered callback, or zero.
    pub open spec fn next_callback_id_rec(frames: Seq<MockRtAllocChainFrame>) -> int
        decreases frames.len(),
    {
        if frames.len() == 0 {
            0
        } else {
            match frames.last() {
                MockRtAllocChainFrame::Callback(id) => id + 1,
                MockRtAllocChainFrame::Allocation(_) => Self::next_callback_id_rec(
                    frames.drop_last(),
                ),
            }
        }
    }

    /// The callback identifier the next registration will use.
    pub open spec fn next_callback_id_spec(&self) -> int {
        Self::next_callback_id_rec(self.frames_spec())
    }

    /// Walk the chain for an allocation frame covering `[ptr, ptr + len)`.
    fn is_valid_int(&self, ptr: usize, len: usize, mutable: bool) -> (r: bool)
        ensures
            r == (self.covered_spec(ptr as int, len as int, mutable) || (self.base_spec() && ptr
                + len <= self.mem_size_spec())),
    {
        if self.base_all_valid && (ptr as u128) + (len as u128) <= (self.mem_size as u128) {
            return true;
        }
        let n = self.frames.len();
        let mut k: usize = 0;
        while k < n
            invariant
                k <= n,
                n == self.frames_spec().len(),
                forall|j: int|
                    0 <= j < k ==> !(#[trigger] Self::frame_covers(
                        self.frames_spec()[j],
                        ptr as int,
                        len as int,
                        mutable,
                        self.mem_size_spec(),
                    )),
            decreases n - k,
        {
            match &self.frames[k] {
                MockRtAllocChainFrame::Allocation(a) => {
                    if a.matches(ptr, len, mutable) && (a.ptr as u128) + (a.len as u128) <= (
                    self.mem_size as u128) {
                        proof {
                            assert(Self::frame_covers(
                                self.frames_spec()[k as int],
                                ptr as int,
                                len as int,
                                mutable,
                                self.mem_size_spec(),
                            ));
                        }
                        return true;
                    }
                },
                MockRtAllocChainFrame::Callback(_) => {},
            }
            k = k + 1;
        }
        false
    }

    /// Decide the callback identifier the next registration will use.
    fn next_callback_id(&self) -> (r: Option<usize>)
        ensures
            self.next_callback_id_spec() <= usize::MAX ==> r == Some(
                self.next_callback_id_spec() as usize,
            ),
            self.next_callback_id_spec() > usize::MAX ==> r is None,
    {
        let n = self.frames.len();
        let mut k: usize = n;
        proof {
            assert(self.frames_spec().take(n as int) =~= self.frames_spec());
        }
        while k > 0
            invariant
                k <= n,
                n == self.frames_spec().len(),
                Self::next_callback_id_rec(self.frames_spec()) == Self::next_callback_id_rec(
                    self.frames_spec().take(k as int),
                ),
            decreases k,
        {
            proof {
                assert(self.frames_spec().take(k as int).drop_last() =~= self.frames_spec().take(
                    k - 1,
                ));
                assert(self.frames_spec().take(k as int).last() == self.frames_spec()[k - 1]);
            }
            match &self.frames[k - 1] {
                MockRtAllocChainFrame::Callback(id) => {
                    return (*id).checked_add(1);
                },
                MockRtAllocChainFrame::Allocation(_) => {},
            }
            k = k - 1;
        }
        proof {
            assert(self.frames_spec().take(0) =~= Seq::<MockRtAllocChainFrame>::empty());
        }
        Some(0)
    }

    /// Walk the chain for the callback identifier `id`.
    fn find_callback(&self, id: usize) -> (r: bool)
        ensures
            r == self.has_callback_spec(id as int),
    {
        let n = self.frames.len();
        let mut k: usize = 0;
        while k < n
            invariant
                k <= n,
                n == self.frames_spec().len(),
                forall|j: int|
                    0 <= j < k ==> #[trigger] self.frames_spec()[j]
                        != MockRtAllocChainFrame::Callback(id),
            decreases n - k,
        {
            match &self.frames[k] {
                MockRtAllocChainFrame::Callback(frame_id) => {
                    if *frame_id == id {
                        return true;
                    }
                },
                MockRtAllocChainFrame::Allocation(_) => {},
            }
            k = k + 1;
        }
        false
    }
}

/// The smallest multiple of `align` at or above `x`: where the next
/// stacked allocation of that alignment is placed.
pub open spec fn align_up(x: int, align: int) -> int
    recommends
        align >= 1,
{
    ((x + align - 1) / align) * align
}

/// The stack discipline holds of every prefix of the frames.
proof fn lemma_wf_prefix(frames: Seq<MockRtAllocChainFrame>, mem_size: int, k: int)
    requires
        MockRtAllocChain::wf_rec(frames, mem_size),
        0 <= k <= frames.len(),
    ensures
        MockRtAllocChain::wf_rec(frames.take(k), mem_size),
    decreases frames.len() - k,
{
    if k == frames.len() {
        assert(frames.take(k) =~= frames);
    } else {
        lemma_wf_prefix(frames, mem_size, k + 1);
        assert(frames.take(k + 1).drop_last() =~= frames.take(k));
    }
}

/// Under the stack discipline, the high mark lies within the memory.
proof fn lemma_high_mark_bounds(frames: Seq<MockRtAllocChainFrame>, mem_size: int)
    requires
        MockRtAllocChain::wf_rec(frames, mem_size),
        mem_size >= 0,
    ensures
        0 <= MockRtAllocChain::high_mark_rec(frames) <= mem_size,
    decreases frames.len(),
{
    if frames.len() > 0 {
        lemma_high_mark_bounds(frames.drop_last(), mem_size);
    }
}

/// Rounding up to an alignment never moves an address down.
proof fn lemma_align_up_ge(x: int, align: int)
    requires
        x >= 0,
        align >= 1,
    ensures
        align_up(x, align) >= x,
{
    vstd::arithmetic::div_mod::lemma_remainder_upper(x + align - 1, align);
}

/// Callback identifiers are counted up from zero.
proof fn lemma_next_callback_id_nonneg(frames: Seq<MockRtAllocChainFrame>)
    ensures
        MockRtAllocChain::next_callback_id_rec(frames) >= 0,
    decreases frames.len(),
{
    if frames.len() > 0 {
        lemma_next_callback_id_nonneg(frames.drop_last());
    }
}

/// Every tracked allocation ends at or below the high mark.
proof fn lemma_alloc_end_le_high_mark(frames: Seq<MockRtAllocChainFrame>, k: int)
    requires
        0 <= k < frames.len(),
    ensures
        frames[k] matches MockRtAllocChainFrame::Allocation(a) ==> a.end_spec()
            <= MockRtAllocChain::high_mark_rec(frames),
    decreases frames.len(),
{
    if k == frames.len() - 1 {
    } else {
        lemma_alloc_end_le_high_mark(frames.drop_last(), k);
        assert(frames.drop_last()[k] == frames[k]);
    }
}

impl MockRtAllocChain {
    /// Compute the first free address above all tracked allocations.
    fn compute_high_mark(&self) -> (r: usize)
        requires
            self.wf(),
        ensures
            r as int == self.high_mark(),
    {
        let n = self.frames.len();
        let mut hm: usize = 0;
        let mut k: usize = 0;
        proof {
            assert(self.frames_spec().take(0) =~= Seq::<MockRtAllocChainFrame>::empty());
        }
        while k < n
            invariant
                k <= n,
                n == self.frames_spec().len(),
                self.wf(),
                hm as int == Self::high_mark_rec(self.frames_spec().take(k as int)),
            decreases n - k,
        {
            proof {
                lemma_wf_prefix(self.frames_spec(), self.mem_size_spec(), k + 1);
                assert(self.frames_spec().take(k + 1).drop_last() =~= self.frames_spec().take(
                    k as int,
                ));
                assert(self.frames_spec().take(k + 1).last() == self.frames_spec()[k as int]);
            }
            match &self.frames[k] {
                MockRtAllocChainFrame::Allocation(a) => {
                    let end = a.ptr + a.len;
                    if end > hm {
                        hm = end;
                    }
                },
                MockRtAllocChainFrame::Callback(_) => {},
            }
            k = k + 1;
        }
        proof {
            assert(self.frames_spec().take(n as int) =~= self.frames_spec());
        }
        hm
    }
}

/// What a successful stacked allocation establishes: the new chain extends
/// the old one by a single frame tracking a fresh, aligned region of `size`
/// bytes placed at `addr`, directly above everything already stacked.
pub open spec fn stacked_allocation_post(
    old_tr: MockRtAllocChain,
    new_tr: MockRtAllocChain,
    addr: int,
    size: int,
    align: int,
    mutable: bool,
) -> bool {
    &&& addr == align_up(old_tr.high_mark(), align)
    &&& addr % align == 0
    &&& old_tr.high_mark() <= addr
    &&& addr + size <= old_tr.mem_size_spec()
    &&& new_tr.wf()
    &&& new_tr.base_spec() == old_tr.base_spec()
    &&& new_tr.mem_size_spec() == old_tr.mem_size_spec()
    &&& new_tr.high_mark() == addr + size
    &&& new_tr.next_callback_id_spec() == old_tr.next_callback_id_spec()
    &&& new_tr.frames_spec().len() == old_tr.frames_spec().len() + 1
    &&& new_tr.frames_spec().take(old_tr.frames_spec().len() as int) == old_tr.frames_spec()
    &&& new_tr.frames_spec().last() matches MockRtAllocChainFrame::Allocation(a)
        && a.ptr_spec() == addr && a.len_spec() == size && a.mutable_spec() == mutable
    &&& forall|p: int, l: int|
        addr <= p && 0 <= l && p + l <= addr + size ==> #[trigger] new_tr.valid_spec(p, l) && (
        mutable ==> new_tr.valid_mut_spec(p, l))
    &&& forall|p: int, l: int, m: bool|
        old_tr.covered_spec(p, l, m) ==> #[trigger] new_tr.covered_spec(p, l, m)
    &&& (size > 0 && !old_tr.base_spec() ==> !old_tr.valid_spec(addr, size))
    &&& (size > 0 && !old_tr.base_spec() && !mutable ==> !new_tr.valid_mut_spec(addr, size))
}

/// Allocation-chain scoping: a stacked allocation is seen by the narrowed
/// chain handed to the nested context, and was not seen by the outer chain
/// it extends (unless the base treats everything as valid); restoring the
/// outer chain drops it again, so references into the region are valid
/// only while the nested context lasts.
pub proof fn lemma_allocation_chain_scoping(
    outer: MockRtAllocChain,
    inner: MockRtAllocChain,
    addr: int,
    size: int,
    align: int,
    mutable: bool,
)
    requires
        stacked_allocation_post(outer, inner, addr, size, align, mutable),
        size > 0,
        !outer.base_spec(),
    ensures
        inner.valid_spec(addr, size),
        !outer.valid_spec(addr, size),
        inner.frames_spec().drop_last() == outer.frames_spec(),
{
    assert(inner.valid_spec(addr, size));
    assert(inner.frames_spec().drop_last() =~= outer.frames_spec());
}

/// The mock runtime: tracks the instance imprint, owns no memory itself
/// (the arena lives in the instance's [`AccessScope`]), and performs
/// stacked allocation and callback registration on the instance's
/// [`AllocScope`].
pub struct MockRt<ID: OGID> {
    pub(crate) zero_copy_immutable: bool,
    pub(crate) id_imprint: ID::Imprint,
}

impl<ID: OGID> MockRt<ID> {
    /// The imprint of the instance this runtime manages.
    pub closed spec fn rt_imprint_spec(&self) -> ID::Imprint {
        self.id_imprint
    }

    /// Whether values written for foreign reading are tracked as immutable
    /// regions, more closely simulating a runtime with memory protection.
    pub closed spec fn zero_copy_immutable_spec(&self) -> bool {
        self.zero_copy_immutable
    }

    /// Create a mock runtime instance with a fresh, zeroed foreign memory
    /// of `mem_size` bytes, handing out the instance's one `AllocScope` and
    /// one `AccessScope`, all branded with `branding`'s imprint.
    ///
    /// With `all_upgrades_valid`, the base of the allocation chain treats
    /// the whole arena as valid, standing in for unmodeled foreign-side
    /// allocation; otherwise only stacked allocations can be upgraded.
    pub fn new(
        zero_copy_immutable: bool,
        all_upgrades_valid: bool,
        mem_size: usize,
        branding: ID,
    ) -> (r: (Self, AllocScope<MockRtAllocChain, ID>, AccessScope<ID>))
        ensures
            r.0.rt_imprint_spec() == branding.imprint_spec(),
            r.0.zero_copy_immutable_spec() == zero_copy_immutable,
            r.1.id_imprint_spec() == branding.imprint_spec(),
            r.1.tracker_spec().wf(),
            r.1.tracker_spec().base_spec() == all_upgrades_valid,
            r.1.tracker_spec().mem_size_spec() == mem_size as int,
            r.1.tracker_spec().frames_spec().len() == 0,
            r.1.tracker_spec().next_callback_id_spec() == 0,
            r.1.tracker_spec().high_mark() == 0,
            r.2.id_imprint_spec() == branding.imprint_spec(),
            r.2.mem_spec() == Seq::new(mem_size as nat, |i: int| 0u8),
    {
        let imprint = branding.get_imprint();
        let chain = MockRtAllocChain {
            base_all_valid: all_upgrades_valid,
            mem_size,
            frames: Vec::new(),
        };
        let memory: Vec<u8> = vec![0u8; mem_size];
        proof {
            assert(memory@ =~= Seq::new(mem_size as nat, |i: int| 0u8));
        }
        (
            MockRt { zero_copy_immutable, id_imprint: imprint },
            AllocScope::new(chain, imprint),
            AccessScope::new(imprint, memory),
        )
    }

    /// Allocate a region of `size` bytes aligned to `align` at the top of
    /// the allocation stack, narrowing the scope's chain by one frame whose
    /// writability is `mutable`.
    #[verifier::rlimit(50)]
    pub(crate) fn allocate_stacked_record(
        &self,
        size: usize,
        align: usize,
        mutable: bool,
        alloc_scope: &mut AllocScope<MockRtAllocChain, ID>,
    ) -> (r: OGResult<usize>)
        requires
            old(alloc_scope).tracker_spec().wf(),
        ensures
            final(alloc_scope).id_imprint_spec() == old(alloc_scope).id_imprint_spec(),
            (r is Ok) <==> (self.rt_imprint_spec() == old(alloc_scope).id_imprint_spec() && size
                > 0 && align > 0 && align_up(old(alloc_scope).tracker_spec().high_mark(),
            align as int) + size <= old(alloc_scope).tracker_spec().mem_size_spec()),
            r matches Err(e) ==> final(alloc_scope).tracker_spec().frames_spec() == old(
                alloc_scope,
            ).tracker_spec().frames_spec() && final(alloc_scope).tracker_spec().base_spec() == old(
                alloc_scope,
            ).tracker_spec().base_spec() && final(alloc_scope).tracker_spec().mem_size_spec()
                == old(alloc_scope).tracker_spec().mem_size_spec() && (e == OGError::IDMismatch
                || e == OGError::AllocInvalidLayout || e == OGError::AllocNoMem),
            r matches Err(e) ==> (self.rt_imprint_spec() != old(alloc_scope).id_imprint_spec()
                ==> e == OGError::IDMismatch),
            r matches Err(e) ==> (self.rt_imprint_spec() == old(alloc_scope).id_imprint_spec() && (
            size == 0 || align == 0) ==> e == OGError::AllocInvalidLayout),
            r matches Err(e) ==> (self.rt_imprint_spec() == old(alloc_scope).id_imprint_spec()
                && size > 0 && align > 0 ==> e == OGError::AllocNoMem),
            r matches Ok(addr) ==> stacked_allocation_post(
                old(alloc_scope).tracker_spec(),
                final(alloc_scope).tracker_spec(),
                addr as int,
                size as int,
                align as int,
                mutable,
            ),
    {
        if !check_alloc_scope_imprint::<ID, MockRtAllocChain>(self.id_imprint, alloc_scope) {
            return Err(OGError::IDMismatch);
        }
        if size == 0 || align == 0 {
            return Err(OGError::AllocInvalidLayout);
        }
        proof {
            lemma_alloc_scope_parts(alloc_scope);
        }
        let hm = alloc_scope.tracker.compute_high_mark();
        let mem_size = alloc_scope.tracker.mem_size;
        let hm_w = hm as u128;
        let align_w = align as u128;
        let q = (hm_w + align_w - 1) / align_w;
        proof {
            let x = (hm_w + align_w - 1) as int;
            let d = align_w as int;
            vstd::arithmetic::div_mod::lemma_remainder_lower(x, d);
            vstd::arithmetic::div_mod::lemma_remainder_upper(x, d);
            assert(q as int == x / d);
            assert((q as int) * d <= x);
            assert((q as int) * d > x - d);
        }
        let addr_w = q * align_w;
        if addr_w + (size as u128) > (mem_size as u128) {
            return Err(OGError::AllocNoMem);
        }
        proof {
            assert(addr_w <= usize::MAX as u128);
        }
        let addr = addr_w as usize;
        proof {
            vstd::arithmetic::div_mod::lemma_mod_multiples_basic(q as int, align_w as int);
        }
        let ghost old_frames = alloc_scope.tracker.frames_spec();
        let ghost old_tr = alloc_scope.tracker_spec();
        let record = MockRtAllocation { ptr: addr, len: size, mutable };
        alloc_scope.tracker.frames.push(MockRtAllocChainFrame::Allocation(record));
        proof {
            lemma_alloc_scope_parts(alloc_scope);
            let new_tr = alloc_scope.tracker_spec();
            let new_frames = new_tr.frames_spec();
            assert(new_frames.drop_last() =~= old_frames);
            assert(new_frames.take(old_frames.len() as int) =~= old_frames);
            assert(new_tr.wf());
            assert(new_tr.high_mark() == addr + size);
            assert forall|p: int, l: int| addr <= p && 0 <= l && p + l <= addr + size implies
                #[trigger] new_tr.valid_spec(p, l) && (mutable ==> new_tr.valid_mut_spec(
                p,
                l,
            )) by {
                let k = new_frames.len() - 1;
                assert(MockRtAllocChain::frame_covers(
                    new_frames[k],
                    p,
                    l,
                    false,
                    new_tr.mem_size_spec(),
                ));
                if mutable {
                    assert(MockRtAllocChain::frame_covers(
                        new_frames[k],
                        p,
                        l,
                        true,
                        new_tr.mem_size_spec(),
                    ));
                }
            }
            assert forall|p: int, l: int, m: bool| old_tr.covered_spec(p, l, m) implies
                #[trigger] new_tr.covered_spec(p, l, m) by {
                let k = choose|k: int|
                    0 <= k < old_tr.frames_spec().len() && #[trigger] MockRtAllocChain::frame_covers(
                        old_tr.frames_spec()[k],
                        p,
                        l,
                        m,
                        old_tr.mem_size_spec(),
                    );
                assert(MockRtAllocChain::frame_covers(
                    new_frames[k],
                    p,
                    l,
                    m,
                    new_tr.mem_size_spec(),
                ));
            }
            if size > 0 && !old_tr.base_spec() && old_tr.valid_spec(addr as int, size as int) {
                let k = choose|k: int|
                    0 <= k < old_tr.frames_spec().len() && #[trigger] MockRtAllocChain::frame_covers(
                        old_tr.frames_spec()[k],
                        addr as int,
                        size as int,
                        false,
                        old_tr.mem_size_spec(),
                    );
                lemma_alloc_end_le_high_mark(old_tr.frames_spec(), k);
                assert(false);
            }
            assert(new_frames.last() == MockRtAllocChainFrame::Allocation(record));
            if size > 0 && !old_tr.base_spec() && !mutable && new_tr.valid_mut_spec(
                addr as int,
                size as int,
            ) {
                // The fresh frame is not writable, and no older frame covers
                // the fresh region either.
                let k = choose|k: int|
                    0 <= k < new_frames.len() && #[trigger] MockRtAllocChain::frame_covers(
                        new_frames[k],
                        addr as int,
                        size as int,
                        true,
                        new_tr.mem_size_spec(),
                    );
                assert(k < new_frames.len() - 1);
                assert(MockRtAllocChain::frame_covers(
                    old_tr.frames_spec()[k],
                    addr as int,
                    size as int,
                    false,
                    old_tr.mem_size_spec(),
                ));
                lemma_alloc_end_le_high_mark(old_tr.frames_spec(), k);
                assert(false);
            }
            assert(stacked_allocation_post(
                old_tr,
                alloc_scope.tracker_spec(),
                addr as int,
                size as int,
                align as int,
                mutable,
            ));
        }
        Ok(addr)
    }

    /// Allocate a scratch region of `size` bytes aligned to `align`, valid
    /// until the matching [`MockRt::restore_stacked`]: the scope's chain is
    /// narrowed by one writable allocation frame whose region is fresh, and
    /// the address handed back is the region's start.
    ///
    /// Fails with `IDMismatch` for a scope of another instance, with
    /// `AllocInvalidLayout` for an empty region or a zero alignment, and
    /// with `AllocNoMem` when the region does not fit above the allocations
    /// already stacked.
    pub fn allocate_stacked_mut(
        &self,
        size: usize,
        align: usize,
        alloc_scope: &mut AllocScope<MockRtAllocChain, ID>,
    ) -> (r: OGResult<usize>)
        requires
            old(alloc_scope).tracker_spec().wf(),
        ensures
            final(alloc_scope).id_imprint_spec() == old(alloc_scope).id_imprint_spec(),
            (r is Ok) <==> (self.rt_imprint_spec() == old(alloc_scope).id_imprint_spec() && size
                > 0 && align > 0 && align_up(old(alloc_scope).tracker_spec().high_mark(),
            align as int) + size <= old(alloc_scope).tracker_spec().mem_size_spec()),
            r matches Err(e) ==> final(alloc_scope).tracker_spec().frames_spec() == old(
                alloc_scope,
            ).tracker_spec().frames_spec() && final(alloc_scope).tracker_spec().base_spec() == old(
                alloc_scope,
            ).tracker_spec().base_spec() && final(alloc_scope).tracker_spec().mem_size_spec()
                == old(alloc_scope).tracker_spec().mem_size_spec() && (e == OGError::IDMismatch
                || e == OGError::AllocInvalidLayout || e == OGError::AllocNoMem),
            r matches Err(e) ==> (self.rt_imprint_spec() != old(alloc_scope).id_imprint_spec()
                ==> e == OGError::IDMismatch),
            r matches Err(e) ==> (self.rt_imprint_spec() == old(alloc_scope).id_imprint_spec() && (
            size == 0 || align == 0) ==> e == OGError::AllocInvalidLayout),
            r matches Err(e) ==> (self.rt_imprint_spec() == old(alloc_scope).id_imprint_spec()
                && size > 0 && align > 0 ==> e == OGError::AllocNoMem),
            r matches Ok(addr) ==> stacked_allocation_post(
                old(alloc_scope).tracker_spec(),
                final(alloc_scope).tracker_spec(),
                addr as int,
                size as int,
                align as int,
                true,
            ),
    {
        self.allocate_stacked_record(size, align, true, alloc_scope)
    }

    /// Restore the outer allocation scope: drop the innermost frame of the
    /// chain, ending the allocation or callback registration it tracks.
    ///
    /// Fails with `IDMismatch` for a scope of another instance, and with
    /// `InternalError` when nothing is stacked.
    pub fn restore_stacked(&self, alloc_scope: &mut AllocScope<MockRtAllocChain, ID>) -> (r:
        OGResult<()>)
        requires
            old(alloc_scope).tracker_spec().wf(),
        ensures
            final(alloc_scope).id_imprint_spec() == old(alloc_scope).id_imprint_spec(),
            final(alloc_scope).tracker_spec().base_spec() == old(
                alloc_scope,
            ).tracker_spec().base_spec(),
            final(alloc_scope).tracker_spec().mem_size_spec() == old(
                alloc_scope,
            ).tracker_spec().mem_size_spec(),
            final(alloc_scope).tracker_spec().wf(),
            (r is Ok) <==> (self.rt_imprint_spec() == old(alloc_scope).id_imprint_spec() && old(
                alloc_scope,
            ).tracker_spec().frames_spec().len() > 0),
            r matches Err(e) ==> final(alloc_scope).tracker_spec().frames_spec() == old(
                alloc_scope,
            ).tracker_spec().frames_spec() && (e == OGError::IDMismatch || e
                == OGError::InternalError),
            r matches Err(e) ==> (self.rt_imprint_spec() != old(alloc_scope).id_imprint_spec()
                ==> e == OGError::IDMismatch),
            r matches Err(e) ==> (self.rt_imprint_spec() == old(alloc_scope).id_imprint_spec()
                ==> e == OGError::InternalError),
            (r is Ok) ==> final(alloc_scope).tracker_spec().frames_spec() == old(
                alloc_scope,
            ).tracker_spec().frames_spec().drop_last(),
    {
        if !check_alloc_scope_imprint::<ID, MockRtAllocChain>(self.id_imprint, alloc_scope) {
            return Err(OGError::IDMismatch);
        }
        proof {
            lemma_alloc_scope_parts(alloc_scope);
        }
        if alloc_scope.tracker.frames.len() == 0 {
            return Err(OGError::InternalError);
        }
        let ghost old_frames = alloc_scope.tracker.frames_spec();
        alloc_scope.tracker.frames.pop();
        proof {
            lemma_alloc_scope_parts(alloc_scope);
            assert(alloc_scope.tracker.frames_spec() =~= old_frames.drop_last());
        }
        Ok(())
    }
}

/// The value a callback trampoline hands back to foreign code: the two
/// return registers.
#[derive(Clone, Copy, Debug, PartialEq, Eq, Structural)]
pub struct CallbackTrampolineFnReturn {
    pub reg0: usize,
    pub reg1: usize,
}

/// The six argument registers of a callback invocation, as foreign code
/// filled them before calling the trampoline.
#[derive(Clone, Debug)]
pub struct MockRtCallbackContext {
    pub arg_regs: [usize; 6],
}

impl CallbackContext for MockRtCallbackContext {
    open spec fn arg_regs_spec(&self) -> Seq<usize> {
        self.arg_regs@
    }

    fn get_argument_register(&self, reg: usize) -> (r: Option<usize>) {
        if reg < 6 {
            Some(self.arg_regs[reg])
        } else {
            None
        }
    }
}

/// The two return registers of a callback invocation, filled by the host
/// callback before control goes back to foreign code.
#[derive(Clone, Debug)]
pub struct MockRtCallbackReturn {
    pub return_regs: [usize; 2],
}

impl CallbackReturn for MockRtCallbackReturn {
    open spec fn return_regs_spec(&self) -> Seq<usize> {
        self.return_regs@
    }

    fn set_return_register(&mut self, reg: usize, value: usize) -> (r: bool) {
        if reg == 0 {
            self.return_regs = [value, self.return_regs[1]];
            proof {
                assert(self.return_regs@ =~= old(self).return_regs@.update(0, value));
            }
            true
        } else if reg == 1 {
            self.return_regs = [self.return_regs[0], value];
            proof {
                assert(self.return_regs@ =~= old(self).return_regs@.update(1, value));
            }
            true
        } else {
            false
        }
    }
}

/// A host callback reachable from foreign code: in a real backend, foreign
/// code calls a registered trampoline, which delivers the six argument
/// registers to the host callback and hands its two-register response back.
/// As in a real backend, the callback is also handed the instance's scopes,
/// so it may read and write foreign memory while foreign code waits.
///
/// An implementation states its behavior as `response_spec` — a function of
/// its own state, the six argument registers, and the foreign memory
/// contents at entry — and must prove that `handle` delivers exactly that
/// response; it may mutate the scopes, but must keep their imprints, the
/// stacking discipline, and the arena size intact.
pub trait CallbackHandler<ID: OGID>: Sized {
    /// What the handler stores into the two return registers, as a
    /// function of its own state, the six argument registers, and the
    /// foreign memory contents at entry.
    spec fn response_spec(&self, args: Seq<usize>, mem: Seq<u8>) -> Seq<usize>;

    /// A response fills exactly the two return registers.
    proof fn lemma_response_len(&self, args: Seq<usize>, mem: Seq<u8>)
        ensures
            self.response_spec(args, mem).len() == 2,
    ;

    /// Handle one callback invocation: read the arguments from `context`,
    /// work with foreign memory through the scopes as needed, and store
    /// the response into the freshly zeroed `ret`.
    fn handle(
        &mut self,
        context: &MockRtCallbackContext,
        ret: &mut MockRtCallbackReturn,
        alloc_scope: &mut AllocScope<MockRtAllocChain, ID>,
        access_scope: &mut AccessScope<ID>,
    )
        requires
            old(ret).return_regs@ == seq![0usize, 0usize],
            old(alloc_scope).tracker_spec().wf(),
        ensures
            final(ret).return_regs@ == old(self).response_spec(
                context.arg_regs@,
                old(access_scope).mem_spec(),
            ),
            final(alloc_scope).id_imprint_spec() == old(alloc_scope).id_imprint_spec(),
            final(alloc_scope).tracker_spec().wf(),
            final(access_scope).id_imprint_spec() == old(access_scope).id_imprint_spec(),
            final(access_scope).mem_spec().len() == old(access_scope).mem_spec().len(),
    ;
}

/// Checked three-way sum: the sum when it is representable, zero when not.
fn saturating_zero_sum3(x: usize, y: usize, z: usize) -> (r: usize)
    ensures
        r as int == if x + y + z <= usize::MAX {
            x + y + z
        } else {
            0
        },
{
    match x.checked_add(y) {
        Some(s) => match s.checked_add(z) {
            Some(t) => t,
            None => 0,
        },
        None => 0,
    }
}

/// A reference callback handler for driving [`MockRt::dispatch_callback`]:
/// it answers with the checked sums of the even- and odd-indexed argument
/// registers, so that every delivered register provably reaches the
/// handler's response.
pub struct SummingCallbackHandler {
    _private: (),
}

impl SummingCallbackHandler {
    pub fn new() -> SummingCallbackHandler {
        SummingCallbackHandler { _private: () }
    }
}

impl<ID: OGID> CallbackHandler<ID> for SummingCallbackHandler {
    open spec fn response_spec(&self, args: Seq<usize>, mem: Seq<u8>) -> Seq<usize> {
        seq![
            if args[0] + args[2] + args[4] <= usize::MAX {
                (args[0] + args[2] + args[4]) as usize
            } else {
                0usize
            },
            if args[1] + args[3] + args[5] <= usize::MAX {
                (args[1] + args[3] + args[5]) as usize
            } else {
                0usize
            },
        ]
    }

    proof fn lemma_response_len(&self, args: Seq<usize>, mem: Seq<u8>) {
    }

    fn handle(
        &mut self,
        context: &MockRtCallbackContext,
        ret: &mut MockRtCallbackReturn,
        _alloc_scope: &mut AllocScope<MockRtAllocChain, ID>,
        access_scope: &mut AccessScope<ID>,
    ) {
        let r0 = saturating_zero_sum3(context.arg_regs[0], context.arg_regs[2], context.arg_regs[4]);
        let r1 = saturating_zero_sum3(context.arg_regs[1], context.arg_regs[3], context.arg_regs[5]);
        ret.return_regs = [r0, r1];
        proof {
            assert(ret.return_regs@ =~= CallbackHandler::<ID>::response_spec(
                self,
                context.arg_regs@,
                old(access_scope).mem_spec(),
            ));
        }
    }
}

/// A reference callback handler that reads foreign memory: its first
/// response register echoes the arena byte addressed by the first argument
/// register (zero when out of bounds), its second echoes the sixth
/// argument register.
pub struct PeekingCallbackHandler {
    _private: (),
}

impl PeekingCallbackHandler {
    pub fn new() -> PeekingCallbackHandler {
        PeekingCallbackHandler { _private: () }
    }
}

impl<ID: OGID> CallbackHandler<ID> for PeekingCallbackHandler {
    open spec fn response_spec(&self, args: Seq<usize>, mem: Seq<u8>) -> Seq<usize> {
        seq![
            if (args[0] as int) < mem.len() {
                mem[args[0] as int] as usize
            } else {
                0usize
            },
            args[5],
        ]
    }

    proof fn lemma_response_len(&self, args: Seq<usize>, mem: Seq<u8>) {
    }

    fn handle(
        &mut self,
        context: &MockRtCallbackContext,
        ret: &mut MockRtCallbackReturn,
        _alloc_scope: &mut AllocScope<MockRtAllocChain, ID>,
        access_scope: &mut AccessScope<ID>,
    ) {
        let addr = context.arg_regs[0];
        let r0: usize = if addr < access_scope.mem_len() {
            let byte = access_scope.read_bytes(addr, 1);
            byte[0] as usize
        } else {
            0
        };
        ret.return_regs = [r0, context.arg_regs[5]];
        proof {
            assert(ret.return_regs@ =~= CallbackHandler::<ID>::response_spec(
                self,
                context.arg_regs@,
                old(access_scope).mem_spec(),
            ));
        }
    }
}

impl<ID: OGID> MockRt<ID> {
    /// Register a callback slot reachable from foreign code for the
    /// duration of the narrowed scope: the scope's chain gains a callback
    /// frame carrying a fresh identifier, which doubles as the index of the
    /// modeled trampoline handed to foreign code. The registration ends
    /// with the matching [`MockRt::restore_stacked`].
    ///
    /// Fails with `IDMismatch` for a scope of another instance, and with
    /// `SetupCallbackInsufficientSlots` when the identifier space is
    /// exhausted.
    pub fn setup_callback(&self, alloc_scope: &mut AllocScope<MockRtAllocChain, ID>) -> (r:
        OGResult<usize>)
        requires
            old(alloc_scope).tracker_spec().wf(),
        ensures
            final(alloc_scope).id_imprint_spec() == old(alloc_scope).id_imprint_spec(),
            (r is Ok) <==> (self.rt_imprint_spec() == old(alloc_scope).id_imprint_spec() && old(
                alloc_scope,
            ).tracker_spec().next_callback_id_spec() < MOCK_RT_CALLBACK_SLOTS),
            r matches Err(e) ==> final(alloc_scope).tracker_spec().frames_spec() == old(
                alloc_scope,
            ).tracker_spec().frames_spec() && final(alloc_scope).tracker_spec().base_spec() == old(
                alloc_scope,
            ).tracker_spec().base_spec() && final(alloc_scope).tracker_spec().mem_size_spec()
                == old(alloc_scope).tracker_spec().mem_size_spec() && (e == OGError::IDMismatch
                || e == OGError::SetupCallbackInsufficientSlots),
            r matches Err(e) ==> (self.rt_imprint_spec() != old(alloc_scope).id_imprint_spec()
                ==> e == OGError::IDMismatch),
            r matches Err(e) ==> (self.rt_imprint_spec() == old(alloc_scope).id_imprint_spec()
                ==> e == OGError::SetupCallbackInsufficientSlots),
            r matches Ok(id) ==> {
                let old_tr = old(alloc_scope).tracker_spec();
                let new_tr = final(alloc_scope).tracker_spec();
                &&& id as int == old_tr.next_callback_id_spec()
                &&& new_tr.frames_spec() == old_tr.frames_spec().push(
                    MockRtAllocChainFrame::Callback(id),
                )
                &&& new_tr.wf()
                &&& new_tr.base_spec() == old_tr.base_spec()
                &&& new_tr.mem_size_spec() == old_tr.mem_size_spec()
                &&& new_tr.high_mark() == old_tr.high_mark()
                &&& new_tr.next_callback_id_spec() == id + 1
                &&& new_tr.has_callback_spec(id as int)
                &&& forall|p: int, l: int, m: bool|
                    #[trigger] new_tr.covered_spec(p, l, m) == old_tr.covered_spec(p, l, m)
            },
    {
        if !check_alloc_scope_imprint::<ID, MockRtAllocChain>(self.id_imprint, alloc_scope) {
            return Err(OGError::IDMismatch);
        }
        proof {
            lemma_alloc_scope_parts(alloc_scope);
            lemma_next_callback_id_nonneg(alloc_scope.tracker.frames_spec());
        }
        let id = match alloc_scope.tracker.next_callback_id() {
            Some(id) => id,
            None => {
                return Err(OGError::SetupCallbackInsufficientSlots);
            },
        };
        if id >= MOCK_RT_CALLBACK_SLOTS {
            return Err(OGError::SetupCallbackInsufficientSlots);
        }
        let ghost old_tr = alloc_scope.tracker_spec();
        alloc_scope.tracker.frames.push(MockRtAllocChainFrame::Callback(id));
        proof {
            lemma_alloc_scope_parts(alloc_scope);
            let new_tr = alloc_scope.tracker_spec();
            let new_frames = new_tr.frames_spec();
            assert(new_frames.drop_last() =~= old_tr.frames_spec());
            assert(new_tr.wf());
            assert(new_tr.high_mark() == old_tr.high_mark());
            assert(new_tr.has_callback_spec(id as int)) by {
                assert(new_frames[new_frames.len() - 1] == MockRtAllocChainFrame::Callback(id));
            }
            assert forall|p: int, l: int, m: bool| #[trigger] new_tr.covered_spec(p, l, m)
                == old_tr.covered_spec(p, l, m) by {
                if old_tr.covered_spec(p, l, m) {
                    let k = choose|k: int|
                        0 <= k < old_tr.frames_spec().len()
                            && #[trigger] MockRtAllocChain::frame_covers(
                            old_tr.frames_spec()[k],
                            p,
                            l,
                            m,
                            old_tr.mem_size_spec(),
                        );
                    assert(MockRtAllocChain::frame_covers(
                        new_frames[k],
                        p,
                        l,
                        m,
                        new_tr.mem_size_spec(),
                    ));
                }
                if new_tr.covered_spec(p, l, m) {
                    let k = choose|k: int|
                        0 <= k < new_frames.len() && #[trigger] MockRtAllocChain::frame_covers(
                            new_frames[k],
                            p,
                            l,
                            m,
                            new_tr.mem_size_spec(),
                        );
                    assert(k < new_frames.len() - 1);
                    assert(MockRtAllocChain::frame_covers(
                        old_tr.frames_spec()[k],
                        p,
                        l,
                        m,
                        old_tr.mem_size_spec(),
                    ));
                }
            }
        }
        Ok(id)
    }

    /// Dispatch a callback invocation, standing in for foreign code calling
    /// the trampoline of `callback_id` with the six argument registers
    /// `a0` to `a5`.
    ///
    /// The chain of the presented scope is searched for the callback
    /// registration; the registered handler is then invoked with the
    /// delivered arguments, a fresh return-register set, and the instance's
    /// scopes (so it may read and write foreign memory while foreign code
    /// waits), and whatever two-register response it produced is handed
    /// back, as the trampoline would hand it to foreign code.
    ///
    /// Fails with `IDMismatch` for scopes of another instance, and with
    /// `InternalError` for a callback identifier that is not registered.
    pub fn dispatch_callback<C: CallbackHandler<ID>>(
        &self,
        callback_id: usize,
        a0: usize,
        a1: usize,
        a2: usize,
        a3: usize,
        a4: usize,
        a5: usize,
        handler: &mut C,
        alloc_scope: &mut AllocScope<MockRtAllocChain, ID>,
        access_scope: &mut AccessScope<ID>,
    ) -> (r: OGResult<CallbackTrampolineFnReturn>)
        requires
            old(alloc_scope).tracker_spec().wf(),
        ensures
            final(alloc_scope).id_imprint_spec() == old(alloc_scope).id_imprint_spec(),
            final(alloc_scope).tracker_spec().wf(),
            final(access_scope).id_imprint_spec() == old(access_scope).id_imprint_spec(),
            final(access_scope).mem_spec().len() == old(access_scope).mem_spec().len(),
            (r is Ok) <==> (self.rt_imprint_spec() == old(alloc_scope).id_imprint_spec()
                && self.rt_imprint_spec() == old(access_scope).id_imprint_spec() && old(
                alloc_scope,
            ).tracker_spec().has_callback_spec(callback_id as int)),
            r matches Err(e) ==> *final(handler) == *old(handler) && final(alloc_scope).tracker_spec().frames_spec() == old(alloc_scope).tracker_spec().frames_spec()
                && final(alloc_scope).tracker_spec().base_spec() == old(
                alloc_scope,
            ).tracker_spec().base_spec() && final(alloc_scope).tracker_spec().mem_size_spec()
                == old(alloc_scope).tracker_spec().mem_size_spec() && final(access_scope).mem_spec() == old(access_scope).mem_spec() && (e == OGError::IDMismatch || e
                == OGError::InternalError),
            r matches Err(e) ==> ((self.rt_imprint_spec() != old(alloc_scope).id_imprint_spec()
                || self.rt_imprint_spec() != old(access_scope).id_imprint_spec()) ==> e
                == OGError::IDMismatch),
            r matches Err(e) ==> (self.rt_imprint_spec() == old(alloc_scope).id_imprint_spec()
                && self.rt_imprint_spec() == old(access_scope).id_imprint_spec() ==> e
                == OGError::InternalError),
            r matches Ok(ret) ==> {
                let resp = old(handler).response_spec(
                    seq![a0, a1, a2, a3, a4, a5],
                    old(access_scope).mem_spec(),
                );
                &&& ret.reg0 == resp[0]
                &&& ret.reg1 == resp[1]
            },
    {
        let scopes_ok = check_alloc_scope_imprint::<ID, MockRtAllocChain>(
            self.id_imprint,
            alloc_scope,
        ) && check_access_scope_imprint::<ID>(self.id_imprint, access_scope);
        if !scopes_ok {
            return Err(OGError::IDMismatch);
        }
        proof {
            lemma_alloc_scope_parts(alloc_scope);
        }
        if !alloc_scope.tracker.find_callback(callback_id) {
            return Err(OGError::InternalError);
        }
        let context = MockRtCallbackContext { arg_regs: [a0, a1, a2, a3, a4, a5] };
        let mut callback_ret = MockRtCallbackReturn { return_regs: [0, 0] };
        proof {
            handler.lemma_response_len(context.arg_regs@, access_scope.mem_spec());
            assert(callback_ret.return_regs@ =~= seq![0usize, 0usize]);
            assert(context.arg_regs@ =~= seq![a0, a1, a2, a3, a4, a5]);
        }
        handler.handle(&context, &mut callback_ret, alloc_scope, access_scope);
        Ok(
            CallbackTrampolineFnReturn {
                reg0: callback_ret.return_regs[0],
                reg1: callback_ret.return_regs[1],
            },
        )
    }
}

impl<ID: OGID> MockRt<ID> {
    /// Allocate a stacked region shaped for one value of type `T` and hand
    /// back a writable reference to it; the contents are still whatever the
    /// arena held. See [`MockRt::allocate_stacked_mut`] for the stacking
    /// and failure behavior.
    pub fn allocate_stacked_t_mut<T: BitPatternValidate>(
        &self,
        alloc_scope: &mut AllocScope<MockRtAllocChain, ID>,
    ) -> (r: OGResult<OGMutRef<ID, T>>)
        requires
            old(alloc_scope).tracker_spec().wf(),
        ensures
            final(alloc_scope).id_imprint_spec() == old(alloc_scope).id_imprint_spec(),
            (r is Ok) <==> (self.rt_imprint_spec() == old(alloc_scope).id_imprint_spec()
                && T::size_spec() > 0 && align_up(
                old(alloc_scope).tracker_spec().high_mark(),
                T::align_spec() as int,
            ) + T::size_spec() <= old(alloc_scope).tracker_spec().mem_size_spec()),
            r matches Err(e) ==> final(alloc_scope).tracker_spec().frames_spec() == old(
                alloc_scope,
            ).tracker_spec().frames_spec() && final(alloc_scope).tracker_spec().base_spec() == old(
                alloc_scope,
            ).tracker_spec().base_spec() && final(alloc_scope).tracker_spec().mem_size_spec()
                == old(alloc_scope).tracker_spec().mem_size_spec() && (e == OGError::IDMismatch
                || e == OGError::AllocInvalidLayout || e == OGError::AllocNoMem),
            r matches Err(e) ==> (self.rt_imprint_spec() != old(alloc_scope).id_imprint_spec()
                ==> e == OGError::IDMismatch),
            r matches Err(e) ==> (self.rt_imprint_spec() == old(alloc_scope).id_imprint_spec()
                && T::size_spec() == 0 ==> e == OGError::AllocInvalidLayout),
            r matches Err(e) ==> (self.rt_imprint_spec() == old(alloc_scope).id_imprint_spec()
                && T::size_spec() > 0 ==> e == OGError::AllocNoMem),
            r matches Ok(mref) ==> {
                &&& mref.id_imprint_spec() == old(alloc_scope).id_imprint_spec()
                &&& stacked_allocation_post(
                    old(alloc_scope).tracker_spec(),
                    final(alloc_scope).tracker_spec(),
                    mref.addr_spec(),
                    T::size_spec() as int,
                    T::align_spec() as int,
                    true,
                )
                &&& mref.region_in(final(alloc_scope).tracker_spec().mem_size_spec())
            },
    {
        proof {
            T::lemma_align();
        }
        let size = T::size_of();
        let align = T::align_of();
        match self.allocate_stacked_record(size, align, true, alloc_scope) {
            Ok(addr) => Ok(OGMutRef::new_at(addr, alloc_scope.id_imprint())),
            Err(e) => Err(e),
        }
    }

    /// Allocate a stacked region shaped for one value of type `T`, write
    /// `t` into it, and hand back a shared reference to it: the host just
    /// wrote a legal value, so reading it back through the reference
    /// yields `t`.
    ///
    /// With `zero_copy_immutable`, the region is tracked as immutable,
    /// more closely simulating a runtime that maps the value read-only for
    /// foreign code.
    pub fn write_stacked_t<T: BitPatternValidate>(
        &self,
        t: T,
        alloc_scope: &mut AllocScope<MockRtAllocChain, ID>,
        access_scope: &mut AccessScope<ID>,
    ) -> (r: OGResult<OGRef<ID, T>>)
        requires
            old(alloc_scope).tracker_spec().wf(),
            old(alloc_scope).tracker_spec().mem_size_spec() == old(
                access_scope,
            ).mem_spec().len(),
        ensures
            final(alloc_scope).id_imprint_spec() == old(alloc_scope).id_imprint_spec(),
            final(access_scope).id_imprint_spec() == old(access_scope).id_imprint_spec(),
            final(access_scope).mem_spec().len() == old(access_scope).mem_spec().len(),
            (r is Ok) <==> (self.rt_imprint_spec() == old(alloc_scope).id_imprint_spec()
                && self.rt_imprint_spec() == old(access_scope).id_imprint_spec()
                && T::size_spec() > 0 && align_up(
                old(alloc_scope).tracker_spec().high_mark(),
                T::align_spec() as int,
            ) + T::size_spec() <= old(alloc_scope).tracker_spec().mem_size_spec()),
            r matches Err(e) ==> final(alloc_scope).tracker_spec().frames_spec() == old(
                alloc_scope,
            ).tracker_spec().frames_spec() && final(alloc_scope).tracker_spec().base_spec() == old(
                alloc_scope,
            ).tracker_spec().base_spec() && final(alloc_scope).tracker_spec().mem_size_spec()
                == old(alloc_scope).tracker_spec().mem_size_spec() && final(access_scope).mem_spec() == old(access_scope).mem_spec() && (e == OGError::IDMismatch || e
                == OGError::AllocInvalidLayout || e == OGError::AllocNoMem),
            r matches Err(e) ==> ((self.rt_imprint_spec() != old(alloc_scope).id_imprint_spec()
                || self.rt_imprint_spec() != old(access_scope).id_imprint_spec()) ==> e
                == OGError::IDMismatch),
            r matches Err(e) ==> (self.rt_imprint_spec() == old(alloc_scope).id_imprint_spec()
                && self.rt_imprint_spec() == old(access_scope).id_imprint_spec()
                && T::size_spec() == 0 ==> e == OGError::AllocInvalidLayout),
            r matches Err(e) ==> (self.rt_imprint_spec() == old(alloc_scope).id_imprint_spec()
                && self.rt_imprint_spec() == old(access_scope).id_imprint_spec()
                && T::size_spec() > 0 ==> e == OGError::AllocNoMem),
            r matches Ok(og) ==> {
                &&& og.id_imprint_spec() == old(alloc_scope).id_imprint_spec()
                &&& stacked_allocation_post(
                    old(alloc_scope).tracker_spec(),
                    final(alloc_scope).tracker_spec(),
                    og.addr_spec(),
                    T::size_spec() as int,
                    T::align_spec() as int,
                    !self.zero_copy_immutable_spec(),
                )
                &&& og.region_in(final(access_scope).mem_spec().len() as int)
                &&& crate::foreign_memory::region_bytes(
                    final(access_scope).mem_spec(),
                    og.addr_spec(),
                    T::size_spec(),
                ) == T::encode_spec(t)
                &&& forall|j: int|
                    0 <= j < old(access_scope).mem_spec().len() && !(og.addr_spec() <= j
                        < og.addr_spec() + T::size_spec())
                        ==> final(access_scope).mem_spec()[j] == old(access_scope).mem_spec()[j]
            },
    {
        let scopes_ok = check_alloc_scope_imprint::<ID, MockRtAllocChain>(
            self.id_imprint,
            alloc_scope,
        ) && check_access_scope_imprint::<ID>(self.id_imprint, access_scope);
        if !scopes_ok {
            return Err(OGError::IDMismatch);
        }
        proof {
            T::lemma_align();
        }
        let size = T::size_of();
        let align = T::align_of();
        let mutable = !self.zero_copy_immutable;
        let addr = match self.allocate_stacked_record(size, align, mutable, alloc_scope) {
            Ok(a) => a,
            Err(e) => {
                return Err(e);
            },
        };
        proof {
            T::lemma_encode_len(t);
        }
        let bytes = t.encode();
        access_scope.write_bytes(addr, bytes.as_slice());
        proof {
            assert(crate::foreign_memory::region_bytes(
                access_scope.mem_spec(),
                addr as int,
                T::size_spec(),
            ) =~= T::encode_spec(t));
        }
        Ok(OGRef::new_at(addr, alloc_scope.id_imprint()))
    }

    /// Allocate a stacked region shaped for one value of type `T` and copy
    /// `*t` into it, byte for byte; see [`MockRt::write_stacked_t`].
    pub fn write_stacked_ref_t<T: BitPatternValidate + Copy>(
        &self,
        t: &T,
        alloc_scope: &mut AllocScope<MockRtAllocChain, ID>,
        access_scope: &mut AccessScope<ID>,
    ) -> (r: OGResult<OGRef<ID, T>>)
        requires
            old(alloc_scope).tracker_spec().wf(),
            old(alloc_scope).tracker_spec().mem_size_spec() == old(
                access_scope,
            ).mem_spec().len(),
        ensures
            final(alloc_scope).id_imprint_spec() == old(alloc_scope).id_imprint_spec(),
            final(access_scope).id_imprint_spec() == old(access_scope).id_imprint_spec(),
            final(access_scope).mem_spec().len() == old(access_scope).mem_spec().len(),
            (r is Ok) <==> (self.rt_imprint_spec() == old(alloc_scope).id_imprint_spec()
                && self.rt_imprint_spec() == old(access_scope).id_imprint_spec()
                && T::size_spec() > 0 && align_up(
                old(alloc_scope).tracker_spec().high_mark(),
                T::align_spec() as int,
            ) + T::size_spec() <= old(alloc_scope).tracker_spec().mem_size_spec()),
            r matches Err(e) ==> final(alloc_scope).tracker_spec().frames_spec() == old(
                alloc_scope,
            ).tracker_spec().frames_spec() && final(alloc_scope).tracker_spec().base_spec() == old(
                alloc_scope,
            ).tracker_spec().base_spec() && final(alloc_scope).tracker_spec().mem_size_spec()
                == old(alloc_scope).tracker_spec().mem_size_spec() && final(access_scope).mem_spec() == old(access_scope).mem_spec() && (e == OGError::IDMismatch || e
                == OGError::AllocInvalidLayout || e == OGError::AllocNoMem),
            r matches Err(e) ==> ((self.rt_imprint_spec() != old(alloc_scope).id_imprint_spec()
                || self.rt_imprint_spec() != old(access_scope).id_imprint_spec()) ==> e
                == OGError::IDMismatch),
            r matches Err(e) ==> (self.rt_imprint_spec() == old(alloc_scope).id_imprint_spec()
                && self.rt_imprint_spec() == old(access_scope).id_imprint_spec()
                && T::size_spec() == 0 ==> e == OGError::AllocInvalidLayout),
            r matches Err(e) ==> (self.rt_imprint_spec() == old(alloc_scope).id_imprint_spec()
                && self.rt_imprint_spec() == old(access_scope).id_imprint_spec()
                && T::size_spec() > 0 ==> e == OGError::AllocNoMem),
            r matches Ok(og) ==> {
                &&& og.id_imprint_spec() == old(alloc_scope).id_imprint_spec()
                &&& stacked_allocation_post(
                    old(alloc_scope).tracker_spec(),
                    final(alloc_scope).tracker_spec(),
                    og.addr_spec(),
                    T::size_spec() as int,
                    T::align_spec() as int,
                    !self.zero_copy_immutable_spec(),
                )
                &&& og.region_in(final(access_scope).mem_spec().len() as int)
                &&& crate::foreign_memory::region_bytes(
                    final(access_scope).mem_spec(),
                    og.addr_spec(),
                    T::size_spec(),
                ) == T::encode_spec(*t)
                &&& forall|j: int|
                    0 <= j < old(access_scope).mem_spec().len() && !(og.addr_spec() <= j
                        < og.addr_spec() + T::size_spec())
                        ==> final(access_scope).mem_spec()[j] == old(access_scope).mem_spec()[j]
            },
    {
        self.write_stacked_t(*t, alloc_scope, access_scope)
    }

    /// Allocate a stacked region shaped for `length` values of type `T`
    /// and hand back a writable slice over it; the contents are still
    /// whatever the arena held.
    pub fn allocate_stacked_slice_mut<T: BitPatternValidate>(
        &self,
        length: usize,
        alloc_scope: &mut AllocScope<MockRtAllocChain, ID>,
    ) -> (r: OGResult<OGMutSlice<ID, T>>)
        requires
            old(alloc_scope).tracker_spec().wf(),
        ensures
            final(alloc_scope).id_imprint_spec() == old(alloc_scope).id_imprint_spec(),
            (r is Ok) <==> (self.rt_imprint_spec() == old(alloc_scope).id_imprint_spec()
                && length * T::size_spec() > 0 && align_up(
                old(alloc_scope).tracker_spec().high_mark(),
                T::align_spec() as int,
            ) + length * T::size_spec() <= old(alloc_scope).tracker_spec().mem_size_spec()),
            r matches Err(e) ==> final(alloc_scope).tracker_spec().frames_spec() == old(
                alloc_scope,
            ).tracker_spec().frames_spec() && final(alloc_scope).tracker_spec().base_spec() == old(
                alloc_scope,
            ).tracker_spec().base_spec() && final(alloc_scope).tracker_spec().mem_size_spec()
                == old(alloc_scope).tracker_spec().mem_size_spec() && (e == OGError::IDMismatch
                || e == OGError::AllocInvalidLayout || e == OGError::AllocNoMem),
            r matches Err(e) ==> (self.rt_imprint_spec() != old(alloc_scope).id_imprint_spec()
                ==> e == OGError::IDMismatch),
            r matches Err(e) ==> (self.rt_imprint_spec() == old(alloc_scope).id_imprint_spec()
                && length * T::size_spec() == 0 ==> e == OGError::AllocInvalidLayout),
            r matches Err(e) ==> (self.rt_imprint_spec() == old(alloc_scope).id_imprint_spec()
                && length * T::size_spec() > 0 ==> e == OGError::AllocNoMem),
            r matches Ok(ms) ==> {
                &&& ms.id_imprint_spec() == old(alloc_scope).id_imprint_spec()
                &&& ms.len_spec() == length as int
                &&& stacked_allocation_post(
                    old(alloc_scope).tracker_spec(),
                    final(alloc_scope).tracker_spec(),
                    ms.addr_spec(),
                    length * T::size_spec() as int,
                    T::align_spec() as int,
                    true,
                )
                &&& ms.region_in(final(alloc_scope).tracker_spec().mem_size_spec())
                &&& ms.fits()
            },
    {
        proof {
            T::lemma_align();
            lemma_high_mark_bounds(
                old(alloc_scope).tracker_spec().frames_spec(),
                old(alloc_scope).tracker_spec().mem_size_spec(),
            );
            lemma_align_up_ge(
                old(alloc_scope).tracker_spec().high_mark(),
                T::align_spec() as int,
            );
        }
        if !check_alloc_scope_imprint::<ID, MockRtAllocChain>(self.id_imprint, alloc_scope) {
            return Err(OGError::IDMismatch);
        }
        let size = T::size_of();
        let align = T::align_of();
        let total = match length.checked_mul(size) {
            Some(t) => t,
            None => {
                // The byte length of the slice is not even representable:
                // it cannot fit above the stacked allocations.
                return Err(OGError::AllocNoMem);
            },
        };
        match self.allocate_stacked_record(total, align, true, alloc_scope) {
            Ok(addr) => Ok(OGMutSlice::new_parts(addr, length, alloc_scope.id_imprint())),
            Err(e) => Err(e),
        }
    }

    /// Allocate a stacked region shaped for the elements of `src`, copy
    /// them into it, and hand back a shared slice over it: every element
    /// read back through the slice yields the corresponding source
    /// element.
    ///
    /// With `zero_copy_immutable`, the region is tracked as immutable,
    /// more closely simulating a runtime that maps the data read-only for
    /// foreign code.
    pub fn write_stacked_slice<T: BitPatternValidate + Copy>(
        &self,
        src: &[T],
        alloc_scope: &mut AllocScope<MockRtAllocChain, ID>,
        access_scope: &mut AccessScope<ID>,
    ) -> (r: OGResult<OGSlice<ID, T>>)
        requires
            old(alloc_scope).tracker_spec().wf(),
            old(alloc_scope).tracker_spec().mem_size_spec() == old(
                access_scope,
            ).mem_spec().len(),
        ensures
            final(alloc_scope).id_imprint_spec() == old(alloc_scope).id_imprint_spec(),
            final(access_scope).id_imprint_spec() == old(access_scope).id_imprint_spec(),
            final(access_scope).mem_spec().len() == old(access_scope).mem_spec().len(),
            (r is Ok) <==> (self.rt_imprint_spec() == old(alloc_scope).id_imprint_spec()
                && self.rt_imprint_spec() == old(access_scope).id_imprint_spec()
                && src@.len() * T::size_spec() > 0 && align_up(
                old(alloc_scope).tracker_spec().high_mark(),
                T::align_spec() as int,
            ) + src@.len() * T::size_spec() <= old(alloc_scope).tracker_spec().mem_size_spec()),
            r matches Err(e) ==> final(alloc_scope).tracker_spec().frames_spec() == old(
                alloc_scope,
            ).tracker_spec().frames_spec() && final(alloc_scope).tracker_spec().base_spec() == old(
                alloc_scope,
            ).tracker_spec().base_spec() && final(alloc_scope).tracker_spec().mem_size_spec()
                == old(alloc_scope).tracker_spec().mem_size_spec() && final(access_scope).mem_spec() == old(access_scope).mem_spec() && (e == OGError::IDMismatch || e
                == OGError::AllocInvalidLayout || e == OGError::AllocNoMem),
            r matches Err(e) ==> ((self.rt_imprint_spec() != old(alloc_scope).id_imprint_spec()
                || self.rt_imprint_spec() != old(access_scope).id_imprint_spec()) ==> e
                == OGError::IDMismatch),
            r matches Err(e) ==> (self.rt_imprint_spec() == old(alloc_scope).id_imprint_spec()
                && self.rt_imprint_spec() == old(access_scope).id_imprint_spec() && src@.len()
                * T::size_spec() == 0 ==> e == OGError::AllocInvalidLayout),
            r matches Err(e) ==> (self.rt_imprint_spec() == old(alloc_scope).id_imprint_spec()
                && self.rt_imprint_spec() == old(access_scope).id_imprint_spec() && src@.len()
                * T::size_spec() > 0 ==> e == OGError::AllocNoMem),
            r matches Ok(og) ==> {
                &&& og.id_imprint_spec() == old(alloc_scope).id_imprint_spec()
                &&& og.len_spec() == src@.len()
                &&& stacked_allocation_post(
                    old(alloc_scope).tracker_spec(),
                    final(alloc_scope).tracker_spec(),
                    og.addr_spec(),
                    src@.len() * T::size_spec() as int,
                    T::align_spec() as int,
                    !self.zero_copy_immutable_spec(),
                )
                &&& og.region_in(final(access_scope).mem_spec().len() as int)
                &&& og.fits()
                &&& forall|i: int|
                    0 <= i < og.len_spec() ==> #[trigger] og.elem_bytes(
                        final(access_scope).mem_spec(),
                        i,
                    ) == T::encode_spec(src@[i])
                &&& forall|j: int|
                    0 <= j < old(access_scope).mem_spec().len() && !(og.addr_spec() <= j
                        < og.addr_spec() + og.len_spec() * T::size_spec())
                        ==> final(access_scope).mem_spec()[j] == old(access_scope).mem_spec()[j]
            },
    {
        proof {
            T::lemma_align();
            lemma_high_mark_bounds(
                old(alloc_scope).tracker_spec().frames_spec(),
                old(alloc_scope).tracker_spec().mem_size_spec(),
            );
            lemma_align_up_ge(
                old(alloc_scope).tracker_spec().high_mark(),
                T::align_spec() as int,
            );
        }
        let scopes_ok = check_alloc_scope_imprint::<ID, MockRtAllocChain>(
            self.id_imprint,
            alloc_scope,
        ) && check_access_scope_imprint::<ID>(self.id_imprint, access_scope);
        if !scopes_ok {
            return Err(OGError::IDMismatch);
        }
        let size = T::size_of();
        let align = T::align_of();
        let total = match src.len().checked_mul(size) {
            Some(t) => t,
            None => {
                // The byte length of the slice is not even representable:
                // it cannot fit above the stacked allocations.
                return Err(OGError::AllocNoMem);
            },
        };
        let mutable = !self.zero_copy_immutable;
        let addr = match self.allocate_stacked_record(total, align, mutable, alloc_scope) {
            Ok(a) => a,
            Err(e) => {
                return Err(e);
            },
        };
        let ms = OGMutSlice::<ID, T>::new_parts(addr, src.len(), alloc_scope.id_imprint());
        ms.copy_from_slice(src, access_scope);
        let og = ms.as_immut();
        proof {
            assert forall|i: int| 0 <= i < og.len_spec() implies #[trigger] og.elem_bytes(
                access_scope.mem_spec(),
                i,
            ) == ms.elem_bytes(access_scope.mem_spec(), i) by {}
        }
        Ok(og)
    }
}

impl<ID: OGID> OGRuntime for MockRt<ID> {
    type ID = ID;

    type AllocTracker = MockRtAllocChain;

    type ABI = GenericABI;

    type SymbolTableState = ();

    open spec fn id_imprint_spec(&self) -> ID::Imprint {
        self.rt_imprint_spec()
    }

    fn id_imprint(&self) -> (r: ID::Imprint) {
        self.id_imprint
    }

    /// The mock runtime has no real foreign library to link against: every
    /// resolution trivially succeeds with an empty state.
    fn resolve_symbols(&self, _symbol_table: &Vec<Vec<u8>>) -> (r: Option<()>)
        ensures
            r is Some,
    {
        Some(())
    }

    /// The mock runtime exposes no real entry points: every lookup fails,
    /// which callers report as `SymbolNotFound`.
    fn lookup_symbol(&self, _compact_symtab_index: usize, _symtab_state: &()) -> (r: Option<
        usize,
    >)
        ensures
            r is None,
    {
        None
    }

    /// The mock never transfers control to real foreign code, so beyond
    /// the trait's contract — which allows foreign code to rewrite the
    /// arena — the arena is in fact left untouched here.
    fn execute<R, F: FnOnce() -> R>(
        &self,
        alloc_scope: &mut AllocScope<MockRtAllocChain, ID>,
        access_scope: &mut AccessScope<ID>,
        f: F,
    ) -> (r: OGResult<R>)
        ensures
            final(access_scope).mem_spec() == old(access_scope).mem_spec(),
    {
        let scopes_ok = check_alloc_scope_imprint::<ID, MockRtAllocChain>(
            self.id_imprint,
            alloc_scope,
        ) && check_access_scope_imprint::<ID>(self.id_imprint, access_scope);
        if !scopes_ok {
            return Err(OGError::IDMismatch);
        }
        Ok(f())
    }
}

impl AllocTracker for MockRtAllocChain {
    open spec fn valid_spec(&self, ptr: int, len: int) -> bool {
        self.covered_spec(ptr, len, false) || (self.base_spec() && 0 <= ptr && ptr + len
            <= self.mem_size_spec())
    }

    open spec fn valid_mut_spec(&self, ptr: int, len: int) -> bool {
        self.covered_spec(ptr, len, true) || (self.base_spec() && 0 <= ptr && ptr + len
            <= self.mem_size_spec())
    }

    open spec fn bound_spec(&self) -> int {
        self.mem_size_spec()
    }

    proof fn lemma_valid_in_bounds(&self, ptr: int, len: int) {
    }

    proof fn lemma_bound_fits(&self) {
    }

    proof fn lemma_mut_implies_valid(&self, ptr: int, len: int) {
        if self.covered_spec(ptr, len, true) {
            let k = choose|k: int|
                0 <= k < self.frames_spec().len() && #[trigger] Self::frame_covers(
                    self.frames_spec()[k],
                    ptr,
                    len,
                    true,
                    self.mem_size_spec(),
                );
            assert(Self::frame_covers(
                self.frames_spec()[k],
                ptr,
                len,
                false,
                self.mem_size_spec(),
            ));
        }
    }

    fn is_valid(&self, ptr: usize, len: usize) -> (r: bool) {
        self.is_valid_int(ptr, len, false)
    }

    fn is_valid_mut(&self, ptr: usize, len: usize) -> (r: bool) {
        self.is_valid_int(ptr, len, true)
    }
}

} // verus!
