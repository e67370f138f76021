use omniglot::foreign_memory::og_mut_ref::OGMutRef;
use omniglot::foreign_memory::og_copy::OGCopy;
use omniglot::foreign_memory::og_ref::OGRef;
use omniglot::foreign_memory::og_slice::OGSlice;
use omniglot::foreign_memory::sub_ref_check;
use omniglot::id::OGRuntimeBranding;
use omniglot::id::OGRuntimeBrandingCounter;
use omniglot::markers::AccessScope;
use omniglot::markers::AllocScope;
use omniglot::rt::mock::MockRt;
use omniglot::rt::mock::MockRtAllocChain;

type Scopes = (
    MockRt<OGRuntimeBranding>,
    AllocScope<MockRtAllocChain, OGRuntimeBranding>,
    AccessScope<OGRuntimeBranding>,
);

fn fresh_instance(mem_size: usize, all_upgrades_valid: bool) -> Scopes {
    let mut ctr = OGRuntimeBrandingCounter::new();
    let branding = OGRuntimeBranding::new(&mut ctr);
    MockRt::new(false, all_upgrades_valid, mem_size, branding)
}

#[test]
fn write_then_read_back_round_trip() {
    let (rt, mut alloc, mut access) = fresh_instance(1024, false);

    // The validated view handed back by the write holds the written value.
    let r = rt.write_stacked_t(42i32, &mut alloc, &mut access).unwrap();
    let val = r.validate(&access).unwrap();
    assert_eq!(*val.value(), 42);

    // The same through an explicitly allocated mutable reference.
    let mref = rt.allocate_stacked_t_mut::<i32>(&mut alloc).unwrap();
    let written = mref.write(1337, &mut access);
    assert_eq!(written.into_value(), 1337);
    let back = mref.validate(&access).unwrap();
    assert_eq!(*back.value(), 1337);

    // Negative values survive bit-identically too.
    let nref = rt.allocate_stacked_t_mut::<i64>(&mut alloc).unwrap();
    nref.write(-99, &mut access);
    assert_eq!(*nref.validate(&access).unwrap().value(), -99);
}

#[test]
fn copy_and_update_from_ref() {
    let (rt, mut alloc, mut access) = fresh_instance(256, false);
    let mref = rt.allocate_stacked_t_mut::<u32>(&mut alloc).unwrap();
    mref.write(0xCAFEBABE, &mut access);

    let copy = mref.copy(&access);
    assert_eq!(copy.as_bytes(), &[0xBE, 0xBA, 0xFE, 0xCA]);
    assert_eq!(copy.valid(), 0xCAFEBABE);

    let mut snap = OGCopy::<u32>::zeroed();
    snap.update_from_mut_ref(mref, &access);
    assert_eq!(snap.valid_ref(), 0xCAFEBABE);

    let imm = mref.as_immut();
    let mut snap2 = OGCopy::<u32>::zeroed();
    snap2.update_from_ref(imm, &access);
    assert_eq!(snap2.valid_ref(), 0xCAFEBABE);
}

#[test]
fn write_copy_transfers_raw_bytes() {
    let (rt, mut alloc, mut access) = fresh_instance(64, false);
    let mref = rt.allocate_stacked_t_mut::<bool>(&mut alloc).unwrap();

    // An invalid pattern can be planted through a raw snapshot; validation
    // then refuses it as an ordinary outcome.
    mref.write_copy(&OGCopy::<bool>::from_bytes(&[2]), &mut access);
    assert!(mref.validate(&access).is_none());

    mref.write_copy(&OGCopy::<bool>::from_bytes(&[1]), &mut access);
    assert_eq!(*mref.validate(&access).unwrap().value(), true);
}

#[test]
fn upgrade_from_ptr_checks_alignment_and_bounds() {
    let (_rt, alloc, _access) = fresh_instance(64, true);

    // Base treats the whole arena as valid: an aligned, in-bounds address
    // upgrades.
    assert!(OGRef::<OGRuntimeBranding, u32>::upgrade_from_ptr(0, &alloc).is_some());
    assert!(OGRef::<OGRuntimeBranding, u32>::upgrade_from_ptr(60, &alloc).is_some());
    // Misaligned for u32.
    assert!(OGRef::<OGRuntimeBranding, u32>::upgrade_from_ptr(2, &alloc).is_none());
    // Would reach past the arena.
    assert!(OGRef::<OGRuntimeBranding, u32>::upgrade_from_ptr(62, &alloc).is_none());
    assert!(OGMutRef::<OGRuntimeBranding, u64>::upgrade_from_ptr(8, &alloc).is_some());
    assert!(OGMutRef::<OGRuntimeBranding, u64>::upgrade_from_ptr(4, &alloc).is_none());
}

#[test]
fn upgrade_from_ptr_respects_tracker() {
    // Without the all-valid base, only stacked allocations upgrade.
    let (rt, mut alloc, _access) = fresh_instance(64, false);
    assert!(OGRef::<OGRuntimeBranding, u32>::upgrade_from_ptr(0, &alloc).is_none());

    let addr = rt.allocate_stacked_mut(8, 4, &mut alloc).unwrap();
    assert!(OGRef::<OGRuntimeBranding, u32>::upgrade_from_ptr(addr, &alloc).is_some());
    assert!(OGRef::<OGRuntimeBranding, u32>::upgrade_from_ptr(addr + 4, &alloc).is_some());
    // Reaches one byte past the allocation.
    assert!(OGRef::<OGRuntimeBranding, u64>::upgrade_from_ptr(addr + 4, &alloc).is_none());
}

#[test]
fn sub_ref_bounds_and_alignment() {
    let (rt, mut alloc, mut access) = fresh_instance(64, false);
    let mref = rt.allocate_stacked_t_mut::<u64>(&mut alloc).unwrap();
    mref.write(0x0807060504030201u64, &mut access);

    // In bounds and aligned: the upper half of the value.
    let hi = mref.sub_ref::<u32>(4).unwrap();
    assert_eq!(*hi.validate(&access).unwrap().value(), 0x08070605);

    // In bounds but misaligned for u32 at offset 2.
    assert!(mref.sub_ref::<u32>(2).is_none());

    // Out of bounds: offset 6 + 4 bytes exceeds the 8 bytes of u64.
    assert!(mref.sub_ref::<u32>(6).is_none());

    // Single bytes are always aligned.
    let last = mref.sub_ref::<u8>(7).unwrap();
    assert_eq!(*last.validate(&access).unwrap().value(), 0x08);

    // The same checks through the shared reference and the bare check.
    let imm = mref.as_immut();
    assert!(imm.sub_ref::<u32>(4).is_some());
    assert!(imm.sub_ref::<u32>(3).is_none());
    assert!(sub_ref_check::<u64, u32>(4));
    assert!(!sub_ref_check::<u64, u32>(2));
    assert!(!sub_ref_check::<u64, u32>(6));
    assert!(!sub_ref_check::<u32, u64>(0));
}

#[test]
fn sub_ref_rejects_over_aligned_target() {
    let (rt, mut alloc, mut access) = fresh_instance(64, false);

    // A 32-byte, 8-aligned value.
    let quad = rt.allocate_stacked_t_mut::<(u64, u64, u64, u64)>(&mut alloc).unwrap();
    quad.write((1, 2, 3, 4), &mut access);

    // A 16-byte, 16-aligned value at offset 8 would happen to be aligned
    // for some placements, but not for every placement of the outer value:
    // the static check must reject it.
    assert!(quad.sub_ref::<u128>(8).is_none());
    assert!(quad.sub_ref::<u128>(0).is_none());
    assert!(!sub_ref_check::<(u64, u64, u64, u64), u128>(8));

    // The 8-aligned fields themselves project fine.
    let third = quad.sub_ref::<u64>(16).unwrap();
    assert_eq!(*third.validate(&access).unwrap().value(), 3);
    assert_eq!(*quad.sub_ref::<u64>(24).unwrap().valid(&access).value(), 4);
    assert!(quad.sub_ref::<u64>(25).is_none());
}

#[test]
fn u128_round_trips_through_foreign_memory() {
    let (rt, mut alloc, mut access) = fresh_instance(64, false);
    let v: u128 = 0x0102030405060708_090A0B0C0D0E0F10;
    let r = rt.write_stacked_t(v, &mut alloc, &mut access).unwrap();
    assert_eq!(*r.valid(&access).value(), v);
}

#[test]
fn slice_validation_short_circuit() {
    let (rt, mut alloc, mut access) = fresh_instance(64, false);

    // Fill three bytes, one of which is no legal bool.
    let bytes = rt.allocate_stacked_slice_mut::<u8>(3, &mut alloc).unwrap();
    bytes.copy_from_slice(&[1u8, 7u8, 0u8], &mut access);

    // View the same region as a slice of bool.
    let bools = OGSlice::<OGRuntimeBranding, bool>::upgrade_from_ptr(
        bytes.as_ptr(),
        3,
        &alloc,
    )
    .unwrap();
    assert!(bools.validate(&access).is_none());

    // With every element legal, validation hands out all the values.
    bytes.copy_from_slice(&[1u8, 0u8, 1u8], &mut access);
    let sv = bools.validate(&access).unwrap();
    assert_eq!(sv.len(), 3);
    assert_eq!(sv.values().as_slice(), &[true, false, true]);
    assert_eq!(sv.into_values(), vec![true, false, true]);

    // An invalid element at the first index is just as fatal.
    bytes.copy_from_slice(&[9u8, 0u8, 1u8], &mut access);
    assert!(bools.validate(&access).is_none());
}

#[test]
fn zero_copy_immutable_tracks_written_regions_read_only() {
    let mut ctr = OGRuntimeBrandingCounter::new();
    let branding = OGRuntimeBranding::new(&mut ctr);
    let (rt, mut alloc, mut access) = MockRt::new(true, false, 64, branding);

    // A value staged for foreign reading is tracked read-only: it can be
    // re-upgraded shared, but not mutably.
    let og = rt.write_stacked_t(5u32, &mut alloc, &mut access).unwrap();
    assert!(OGRef::<OGRuntimeBranding, u32>::upgrade_from_ptr(og.as_ptr(), &alloc).is_some());
    assert!(
        OGMutRef::<OGRuntimeBranding, u32>::upgrade_from_ptr(og.as_ptr(), &alloc).is_none()
    );
    assert_eq!(*og.validate(&access).unwrap().value(), 5);

    // An explicitly allocated scratch region stays writable.
    let scratch = rt.allocate_stacked_t_mut::<u32>(&mut alloc).unwrap();
    assert!(
        OGMutRef::<OGRuntimeBranding, u32>::upgrade_from_ptr(scratch.as_ptr(), &alloc)
            .is_some()
    );
}

#[test]
fn copy_from_slice_ignores_excess_source_elements() {
    let (rt, mut alloc, mut access) = fresh_instance(64, false);
    let ms = rt.allocate_stacked_slice_mut::<u16>(2, &mut alloc).unwrap();

    // The source may be longer than the slice; only its leading elements
    // are copied.
    let sv = ms.copy_from_slice(&[7u16, 8, 9, 10], &mut access);
    assert_eq!(sv.values().as_slice(), &[7, 8]);
    assert_eq!(ms.valid(&access).values().as_slice(), &[7, 8]);
}

#[test]
fn write_stacked_slice_and_element_access() {
    let (rt, mut alloc, mut access) = fresh_instance(256, false);
    let og = rt.write_stacked_slice(&[10u32, 20, 30], &mut alloc, &mut access).unwrap();
    assert_eq!(og.len(), 3);

    let sv = og.valid(&access);
    assert_eq!(sv.values().as_slice(), &[10, 20, 30]);

    let second = og.get(1).unwrap();
    assert_eq!(*second.valid(&access).value(), 20);
    assert!(og.get(3).is_none());

    let mut it = og.iter();
    assert_eq!(*it.next().unwrap().valid(&access).value(), 10);
    assert_eq!(*it.next().unwrap().valid(&access).value(), 20);
    assert_eq!(*it.next().unwrap().valid(&access).value(), 30);
    assert!(it.next().is_none());
}

#[test]
fn mut_slice_element_access_and_iter() {
    let (rt, mut alloc, mut access) = fresh_instance(256, false);
    let ms = rt.allocate_stacked_slice_mut::<u16>(4, &mut alloc).unwrap();
    assert_eq!(ms.len(), 4);

    let mut it = ms.iter();
    let mut expected: u16 = 5;
    while let Some(elem) = it.next() {
        elem.write(expected, &mut access);
        expected += 5;
    }
    assert!(ms.get(4).is_none());
    assert_eq!(*ms.get(2).unwrap().valid(&access).value(), 15);

    let sv = ms.valid(&access);
    assert_eq!(sv.values().as_slice(), &[5, 10, 15, 20]);
    let sv2 = ms.validate(&access).unwrap();
    assert_eq!(sv2.values().as_slice(), &[5, 10, 15, 20]);
    assert_eq!(ms.as_immut().len(), 4);
}

#[test]
fn og_val_back_to_references() {
    let (rt, mut alloc, mut access) = fresh_instance(64, false);
    let mref = rt.allocate_stacked_t_mut::<u32>(&mut alloc).unwrap();
    let val = mref.write(77, &mut access);

    let re_read = val.as_ref();
    assert_eq!(re_read.as_ptr(), mref.as_ptr());
    assert_eq!(*re_read.valid(&access).value(), 77);

    let re_mut = val.as_mut();
    re_mut.write(78, &mut access);
    assert_eq!(*mref.validate(&access).unwrap().value(), 78);
    assert_eq!(*re_mut.valid(&access).value(), 78);
}
