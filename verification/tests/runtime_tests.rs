use omniglot::OGError;
use omniglot::alloc_tracker::AllocTracker;
use omniglot::id::OGID;
use omniglot::id::OGRuntimeBranding;
use omniglot::id::OGRuntimeBrandingCounter;
use omniglot::markers::check_access_scope_imprint;
use omniglot::markers::check_alloc_scope_imprint;
use omniglot::markers::check_scopes_imprint;
use omniglot::rt::CallbackContext;
use omniglot::rt::CallbackReturn;
use omniglot::rt::OGRuntime;
use omniglot::rt::mock::MOCK_RT_CALLBACK_SLOTS;
use omniglot::rt::mock::MockRt;
use omniglot::rt::mock::MockRtCallbackContext;
use omniglot::rt::mock::MockRtCallbackReturn;
use omniglot::rt::mock::PeekingCallbackHandler;
use omniglot::rt::mock::SummingCallbackHandler;

fn two_instances() -> (
    (
        MockRt<OGRuntimeBranding>,
        omniglot::markers::AllocScope<omniglot::rt::mock::MockRtAllocChain, OGRuntimeBranding>,
        omniglot::markers::AccessScope<OGRuntimeBranding>,
    ),
    (
        MockRt<OGRuntimeBranding>,
        omniglot::markers::AllocScope<omniglot::rt::mock::MockRtAllocChain, OGRuntimeBranding>,
        omniglot::markers::AccessScope<OGRuntimeBranding>,
    ),
) {
    let mut ctr = OGRuntimeBrandingCounter::new();
    let brand_a = OGRuntimeBranding::new(&mut ctr);
    let brand_b = OGRuntimeBranding::new(&mut ctr);
    (MockRt::new(false, false, 128, brand_a), MockRt::new(false, false, 128, brand_b))
}

#[test]
fn cross_instance_rejection() {
    let ((rt_a, mut alloc_a, mut access_a), (rt_b, mut alloc_b, mut access_b)) = two_instances();

    // Presenting instance A's scopes to instance B's runtime is rejected
    // with an identifiable mismatch, never silently accepted.
    assert_eq!(rt_b.allocate_stacked_mut(8, 8, &mut alloc_a), Err(OGError::IDMismatch));
    assert_eq!(rt_a.allocate_stacked_mut(8, 8, &mut alloc_b), Err(OGError::IDMismatch));
    assert_eq!(rt_b.setup_callback(&mut alloc_a), Err(OGError::IDMismatch));
    assert_eq!(rt_b.restore_stacked(&mut alloc_a), Err(OGError::IDMismatch));
    assert!(matches!(
        rt_b.write_stacked_t(1u32, &mut alloc_b, &mut access_a),
        Err(OGError::IDMismatch)
    ));
    assert_eq!(rt_a.execute(&mut alloc_a, &mut access_b, || 5), Err(OGError::IDMismatch));
    let mut handler = SummingCallbackHandler::new();
    assert_eq!(
        rt_b.dispatch_callback(0, 0, 0, 0, 0, 0, 0, &mut handler, &mut alloc_a, &mut access_a),
        Err(OGError::IDMismatch)
    );

    // The imprint checks themselves tell the scopes apart.
    let imprint_a = rt_a.id_imprint();
    assert!(check_alloc_scope_imprint(imprint_a, &alloc_a));
    assert!(!check_alloc_scope_imprint(imprint_a, &alloc_b));
    assert!(check_access_scope_imprint(imprint_a, &access_a));
    assert!(!check_access_scope_imprint(imprint_a, &access_b));
    assert!(check_scopes_imprint(imprint_a, &alloc_a, &access_a));
    assert!(!check_scopes_imprint(imprint_a, &alloc_a, &access_b));
    assert!(!check_scopes_imprint(imprint_a, &alloc_b, &access_a));

    // With the right scopes, the same operations succeed.
    assert!(rt_a.allocate_stacked_mut(8, 8, &mut alloc_a).is_ok());
    assert!(rt_b.write_stacked_t(1u32, &mut alloc_b, &mut access_b).is_ok());
}

#[test]
fn allocation_chain_scoping() {
    let mut ctr = OGRuntimeBrandingCounter::new();
    let branding = OGRuntimeBranding::new(&mut ctr);
    let (rt, mut alloc, _access) = MockRt::new(false, false, 256, branding);

    let addr = rt.allocate_stacked_mut(16, 8, &mut alloc).unwrap();
    assert!(alloc.tracker().is_valid(addr, 16));
    assert!(alloc.tracker().is_valid_mut(addr, 16));
    assert!(alloc.tracker_mut().is_valid(addr, 16));

    // Restoring the outer scope drops the nested allocation: a check
    // against the outer scope does not see it.
    rt.restore_stacked(&mut alloc).unwrap();
    assert!(!alloc.tracker().is_valid(addr, 16));

    // Two nested levels: the outer level never sees the inner allocation.
    let a1 = rt.allocate_stacked_mut(8, 4, &mut alloc).unwrap();
    let a2 = rt.allocate_stacked_mut(8, 4, &mut alloc).unwrap();
    assert_ne!(a1, a2);
    assert!(alloc.tracker().is_valid(a1, 8));
    assert!(alloc.tracker().is_valid(a2, 8));
    rt.restore_stacked(&mut alloc).unwrap();
    assert!(alloc.tracker().is_valid(a1, 8));
    assert!(!alloc.tracker().is_valid(a2, 8));
    rt.restore_stacked(&mut alloc).unwrap();
    assert!(!alloc.tracker().is_valid(a1, 8));

    // With nothing stacked, there is no outer scope to restore.
    assert_eq!(rt.restore_stacked(&mut alloc), Err(OGError::InternalError));
}

#[test]
fn stacked_allocation_is_bumped_and_aligned() {
    let mut ctr = OGRuntimeBrandingCounter::new();
    let branding = OGRuntimeBranding::new(&mut ctr);
    let (rt, mut alloc, _access) = MockRt::new(false, false, 64, branding);

    // The stack starts at the bottom of the arena.
    assert_eq!(rt.allocate_stacked_mut(1, 1, &mut alloc), Ok(0));
    // The next region is placed above the first, rounded up to alignment.
    assert_eq!(rt.allocate_stacked_mut(4, 4, &mut alloc), Ok(4));
    assert_eq!(rt.allocate_stacked_mut(8, 8, &mut alloc), Ok(8));
    assert_eq!(rt.allocate_stacked_mut(2, 8, &mut alloc), Ok(16));
}

#[test]
fn allocation_error_taxonomy() {
    let mut ctr = OGRuntimeBrandingCounter::new();
    let branding = OGRuntimeBranding::new(&mut ctr);
    let (rt, mut alloc, mut access) = MockRt::new(false, false, 64, branding);

    // Invalid layouts: an empty region or a zero alignment.
    assert_eq!(rt.allocate_stacked_mut(0, 8, &mut alloc), Err(OGError::AllocInvalidLayout));
    assert_eq!(rt.allocate_stacked_mut(8, 0, &mut alloc), Err(OGError::AllocInvalidLayout));
    assert!(matches!(
        rt.allocate_stacked_slice_mut::<u32>(0, &mut alloc),
        Err(OGError::AllocInvalidLayout)
    ));

    // Exhaustion: the arena holds 64 bytes.
    assert_eq!(rt.allocate_stacked_mut(65, 1, &mut alloc), Err(OGError::AllocNoMem));
    assert!(rt.allocate_stacked_mut(64, 1, &mut alloc).is_ok());
    assert_eq!(rt.allocate_stacked_mut(1, 1, &mut alloc), Err(OGError::AllocNoMem));
    rt.restore_stacked(&mut alloc).unwrap();

    assert!(matches!(
        rt.write_stacked_slice(&[0u64; 9], &mut alloc, &mut access),
        Err(OGError::AllocNoMem)
    ));
    assert!(rt.write_stacked_slice(&[0u64; 8], &mut alloc, &mut access).is_ok());
}

#[test]
fn callback_round_trip() {
    let mut ctr = OGRuntimeBrandingCounter::new();
    let branding = OGRuntimeBranding::new(&mut ctr);
    let (rt, mut alloc, mut access) = MockRt::new(false, false, 64, branding);

    let id = rt.setup_callback(&mut alloc).unwrap();
    assert_eq!(id, 0);

    // Dispatching with a fixed six-register pattern delivers exactly those
    // six values to the handler and hands back the two-register response
    // the handler produced: each argument register reaches one sum.
    let mut handler = SummingCallbackHandler::new();
    let ret = rt
        .dispatch_callback(id, 1, 2, 3, 4, 5, 6, &mut handler, &mut alloc, &mut access)
        .unwrap();
    assert_eq!(ret.reg0, 1 + 3 + 5);
    assert_eq!(ret.reg1, 2 + 4 + 6);

    // An unregistered identifier is not dispatched.
    assert_eq!(
        rt.dispatch_callback(7, 0, 0, 0, 0, 0, 0, &mut handler, &mut alloc, &mut access),
        Err(OGError::InternalError)
    );

    // Identifiers count up with nesting; tearing a registration down makes
    // its identifier undispatchable again.
    let id2 = rt.setup_callback(&mut alloc).unwrap();
    assert_eq!(id2, 1);
    assert!(
        rt.dispatch_callback(id2, 0, 0, 0, 0, 0, 0, &mut handler, &mut alloc, &mut access)
            .is_ok()
    );
    rt.restore_stacked(&mut alloc).unwrap();
    assert_eq!(
        rt.dispatch_callback(id2, 0, 0, 0, 0, 0, 0, &mut handler, &mut alloc, &mut access),
        Err(OGError::InternalError)
    );
    assert!(
        rt.dispatch_callback(id, 0, 0, 0, 0, 0, 0, &mut handler, &mut alloc, &mut access)
            .is_ok()
    );
}

#[test]
fn callback_can_read_foreign_memory() {
    let mut ctr = OGRuntimeBrandingCounter::new();
    let branding = OGRuntimeBranding::new(&mut ctr);
    let (rt, mut alloc, mut access) = MockRt::new(false, false, 64, branding);

    // Plant a known byte in foreign memory, then have the callback peek at
    // it: the handler works through the scopes handed to it by dispatch.
    let byte_ref = rt.write_stacked_t(0xABu8, &mut alloc, &mut access).unwrap();
    let addr = byte_ref.as_ptr();

    let id = rt.setup_callback(&mut alloc).unwrap();
    let mut handler = PeekingCallbackHandler::new();
    let ret = rt
        .dispatch_callback(id, addr, 0, 0, 0, 0, 42, &mut handler, &mut alloc, &mut access)
        .unwrap();
    assert_eq!(ret.reg0, 0xAB);
    assert_eq!(ret.reg1, 42);

    // An out-of-bounds peek answers zero.
    let ret2 = rt
        .dispatch_callback(id, 4096, 0, 0, 0, 0, 7, &mut handler, &mut alloc, &mut access)
        .unwrap();
    assert_eq!(ret2.reg0, 0);
    assert_eq!(ret2.reg1, 7);
}

#[test]
fn callback_slots_exhaust() {
    let mut ctr = OGRuntimeBrandingCounter::new();
    let branding = OGRuntimeBranding::new(&mut ctr);
    let (rt, mut alloc, _access) = MockRt::new(false, false, 64, branding);

    for expected in 0..MOCK_RT_CALLBACK_SLOTS {
        assert_eq!(rt.setup_callback(&mut alloc), Ok(expected));
    }
    assert_eq!(rt.setup_callback(&mut alloc), Err(OGError::SetupCallbackInsufficientSlots));
}

#[test]
fn callback_context_and_return_registers() {
    let ctx = MockRtCallbackContext { arg_regs: [9, 8, 7, 6, 5, 4] };
    assert_eq!(ctx.get_argument_register(0), Some(9));
    assert_eq!(ctx.get_argument_register(5), Some(4));
    assert_eq!(ctx.get_argument_register(6), None);

    let mut ret = MockRtCallbackReturn { return_regs: [0, 0] };
    assert!(ret.set_return_register(0, 11));
    assert!(ret.set_return_register(1, 22));
    assert!(!ret.set_return_register(2, 33));
    assert_eq!(ret.return_regs, [11, 22]);
}

#[test]
fn execute_brackets_the_foreign_call() {
    let mut ctr = OGRuntimeBrandingCounter::new();
    let branding = OGRuntimeBranding::new(&mut ctr);
    let (rt, mut alloc, mut access) = MockRt::new(false, false, 64, branding);

    assert_eq!(rt.execute(&mut alloc, &mut access, || 7), Ok(7));
    let mut observed = 0;
    assert_eq!(rt.execute(&mut alloc, &mut access, || observed = 3), Ok(()));
    assert_eq!(observed, 3);
    assert_eq!(rt.id_imprint(), access.id_imprint());
    assert_eq!(rt.id_imprint(), alloc.id_imprint());
}

#[test]
fn symbol_resolution_is_mocked() {
    let mut ctr = OGRuntimeBrandingCounter::new();
    let branding = OGRuntimeBranding::new(&mut ctr);
    let (rt, _alloc, _access) = MockRt::new(false, false, 64, branding);

    let table: Vec<Vec<u8>> = vec![b"add".to_vec(), b"demo".to_vec()];
    let state = rt.resolve_symbols(&table);
    assert!(state.is_some());
    // The mock exposes no real entry points; callers map this to
    // SymbolNotFound.
    assert_eq!(rt.lookup_symbol(0, &state.unwrap()), None);
}

#[test]
fn access_scope_reports_arena_size() {
    let mut ctr = OGRuntimeBrandingCounter::new();
    let branding = OGRuntimeBranding::new(&mut ctr);
    let (_rt, alloc, access) = MockRt::new(false, false, 96, branding);
    assert_eq!(access.mem_len(), 96);
    assert_eq!(alloc.id_imprint(), access.id_imprint());
}
