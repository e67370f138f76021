use omniglot::id::OGID;
use omniglot::id::OGIDImprint;
use omniglot::id::OGLifetimeBranding;
use omniglot::id::OGRuntimeBranding;
use omniglot::id::OGRuntimeBrandingCounter;

#[test]
fn lifetime_test_lifetime_branding_equality() {
    OGLifetimeBranding::new(|brand| {
        let imprint_a = brand.get_imprint();
        let imprint_b = brand.get_imprint();
        assert_eq!(imprint_a, imprint_b);
    })
}

#[test]
fn id_test_lifetime_branding_equality() {
    OGLifetimeBranding::new(|brand| {
        let imprint_a = brand.get_imprint();
        let imprint_b = brand.get_imprint();
        assert_eq!(imprint_a, imprint_b);
    })
}

#[test]
fn lifetime_branding_imprint_matches_and_numeric_id() {
    OGLifetimeBranding::new(|brand| {
        let imprint_a = brand.get_imprint();
        let imprint_b = brand.get_imprint();
        assert!(imprint_a.matches(&imprint_b));
        assert_eq!(imprint_a.numeric_id(), 0);
    })
}

#[test]
fn runtime_branding_imprint_reflexivity() {
    let mut ctr = OGRuntimeBrandingCounter::new();
    let branding = OGRuntimeBranding::new(&mut ctr);
    let imprint_a = branding.get_imprint();
    let imprint_b = branding.get_imprint();
    assert_eq!(imprint_a, imprint_b);
    assert!(imprint_a.matches(&imprint_b));
}

#[test]
fn runtime_branding_imprint_distinctness() {
    let mut ctr = OGRuntimeBrandingCounter::new();
    let branding_a = OGRuntimeBranding::new(&mut ctr);
    let branding_b = OGRuntimeBranding::new(&mut ctr);
    let imprint_a = branding_a.get_imprint();
    let imprint_b = branding_b.get_imprint();
    assert_ne!(imprint_a, imprint_b);
    assert!(!imprint_a.matches(&imprint_b));
    assert_eq!(imprint_a.numeric_id(), 0);
    assert_eq!(imprint_b.numeric_id(), 1);
}

#[test]
fn runtime_branding_counter_counts_up() {
    let mut ctr = OGRuntimeBrandingCounter::new();
    for expected in 0u64..5 {
        let branding = OGRuntimeBranding::new(&mut ctr);
        assert_eq!(branding.get_imprint().numeric_id(), expected);
    }
}
