use omniglot::bit_pattern_validate::BitPatternValidate;
use omniglot::foreign_memory::og_copy::OGCopy;
use omniglot::foreign_memory::og_ret::OGRet;
use omniglot::maybe_valid::MaybeValid;

#[test]
fn u32_encode_exact_bytes() {
    let v: u32 = 0xDEADBEEF;
    assert_eq!(v.encode(), vec![0xEF, 0xBE, 0xAD, 0xDE]);
    assert_eq!(<u32 as BitPatternValidate>::decode(&[0xEF, 0xBE, 0xAD, 0xDE]), v);
}

#[test]
fn u16_u64_encode_round_trip() {
    let v16: u16 = 0x0102;
    assert_eq!(v16.encode(), vec![0x02, 0x01]);
    assert_eq!(<u16 as BitPatternValidate>::decode(&v16.encode()), v16);

    let v64: u64 = 0x0807060504030201;
    assert_eq!(v64.encode(), vec![1, 2, 3, 4, 5, 6, 7, 8]);
    assert_eq!(<u64 as BitPatternValidate>::decode(&v64.encode()), v64);
}

#[test]
fn signed_encode_round_trip() {
    let v: i32 = -1;
    assert_eq!(v.encode(), vec![0xFF, 0xFF, 0xFF, 0xFF]);
    assert_eq!(<i32 as BitPatternValidate>::decode(&v.encode()), v);

    let w: i64 = -2;
    assert_eq!(w.encode(), vec![0xFE, 0xFF, 0xFF, 0xFF, 0xFF, 0xFF, 0xFF, 0xFF]);
    assert_eq!(<i64 as BitPatternValidate>::decode(&w.encode()), w);

    assert_eq!(<i32 as BitPatternValidate>::decode(&42i32.encode()), 42);
}

#[test]
fn narrow_and_wide_signed_round_trip() {
    let a: i8 = -5;
    assert_eq!(a.encode(), vec![0xFB]);
    assert_eq!(<i8 as BitPatternValidate>::decode(&a.encode()), a);

    let b: i16 = -2;
    assert_eq!(b.encode(), vec![0xFE, 0xFF]);
    assert_eq!(<i16 as BitPatternValidate>::decode(&b.encode()), b);

    let c: i128 = -3;
    assert_eq!(c.encode().len(), 16);
    assert_eq!(<i128 as BitPatternValidate>::decode(&c.encode()), c);

    let d: u128 = 0x0102030405060708_090A0B0C0D0E0F10;
    assert_eq!(
        d.encode(),
        vec![
            0x10, 0x0F, 0x0E, 0x0D, 0x0C, 0x0B, 0x0A, 0x09, 0x08, 0x07, 0x06, 0x05, 0x04,
            0x03, 0x02, 0x01
        ]
    );
    assert_eq!(<u128 as BitPatternValidate>::decode(&d.encode()), d);
}

#[test]
fn sizes_and_alignments() {
    assert_eq!(<bool as BitPatternValidate>::size_of(), 1);
    assert_eq!(<u8 as BitPatternValidate>::size_of(), 1);
    assert_eq!(<u16 as BitPatternValidate>::size_of(), 2);
    assert_eq!(<u32 as BitPatternValidate>::size_of(), 4);
    assert_eq!(<u64 as BitPatternValidate>::size_of(), 8);
    assert_eq!(<i32 as BitPatternValidate>::size_of(), 4);
    assert_eq!(<i64 as BitPatternValidate>::size_of(), 8);
    assert_eq!(<() as BitPatternValidate>::size_of(), 0);
    assert_eq!(<u64 as BitPatternValidate>::align_of(), 8);
    assert_eq!(<u32 as BitPatternValidate>::align_of(), 4);
    assert_eq!(<() as BitPatternValidate>::align_of(), 1);
}

#[test]
fn bool_validation_boundary() {
    assert_eq!(OGCopy::<bool>::from_bytes(&[0]).validate().unwrap(), false);
    assert_eq!(OGCopy::<bool>::from_bytes(&[1]).validate().unwrap(), true);
    for b in 2..=255u8 {
        match OGCopy::<bool>::from_bytes(&[b]).validate() {
            Ok(_) => panic!("byte {} validated as bool", b),
            Err(copy) => {
                // The original snapshot comes back unchanged.
                assert_eq!(copy.as_bytes(), &[b]);
            },
        }
    }
}

#[test]
fn bool_validate_ref_and_copy() {
    let c = OGCopy::<bool>::from_bytes(&[1]);
    assert_eq!(c.validate_ref(), Some(true));
    assert_eq!(c.validate_copy(), Some(true));
    let bad = OGCopy::<bool>::from_bytes(&[2]);
    assert_eq!(bad.validate_ref(), None);
    assert_eq!(bad.validate_copy(), None);
}

#[test]
fn og_copy_zeroed_new_clone() {
    let z = OGCopy::<u32>::zeroed();
    assert_eq!(z.as_bytes(), &[0, 0, 0, 0]);
    assert_eq!(z.valid_ref(), 0);
    assert_eq!(z.valid(), 0);

    let c = OGCopy::<u32>::new(0x01020304);
    assert_eq!(c.as_bytes(), &[4, 3, 2, 1]);
    let d = c.clone();
    assert_eq!(d.as_bytes(), c.as_bytes());
    assert_eq!(d.valid(), 0x01020304);
}

#[test]
fn og_ret_variants() {
    assert_eq!(OGRet::from_valid_value(5u32).validate().unwrap(), 5);
    assert_eq!(OGRet::from_valid_value(5u32).valid(), 5);
    assert_eq!(OGRet::from_initialized_memory(MaybeValid::new(7u32)).validate().unwrap(), 7);
    assert_eq!(OGRet::from_og_copy(OGCopy::new(9u64)).valid(), 9);

    let bad = OGRet::<bool>::from_initialized_memory(MaybeValid::from_bytes(&[3]));
    assert_eq!(bad.validate_ref(), None);
    assert!(bad.validate().is_err());

    let good = OGRet::<bool>::from_initialized_memory(MaybeValid::from_bytes(&[1]));
    assert_eq!(good.validate_ref(), Some(true));
    assert_eq!(good.validate().unwrap(), true);
    let v = OGRet::from_valid_value(3u64);
    assert_eq!(v.valid_ref(), 3);
}

#[test]
fn maybe_valid_buffer_ops() {
    let z = MaybeValid::<u16>::zeroed();
    assert_eq!(z.as_bytes(), &[0, 0]);

    let mut m = MaybeValid::<u16>::from_bytes(&[0x34, 0x12]);
    assert_eq!(m.as_bytes(), &[0x34, 0x12]);
    m.write(0xBBAA);
    assert_eq!(m.as_bytes(), &[0xAA, 0xBB]);

    let n = MaybeValid::<u32>::new(1);
    assert_eq!(n.as_bytes(), &[1, 0, 0, 0]);
    let o = n.clone();
    assert_eq!(o.as_bytes(), n.as_bytes());
}

#[test]
fn unit_type_is_trivially_valid() {
    let c = OGCopy::<()>::zeroed();
    assert_eq!(c.as_bytes(), &[] as &[u8]);
    assert!(c.validate().is_ok());
}
