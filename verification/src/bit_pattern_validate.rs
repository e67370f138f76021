//! The [`BitPatternValidate`] trait and implementations for primitive types.
//!
//! Foreign code may leave arbitrary bytes behind, so a value read back from
//! foreign memory is only a candidate for its claimed type. A type
//! implementing this trait states which byte patterns are legal values of the
//! type, and how legal patterns and values correspond, so that raw foreign
//! bytes can be promoted into trusted host values.
//!
//! The trait must not be implemented for types with invariants that byte
//! inspection cannot enforce (references, typestate types): the proof
//! obligations below only tie patterns to values, they cannot express such
//! invariants.
//!
//! Known limitations of the implementations here: fixed-size array types
//! `[T; N]` get none, since a decoded array value cannot be assembled in
//! specification code — the slice family validates element by element with
//! the same meaning, and the four-field composite below shows the
//! per-field form for product types. The platform-width integers `usize`
//! and `isize` get none either, since their byte width is
//! platform-dependent while the encodings here are fixed.

use vstd::prelude::*;

verus! {

/// A type whose values correspond to legal byte patterns of a fixed size.
///
/// `valid_pattern` is the per-type predicate answering "do these bytes
/// constitute a legal value"; `decode_spec` and `encode_spec` give the
/// correspondence between legal patterns and values, and the proof
/// obligations require that encoding a value yields a legal pattern of the
/// right size that decodes back to the same value.
pub trait BitPatternValidate: Sized {
    /// The size of this type's byte representation.
    spec fn size_spec() -> nat;

    /// The alignment this type requires of its address.
    spec fn align_spec() -> nat;

    /// Whether `bytes` form a legal value of this type. Meaningful only for
    /// `bytes` of length `size_spec()`.
    spec fn valid_pattern(bytes: Seq<u8>) -> bool;

    /// The value a legal pattern stands for.
    spec fn decode_spec(bytes: Seq<u8>) -> Self;

    /// The byte representation of a value.
    spec fn encode_spec(v: Self) -> Seq<u8>;

    /// An encoded value takes exactly `size_spec()` bytes.
    proof fn lemma_encode_len(v: Self)
        ensures
            Self::encode_spec(v).len() == Self::size_spec(),
    ;

    /// An encoded value is a legal pattern.
    proof fn lemma_encode_valid(v: Self)
        ensures
            Self::valid_pattern(Self::encode_spec(v)),
    ;

    /// Decoding an encoded value yields the value back, bit-identically.
    proof fn lemma_round_trip(v: Self)
        ensures
            Self::decode_spec(Self::encode_spec(v)) == v,
    ;

    /// Alignments are at least one.
    proof fn lemma_align()
        ensures
            Self::align_spec() >= 1,
    ;

    /// Return the size of this type's byte representation.
    fn size_of() -> (r: usize)
        ensures
            r == Self::size_spec(),
    ;

    /// Return the alignment this type requires.
    fn align_of() -> (r: usize)
        ensures
            r == Self::align_spec(),
    ;

    /// Decide whether `bytes` form a legal value of this type.
    fn validate(bytes: &[u8]) -> (r: bool)
        requires
            bytes@.len() == Self::size_spec(),
        ensures
            r == Self::valid_pattern(bytes@),
    ;

    /// Read the value a legal pattern stands for.
    fn decode(bytes: &[u8]) -> (r: Self)
        requires
            bytes@.len() == Self::size_spec(),
            Self::valid_pattern(bytes@),
        ensures
            r == Self::decode_spec(bytes@),
    ;

    /// Write out the byte representation of a value.
    fn encode(&self) -> (r: Vec<u8>)
        ensures
            r@ == Self::encode_spec(*self),
    ;
}

/// A type for which every byte pattern of the right size is legal, so that
/// validation can skip byte inspection entirely.
///
/// This holds for the fixed-width integer types and the unit type, and an
/// implementation must prove it. It must not be claimed for types like `bool`
/// whose legal patterns are a strict subset of all patterns.
pub trait AlwaysValid: BitPatternValidate {
    /// Every pattern of the right size is legal.
    proof fn lemma_always_valid(bytes: Seq<u8>)
        requires
            bytes.len() == Self::size_spec(),
        ensures
            Self::valid_pattern(bytes),
    ;
}

/// Round trip: the byte representation of any value `v` of any validatable
/// type is a legal pattern, and reading it back yields a value
/// bit-identical to `v`. This is why a write to foreign memory may hand
/// back an already-validated view of the value just written.
pub proof fn lemma_write_read_round_trip<T: BitPatternValidate>(v: T)
    ensures
        T::valid_pattern(T::encode_spec(v)),
        T::decode_spec(T::encode_spec(v)) == v,
{
    T::lemma_encode_valid(v);
    T::lemma_round_trip(v);
}

impl BitPatternValidate for bool {
    open spec fn size_spec() -> nat {
        1
    }

    open spec fn align_spec() -> nat {
        1
    }

    /// The only legal members are `false` (the one-byte value 0) and `true`
    /// (the one-byte value 1).
    open spec fn valid_pattern(bytes: Seq<u8>) -> bool {
        bytes[0] == 0u8 || bytes[0] == 1u8
    }

    open spec fn decode_spec(bytes: Seq<u8>) -> bool {
        bytes[0] == 1u8
    }

    open spec fn encode_spec(v: bool) -> Seq<u8> {
        seq![if v { 1u8 } else { 0u8 }]
    }

    proof fn lemma_encode_len(v: bool) {
    }

    proof fn lemma_encode_valid(v: bool) {
    }

    proof fn lemma_round_trip(v: bool) {
    }

    proof fn lemma_align() {
    }

    fn size_of() -> usize {
        1
    }

    fn align_of() -> usize {
        1
    }

    fn validate(bytes: &[u8]) -> (r: bool) {
        bytes[0] == 0 || bytes[0] == 1
    }

    fn decode(bytes: &[u8]) -> (r: bool) {
        bytes[0] == 1
    }

    fn encode(&self) -> (r: Vec<u8>) {
        let mut v: Vec<u8> = Vec::new();
        v.push(if *self { 1 } else { 0 });
        proof {
            assert(v@ =~= Self::encode_spec(*self));
        }
        v
    }
}

impl BitPatternValidate for u8 {
    open spec fn size_spec() -> nat {
        1
    }

    open spec fn align_spec() -> nat {
        1
    }

    open spec fn valid_pattern(bytes: Seq<u8>) -> bool {
        true
    }

    open spec fn decode_spec(bytes: Seq<u8>) -> u8 {
        bytes[0]
    }

    open spec fn encode_spec(v: u8) -> Seq<u8> {
        seq![v]
    }

    proof fn lemma_encode_len(v: u8) {
    }

    proof fn lemma_encode_valid(v: u8) {
    }

    proof fn lemma_round_trip(v: u8) {
    }

    proof fn lemma_align() {
    }

    fn size_of() -> usize {
        1
    }

    fn align_of() -> usize {
        1
    }

    fn validate(bytes: &[u8]) -> (r: bool) {
        true
    }

    fn decode(bytes: &[u8]) -> (r: u8) {
        bytes[0]
    }

    fn encode(&self) -> (r: Vec<u8>) {
        let mut v: Vec<u8> = Vec::new();
        v.push(*self);
        proof {
            assert(v@ =~= Self::encode_spec(*self));
        }
        v
    }
}

impl AlwaysValid for u8 {
    proof fn lemma_always_valid(bytes: Seq<u8>) {
    }
}

impl BitPatternValidate for u16 {
    open spec fn size_spec() -> nat {
        2
    }

    open spec fn align_spec() -> nat {
        2
    }

    open spec fn valid_pattern(bytes: Seq<u8>) -> bool {
        true
    }

    open spec fn decode_spec(bytes: Seq<u8>) -> u16 {
        (bytes[0] as u16) | ((bytes[1] as u16) << 8)
    }

    open spec fn encode_spec(v: u16) -> Seq<u8> {
        seq![(v & 0xff) as u8, ((v >> 8) & 0xff) as u8]
    }

    proof fn lemma_encode_len(v: u16) {
    }

    proof fn lemma_encode_valid(v: u16) {
    }

    proof fn lemma_round_trip(v: u16) {
        let b0 = (v & 0xff) as u8;
        let b1 = ((v >> 8) & 0xff) as u8;
        assert(((b0 as u16) | ((b1 as u16) << 8)) == v) by (bit_vector)
            requires
                b0 == (v & 0xff) as u8,
                b1 == ((v >> 8) & 0xff) as u8,
        ;
        assert(Self::encode_spec(v)[0] == b0);
        assert(Self::encode_spec(v)[1] == b1);
    }

    proof fn lemma_align() {
    }

    fn size_of() -> usize {
        2
    }

    fn align_of() -> usize {
        2
    }

    fn validate(bytes: &[u8]) -> (r: bool) {
        true
    }

    fn decode(bytes: &[u8]) -> (r: u16) {
        (bytes[0] as u16) | ((bytes[1] as u16) << 8)
    }

    fn encode(&self) -> (r: Vec<u8>) {
        let mut v: Vec<u8> = Vec::new();
        v.push((*self & 0xff) as u8);
        v.push(((*self >> 8) & 0xff) as u8);
        proof {
            assert(v@ =~= Self::encode_spec(*self));
        }
        v
    }
}

impl AlwaysValid for u16 {
    proof fn lemma_always_valid(bytes: Seq<u8>) {
    }
}

impl BitPatternValidate for u32 {
    open spec fn size_spec() -> nat {
        4
    }

    open spec fn align_spec() -> nat {
        4
    }

    open spec fn valid_pattern(bytes: Seq<u8>) -> bool {
        true
    }

    open spec fn decode_spec(bytes: Seq<u8>) -> u32 {
        (bytes[0] as u32) | ((bytes[1] as u32) << 8) | ((bytes[2] as u32) << 16) | ((bytes[3]
            as u32) << 24)
    }

    open spec fn encode_spec(v: u32) -> Seq<u8> {
        seq![
            (v & 0xff) as u8,
            ((v >> 8) & 0xff) as u8,
            ((v >> 16) & 0xff) as u8,
            ((v >> 24) & 0xff) as u8,
        ]
    }

    proof fn lemma_encode_len(v: u32) {
    }

    proof fn lemma_encode_valid(v: u32) {
    }

    proof fn lemma_round_trip(v: u32) {
        let b0 = (v & 0xff) as u8;
        let b1 = ((v >> 8) & 0xff) as u8;
        let b2 = ((v >> 16) & 0xff) as u8;
        let b3 = ((v >> 24) & 0xff) as u8;
        assert(((b0 as u32) | ((b1 as u32) << 8) | ((b2 as u32) << 16) | ((b3 as u32) << 24))
            == v) by (bit_vector)
            requires
                b0 == (v & 0xff) as u8,
                b1 == ((v >> 8) & 0xff) as u8,
                b2 == ((v >> 16) & 0xff) as u8,
                b3 == ((v >> 24) & 0xff) as u8,
        ;
        assert(Self::encode_spec(v)[0] == b0);
        assert(Self::encode_spec(v)[1] == b1);
        assert(Self::encode_spec(v)[2] == b2);
        assert(Self::encode_spec(v)[3] == b3);
    }

    proof fn lemma_align() {
    }

    fn size_of() -> usize {
        4
    }

    fn align_of() -> usize {
        4
    }

    fn validate(bytes: &[u8]) -> (r: bool) {
        true
    }

    fn decode(bytes: &[u8]) -> (r: u32) {
        (bytes[0] as u32) | ((bytes[1] as u32) << 8) | ((bytes[2] as u32) << 16) | ((bytes[3]
            as u32) << 24)
    }

    fn encode(&self) -> (r: Vec<u8>) {
        let mut v: Vec<u8> = Vec::new();
        v.push((*self & 0xff) as u8);
        v.push(((*self >> 8) & 0xff) as u8);
        v.push(((*self >> 16) & 0xff) as u8);
        v.push(((*self >> 24) & 0xff) as u8);
        proof {
            assert(v@ =~= Self::encode_spec(*self));
        }
        v
    }
}

impl AlwaysValid for u32 {
    proof fn lemma_always_valid(bytes: Seq<u8>) {
    }
}

impl BitPatternValidate for u64 {
    open spec fn size_spec() -> nat {
        8
    }

    open spec fn align_spec() -> nat {
        8
    }

    open spec fn valid_pattern(bytes: Seq<u8>) -> bool {
        true
    }

    open spec fn decode_spec(bytes: Seq<u8>) -> u64 {
        (bytes[0] as u64) | ((bytes[1] as u64) << 8) | ((bytes[2] as u64) << 16) | ((bytes[3]
            as u64) << 24) | ((bytes[4] as u64) << 32) | ((bytes[5] as u64) << 40) | ((bytes[6]
            as u64) << 48) | ((bytes[7] as u64) << 56)
    }

    open spec fn encode_spec(v: u64) -> Seq<u8> {
        seq![
            (v & 0xff) as u8,
            ((v >> 8) & 0xff) as u8,
            ((v >> 16) & 0xff) as u8,
            ((v >> 24) & 0xff) as u8,
            ((v >> 32) & 0xff) as u8,
            ((v >> 40) & 0xff) as u8,
            ((v >> 48) & 0xff) as u8,
            ((v >> 56) & 0xff) as u8,
        ]
    }

    proof fn lemma_encode_len(v: u64) {
    }

    proof fn lemma_encode_valid(v: u64) {
    }

    proof fn lemma_round_trip(v: u64) {
        let b0 = (v & 0xff) as u8;
        let b1 = ((v >> 8) & 0xff) as u8;
        let b2 = ((v >> 16) & 0xff) as u8;
        let b3 = ((v >> 24) & 0xff) as u8;
        let b4 = ((v >> 32) & 0xff) as u8;
        let b5 = ((v >> 40) & 0xff) as u8;
        let b6 = ((v >> 48) & 0xff) as u8;
        let b7 = ((v >> 56) & 0xff) as u8;
        assert(((b0 as u64) | ((b1 as u64) << 8) | ((b2 as u64) << 16) | ((b3 as u64) << 24) | (
        (b4 as u64) << 32) | ((b5 as u64) << 40) | ((b6 as u64) << 48) | ((b7 as u64) << 56))
            == v) by (bit_vector)
            requires
                b0 == (v & 0xff) as u8,
                b1 == ((v >> 8) & 0xff) as u8,
                b2 == ((v >> 16) & 0xff) as u8,
                b3 == ((v >> 24) & 0xff) as u8,
                b4 == ((v >> 32) & 0xff) as u8,
                b5 == ((v >> 40) & 0xff) as u8,
                b6 == ((v >> 48) & 0xff) as u8,
                b7 == ((v >> 56) & 0xff) as u8,
        ;
        assert(Self::encode_spec(v)[0] == b0);
        assert(Self::encode_spec(v)[1] == b1);
        assert(Self::encode_spec(v)[2] == b2);
        assert(Self::encode_spec(v)[3] == b3);
        assert(Self::encode_spec(v)[4] == b4);
        assert(Self::encode_spec(v)[5] == b5);
        assert(Self::encode_spec(v)[6] == b6);
        assert(Self::encode_spec(v)[7] == b7);
    }

    proof fn lemma_align() {
    }

    fn size_of() -> usize {
        8
    }

    fn align_of() -> usize {
        8
    }

    fn validate(bytes: &[u8]) -> (r: bool) {
        true
    }

    fn decode(bytes: &[u8]) -> (r: u64) {
        (bytes[0] as u64) | ((bytes[1] as u64) << 8) | ((bytes[2] as u64) << 16) | ((bytes[3]
            as u64) << 24) | ((bytes[4] as u64) << 32) | ((bytes[5] as u64) << 40) | ((bytes[6]
            as u64) << 48) | ((bytes[7] as u64) << 56)
    }

    fn encode(&self) -> (r: Vec<u8>) {
        let mut v: Vec<u8> = Vec::new();
        v.push((*self & 0xff) as u8);
        v.push(((*self >> 8) & 0xff) as u8);
        v.push(((*self >> 16) & 0xff) as u8);
        v.push(((*self >> 24) & 0xff) as u8);
        v.push(((*self >> 32) & 0xff) as u8);
        v.push(((*self >> 40) & 0xff) as u8);
        v.push(((*self >> 48) & 0xff) as u8);
        v.push(((*self >> 56) & 0xff) as u8);
        proof {
            assert(v@ =~= Self::encode_spec(*self));
        }
        v
    }
}

impl AlwaysValid for u64 {
    proof fn lemma_always_valid(bytes: Seq<u8>) {
    }
}

impl BitPatternValidate for i8 {
    open spec fn size_spec() -> nat {
        1
    }

    open spec fn align_spec() -> nat {
        1
    }

    open spec fn valid_pattern(bytes: Seq<u8>) -> bool {
        true
    }

    open spec fn decode_spec(bytes: Seq<u8>) -> i8 {
        (<u8 as BitPatternValidate>::decode_spec(bytes)) as i8
    }

    open spec fn encode_spec(v: i8) -> Seq<u8> {
        <u8 as BitPatternValidate>::encode_spec(v as u8)
    }

    proof fn lemma_encode_len(v: i8) {
        <u8 as BitPatternValidate>::lemma_encode_len(v as u8);
    }

    proof fn lemma_encode_valid(v: i8) {
    }

    proof fn lemma_round_trip(v: i8) {
        <u8 as BitPatternValidate>::lemma_round_trip(v as u8);
        assert((v as u8) as i8 == v) by (bit_vector);
    }

    proof fn lemma_align() {
    }

    fn size_of() -> usize {
        1
    }

    fn align_of() -> usize {
        1
    }

    fn validate(bytes: &[u8]) -> (r: bool) {
        true
    }

    fn decode(bytes: &[u8]) -> (r: i8) {
        let u = <u8 as BitPatternValidate>::decode(bytes);
        u as i8
    }

    fn encode(&self) -> (r: Vec<u8>) {
        let u = *self as u8;
        <u8 as BitPatternValidate>::encode(&u)
    }
}

impl AlwaysValid for i8 {
    proof fn lemma_always_valid(bytes: Seq<u8>) {
    }
}

impl BitPatternValidate for i16 {
    open spec fn size_spec() -> nat {
        2
    }

    open spec fn align_spec() -> nat {
        2
    }

    open spec fn valid_pattern(bytes: Seq<u8>) -> bool {
        true
    }

    open spec fn decode_spec(bytes: Seq<u8>) -> i16 {
        (<u16 as BitPatternValidate>::decode_spec(bytes)) as i16
    }

    open spec fn encode_spec(v: i16) -> Seq<u8> {
        <u16 as BitPatternValidate>::encode_spec(v as u16)
    }

    proof fn lemma_encode_len(v: i16) {
        <u16 as BitPatternValidate>::lemma_encode_len(v as u16);
    }

    proof fn lemma_encode_valid(v: i16) {
    }

    proof fn lemma_round_trip(v: i16) {
        <u16 as BitPatternValidate>::lemma_round_trip(v as u16);
        assert((v as u16) as i16 == v) by (bit_vector);
    }

    proof fn lemma_align() {
    }

    fn size_of() -> usize {
        2
    }

    fn align_of() -> usize {
        2
    }

    fn validate(bytes: &[u8]) -> (r: bool) {
        true
    }

    fn decode(bytes: &[u8]) -> (r: i16) {
        let u = <u16 as BitPatternValidate>::decode(bytes);
        u as i16
    }

    fn encode(&self) -> (r: Vec<u8>) {
        let u = *self as u16;
        <u16 as BitPatternValidate>::encode(&u)
    }
}

impl AlwaysValid for i16 {
    proof fn lemma_always_valid(bytes: Seq<u8>) {
    }
}

impl BitPatternValidate for i32 {
    open spec fn size_spec() -> nat {
        4
    }

    open spec fn align_spec() -> nat {
        4
    }

    open spec fn valid_pattern(bytes: Seq<u8>) -> bool {
        true
    }

    open spec fn decode_spec(bytes: Seq<u8>) -> i32 {
        (<u32 as BitPatternValidate>::decode_spec(bytes)) as i32
    }

    open spec fn encode_spec(v: i32) -> Seq<u8> {
        <u32 as BitPatternValidate>::encode_spec(v as u32)
    }

    proof fn lemma_encode_len(v: i32) {
        <u32 as BitPatternValidate>::lemma_encode_len(v as u32);
    }

    proof fn lemma_encode_valid(v: i32) {
    }

    proof fn lemma_round_trip(v: i32) {
        <u32 as BitPatternValidate>::lemma_round_trip(v as u32);
        assert((v as u32) as i32 == v) by (bit_vector);
    }

    proof fn lemma_align() {
    }

    fn size_of() -> usize {
        4
    }

    fn align_of() -> usize {
        4
    }

    fn validate(bytes: &[u8]) -> (r: bool) {
        true
    }

    fn decode(bytes: &[u8]) -> (r: i32) {
        let u = <u32 as BitPatternValidate>::decode(bytes);
        u as i32
    }

    fn encode(&self) -> (r: Vec<u8>) {
        let u = *self as u32;
        <u32 as BitPatternValidate>::encode(&u)
    }
}

impl AlwaysValid for i32 {
    proof fn lemma_always_valid(bytes: Seq<u8>) {
    }
}

impl BitPatternValidate for i64 {
    open spec fn size_spec() -> nat {
        8
    }

    open spec fn align_spec() -> nat {
        8
    }

    open spec fn valid_pattern(bytes: Seq<u8>) -> bool {
        true
    }

    open spec fn decode_spec(bytes: Seq<u8>) -> i64 {
        (<u64 as BitPatternValidate>::decode_spec(bytes)) as i64
    }

    open spec fn encode_spec(v: i64) -> Seq<u8> {
        <u64 as BitPatternValidate>::encode_spec(v as u64)
    }

    proof fn lemma_encode_len(v: i64) {
        <u64 as BitPatternValidate>::lemma_encode_len(v as u64);
    }

    proof fn lemma_encode_valid(v: i64) {
    }

    proof fn lemma_round_trip(v: i64) {
        <u64 as BitPatternValidate>::lemma_round_trip(v as u64);
        assert((v as u64) as i64 == v) by (bit_vector);
    }

    proof fn lemma_align() {
    }

    fn size_of() -> usize {
        8
    }

    fn align_of() -> usize {
        8
    }

    fn validate(bytes: &[u8]) -> (r: bool) {
        true
    }

    fn decode(bytes: &[u8]) -> (r: i64) {
        let u = <u64 as BitPatternValidate>::decode(bytes);
        u as i64
    }

    fn encode(&self) -> (r: Vec<u8>) {
        let u = *self as u64;
        <u64 as BitPatternValidate>::encode(&u)
    }
}

impl AlwaysValid for i64 {
    proof fn lemma_always_valid(bytes: Seq<u8>) {
    }
}

impl BitPatternValidate for u128 {
    open spec fn size_spec() -> nat {
        16
    }

    open spec fn align_spec() -> nat {
        16
    }

    open spec fn valid_pattern(bytes: Seq<u8>) -> bool {
        true
    }

    open spec fn decode_spec(bytes: Seq<u8>) -> u128 {
        (<u64 as BitPatternValidate>::decode_spec(bytes.subrange(0, 8)) as u128) | ((<u64
            as BitPatternValidate>::decode_spec(bytes.subrange(8, 16)) as u128) << 64)
    }

    open spec fn encode_spec(v: u128) -> Seq<u8> {
        <u64 as BitPatternValidate>::encode_spec((v & 0xffff_ffff_ffff_ffff) as u64) + <u64
            as BitPatternValidate>::encode_spec(((v >> 64) & 0xffff_ffff_ffff_ffff) as u64)
    }

    proof fn lemma_encode_len(v: u128) {
        <u64 as BitPatternValidate>::lemma_encode_len((v & 0xffff_ffff_ffff_ffff) as u64);
        <u64 as BitPatternValidate>::lemma_encode_len(((v >> 64) & 0xffff_ffff_ffff_ffff) as u64);
    }

    proof fn lemma_encode_valid(v: u128) {
    }

    proof fn lemma_round_trip(v: u128) {
        let lo = (v & 0xffff_ffff_ffff_ffff) as u64;
        let hi = ((v >> 64) & 0xffff_ffff_ffff_ffff) as u64;
        <u64 as BitPatternValidate>::lemma_encode_len(lo);
        <u64 as BitPatternValidate>::lemma_encode_len(hi);
        <u64 as BitPatternValidate>::lemma_round_trip(lo);
        <u64 as BitPatternValidate>::lemma_round_trip(hi);
        let enc = Self::encode_spec(v);
        assert(enc.subrange(0, 8) =~= <u64 as BitPatternValidate>::encode_spec(lo));
        assert(enc.subrange(8, 16) =~= <u64 as BitPatternValidate>::encode_spec(hi));
        assert(((lo as u128) | ((hi as u128) << 64)) == v) by (bit_vector)
            requires
                lo == (v & 0xffff_ffff_ffff_ffff) as u64,
                hi == ((v >> 64) & 0xffff_ffff_ffff_ffff) as u64,
        ;
    }

    proof fn lemma_align() {
    }

    fn size_of() -> usize {
        16
    }

    fn align_of() -> usize {
        16
    }

    fn validate(bytes: &[u8]) -> (r: bool) {
        true
    }

    fn decode(bytes: &[u8]) -> (r: u128) {
        let lo_bytes = slice_chunk(bytes, 0, 8);
        let hi_bytes = slice_chunk(bytes, 8, 8);
        let lo = <u64 as BitPatternValidate>::decode(lo_bytes.as_slice());
        let hi = <u64 as BitPatternValidate>::decode(hi_bytes.as_slice());
        (lo as u128) | ((hi as u128) << 64)
    }

    fn encode(&self) -> (r: Vec<u8>) {
        let lo = (*self & 0xffff_ffff_ffff_ffff) as u64;
        let hi = ((*self >> 64) & 0xffff_ffff_ffff_ffff) as u64;
        let mut out = lo.encode();
        let mut hi_bytes = hi.encode();
        out.append(&mut hi_bytes);
        out
    }
}

impl AlwaysValid for u128 {
    proof fn lemma_always_valid(bytes: Seq<u8>) {
    }
}

impl BitPatternValidate for i128 {
    open spec fn size_spec() -> nat {
        16
    }

    open spec fn align_spec() -> nat {
        16
    }

    open spec fn valid_pattern(bytes: Seq<u8>) -> bool {
        true
    }

    open spec fn decode_spec(bytes: Seq<u8>) -> i128 {
        (<u128 as BitPatternValidate>::decode_spec(bytes)) as i128
    }

    open spec fn encode_spec(v: i128) -> Seq<u8> {
        <u128 as BitPatternValidate>::encode_spec(v as u128)
    }

    proof fn lemma_encode_len(v: i128) {
        <u128 as BitPatternValidate>::lemma_encode_len(v as u128);
    }

    proof fn lemma_encode_valid(v: i128) {
    }

    proof fn lemma_round_trip(v: i128) {
        <u128 as BitPatternValidate>::lemma_round_trip(v as u128);
        assert((v as u128) as i128 == v) by (bit_vector);
    }

    proof fn lemma_align() {
    }

    fn size_of() -> usize {
        16
    }

    fn align_of() -> usize {
        16
    }

    fn validate(bytes: &[u8]) -> (r: bool) {
        true
    }

    fn decode(bytes: &[u8]) -> (r: i128) {
        let u = <u128 as BitPatternValidate>::decode(bytes);
        u as i128
    }

    fn encode(&self) -> (r: Vec<u8>) {
        let u = *self as u128;
        <u128 as BitPatternValidate>::encode(&u)
    }
}

impl AlwaysValid for i128 {
    proof fn lemma_always_valid(bytes: Seq<u8>) {
    }
}

/// A product of four `u64` values, encoded field by field: a 32-byte,
/// 8-aligned shape, the explicit per-field implementation for a composite
/// of unconditionally valid fields.
impl BitPatternValidate for (u64, u64, u64, u64) {
    open spec fn size_spec() -> nat {
        32
    }

    open spec fn align_spec() -> nat {
        8
    }

    open spec fn valid_pattern(bytes: Seq<u8>) -> bool {
        true
    }

    open spec fn decode_spec(bytes: Seq<u8>) -> (u64, u64, u64, u64) {
        (
            <u64 as BitPatternValidate>::decode_spec(bytes.subrange(0, 8)),
            <u64 as BitPatternValidate>::decode_spec(bytes.subrange(8, 16)),
            <u64 as BitPatternValidate>::decode_spec(bytes.subrange(16, 24)),
            <u64 as BitPatternValidate>::decode_spec(bytes.subrange(24, 32)),
        )
    }

    open spec fn encode_spec(v: (u64, u64, u64, u64)) -> Seq<u8> {
        <u64 as BitPatternValidate>::encode_spec(v.0) + <u64 as BitPatternValidate>::encode_spec(
            v.1,
        ) + <u64 as BitPatternValidate>::encode_spec(v.2)
            + <u64 as BitPatternValidate>::encode_spec(v.3)
    }

    proof fn lemma_encode_len(v: (u64, u64, u64, u64)) {
        <u64 as BitPatternValidate>::lemma_encode_len(v.0);
        <u64 as BitPatternValidate>::lemma_encode_len(v.1);
        <u64 as BitPatternValidate>::lemma_encode_len(v.2);
        <u64 as BitPatternValidate>::lemma_encode_len(v.3);
    }

    proof fn lemma_encode_valid(v: (u64, u64, u64, u64)) {
    }

    proof fn lemma_round_trip(v: (u64, u64, u64, u64)) {
        Self::lemma_encode_len(v);
        <u64 as BitPatternValidate>::lemma_round_trip(v.0);
        <u64 as BitPatternValidate>::lemma_round_trip(v.1);
        <u64 as BitPatternValidate>::lemma_round_trip(v.2);
        <u64 as BitPatternValidate>::lemma_round_trip(v.3);
        let enc = Self::encode_spec(v);
        assert(enc.subrange(0, 8) =~= <u64 as BitPatternValidate>::encode_spec(v.0));
        assert(enc.subrange(8, 16) =~= <u64 as BitPatternValidate>::encode_spec(v.1));
        assert(enc.subrange(16, 24) =~= <u64 as BitPatternValidate>::encode_spec(v.2));
        assert(enc.subrange(24, 32) =~= <u64 as BitPatternValidate>::encode_spec(v.3));
    }

    proof fn lemma_align() {
    }

    fn size_of() -> usize {
        32
    }

    fn align_of() -> usize {
        8
    }

    fn validate(bytes: &[u8]) -> (r: bool) {
        true
    }

    fn decode(bytes: &[u8]) -> (r: (u64, u64, u64, u64)) {
        let b0 = slice_chunk(bytes, 0, 8);
        let b1 = slice_chunk(bytes, 8, 8);
        let b2 = slice_chunk(bytes, 16, 8);
        let b3 = slice_chunk(bytes, 24, 8);
        (
            <u64 as BitPatternValidate>::decode(b0.as_slice()),
            <u64 as BitPatternValidate>::decode(b1.as_slice()),
            <u64 as BitPatternValidate>::decode(b2.as_slice()),
            <u64 as BitPatternValidate>::decode(b3.as_slice()),
        )
    }

    fn encode(&self) -> (r: Vec<u8>) {
        let mut out = self.0.encode();
        let mut b1 = self.1.encode();
        let mut b2 = self.2.encode();
        let mut b3 = self.3.encode();
        out.append(&mut b1);
        out.append(&mut b2);
        out.append(&mut b3);
        out
    }
}

impl AlwaysValid for (u64, u64, u64, u64) {
    proof fn lemma_always_valid(bytes: Seq<u8>) {
    }
}

/// Copy the byte range `[start, start + len)` out of a slice.
fn slice_chunk(bytes: &[u8], start: usize, len: usize) -> (r: Vec<u8>)
    requires
        start + len <= bytes@.len(),
    ensures
        r@ == bytes@.subrange(start as int, start + len),
{
    let n = bytes.len();
    let mut out: Vec<u8> = Vec::new();
    let mut i: usize = 0;
    while i < len
        invariant
            i <= len,
            n == bytes@.len(),
            start + len <= n,
            out@ == bytes@.subrange(start as int, start + i),
        decreases len - i,
    {
        out.push(bytes[start + i]);
        i = i + 1;
        proof {
            assert(out@ =~= bytes@.subrange(start as int, start + i));
        }
    }
    out
}

impl BitPatternValidate for () {
    open spec fn size_spec() -> nat {
        0
    }

    open spec fn align_spec() -> nat {
        1
    }

    open spec fn valid_pattern(bytes: Seq<u8>) -> bool {
        true
    }

    open spec fn decode_spec(bytes: Seq<u8>) -> () {
        ()
    }

    open spec fn encode_spec(v: ()) -> Seq<u8> {
        Seq::empty()
    }

    proof fn lemma_encode_len(v: ()) {
    }

    proof fn lemma_encode_valid(v: ()) {
    }

    proof fn lemma_round_trip(v: ()) {
    }

    proof fn lemma_align() {
    }

    fn size_of() -> usize {
        0
    }

    fn align_of() -> usize {
        1
    }

    fn validate(bytes: &[u8]) -> (r: bool) {
        true
    }

    fn decode(bytes: &[u8]) -> (r: ()) {
        ()
    }

    fn encode(&self) -> (r: Vec<u8>) {
        let v: Vec<u8> = Vec::new();
        proof {
            assert(v@ =~= Self::encode_spec(*self));
        }
        v
    }
}

impl AlwaysValid for () {
    proof fn lemma_always_valid(bytes: Seq<u8>) {
    }
}

} // verus!
