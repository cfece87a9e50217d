use maxbits::{MaxBits, MAX_WIDTH};

#[test]
fn construct_succeeds_iff_value_fits() {
    assert!(MaxBits::new(255, 8).is_some());
    assert!(MaxBits::new(256, 8).is_none());
    assert!(MaxBits::new(0, 0).is_some());
    assert!(MaxBits::new(1, 0).is_none());
    assert!(MaxBits::new(1, 1).is_some());
    assert!(MaxBits::new(0xffff, 16).is_some());
    assert!(MaxBits::new(0x10000, 16).is_none());
}

#[test]
fn extract_returns_constructed_value() {
    let v = MaxBits::new(0xabc, 12).unwrap();
    assert_eq!(v.into_inner(), 0xabc);
    let z = MaxBits::new(0, 5).unwrap();
    assert_eq!(z.into_inner(), 0);
}

#[test]
fn widen_narrow_round_trip() {
    let v = MaxBits::new(0x7f, 8).unwrap();
    let wide = v.widen(64);
    assert_eq!(wide.into_inner(), 0x7f);
    let back = wide.narrow(8).unwrap();
    assert_eq!(back.into_inner(), 0x7f);
}

#[test]
fn narrow_fails_when_value_needs_more_bits() {
    let v = MaxBits::new(255, 8).unwrap();
    assert!(v.narrow(7).is_none());
}

#[test]
fn narrow_succeeds_for_small_value() {
    let v = MaxBits::new(3, 48).unwrap();
    let n = v.narrow(2).unwrap();
    assert_eq!(n.into_inner(), 3);
}

#[test]
fn shift_round_trip() {
    let v = MaxBits::new(0xabcd, 16).unwrap();
    let shifted = v.shl(10);
    assert_eq!(shifted.into_inner(), 0xabcd << 10);
    let back = shifted.shr(10);
    assert_eq!(back.into_inner(), 0xabcd);
}

#[test]
fn shift_to_full_capacity() {
    let one = MaxBits::new(1, 1).unwrap();
    let top = one.shl(127);
    assert_eq!(top.into_inner(), 1u128 << 127);
    assert_eq!(top.shr(127).into_inner(), 1);
}

#[test]
fn shift_of_zero_width_value() {
    let z = MaxBits::new(0, 0).unwrap();
    assert_eq!(z.shl(128).into_inner(), 0);
}

#[test]
fn shift_right_discards_all_bits() {
    let v = MaxBits::new(u128::MAX, 128).unwrap();
    assert_eq!(v.shr(128).into_inner(), 0);
    let w = MaxBits::new(0xff, 8).unwrap();
    assert_eq!(w.shr(8).into_inner(), 0);
}

#[test]
fn or_and_of_mixed_widths() {
    let a = MaxBits::new(0xffff, 16).unwrap();
    let b = MaxBits::new(0xcdbaef123456, 48).unwrap();
    assert_eq!(a.bitor(b).into_inner(), 0xffff | 0xcdbaef123456);
    assert_eq!(a.bitand(b).into_inner(), 0xffff & 0xcdbaef123456);
    // the OR result is tagged 48 bits wide, so narrowing it to 48 keeps it intact
    let o = a.bitor(b).narrow(48).unwrap();
    assert_eq!(o.into_inner(), 0xffff | 0xcdbaef123456);
}

#[test]
fn xor_of_equal_widths() {
    let a = MaxBits::new(0b1010, 4).unwrap();
    let b = MaxBits::new(0b0110, 4).unwrap();
    assert_eq!(a.bitxor(b).into_inner(), 0b1100);
}

#[test]
fn not_flips_every_storage_bit() {
    let v = MaxBits::new(0, 4).unwrap();
    assert_eq!(v.not().into_inner(), u128::MAX);
    let w = MaxBits::new(0xf0, 8).unwrap();
    assert_eq!(w.not().into_inner(), !0xf0u128);
    // the complement is tagged with the maximum width, and it really uses
    // every bit: narrowing back to the input's width fails
    assert!(v.not().narrow(4).is_none());
}

#[test]
fn add_computes_sum_with_room_for_carry() {
    let a = MaxBits::new(0xff, 8).unwrap();
    let b = MaxBits::new(0xff, 8).unwrap();
    assert_eq!(a.add(b).into_inner(), 0x1fe);
    // two values one bit under capacity sum without overflowing the cell
    let big = MaxBits::new((1u128 << 127) - 1, 127).unwrap();
    let big2 = MaxBits::new((1u128 << 127) - 1, 127).unwrap();
    assert_eq!(big.add(big2).into_inner(), u128::MAX - 1);
}

#[test]
fn sub_computes_difference() {
    let a = MaxBits::new(10, 4).unwrap();
    let b = MaxBits::new(3, 2).unwrap();
    assert_eq!(a.sub(b).into_inner(), 7);
    let c = MaxBits::new(7, 4).unwrap();
    assert_eq!(a.sub(c).into_inner(), 3);
}

#[test]
fn compose_shift_widen_add() {
    let bits = MaxBits::new(0xffff, 16).unwrap();
    let shifted = bits.shl(15);
    assert_eq!(shifted.into_inner(), 0x7fff8000);
    let widened = shifted.widen(32);
    let bigger = MaxBits::new(0xcdbaef123456, 48).unwrap();
    let summed = widened.add(bigger);
    assert_eq!(summed.into_inner(), 0xcdbaef123456 + 0x7fff8000);
    // the sum is tagged 49 bits wide and indeed fits them
    assert!(summed.narrow(49).is_some());
}

#[test]
fn boundary_maximum_width_and_value() {
    let v = MaxBits::new(u128::MAX, MAX_WIDTH).unwrap();
    assert_eq!(v.into_inner(), u128::MAX);
    assert!(MaxBits::new(u128::MAX, 127).is_none());
}

#[test]
fn mask_extraction_scenario() {
    let bits = MaxBits::new(u128::MAX, 128).unwrap();
    let one = MaxBits::new(1, 1).unwrap();
    let eighty_mask = one.shl(80).sub(one).narrow(80).unwrap();
    assert_eq!(eighty_mask.into_inner(), (1u128 << 80) - 1);
    let low = bits.bitand(eighty_mask);
    assert_eq!(low.into_inner(), (1u128 << 80) - 1);
    let six_mask = one.shl(6).sub(one).narrow(6).unwrap();
    let six_bits = eighty_mask.bitand(six_mask.shl(74)).shr(74);
    assert_eq!(six_bits.into_inner(), 0x3f);
}
