use simd_prngs::lanes32::U32Lanes;
use simd_prngs::lanes64::U64Lanes;

#[test]
fn splat_fills_every_lane() {
    assert_eq!(U32Lanes::<4>::splat(7).lanes, [7, 7, 7, 7]);
    assert_eq!(U64Lanes::<2>::splat(u64::MAX).lanes, [u64::MAX, u64::MAX]);
}

#[test]
fn shifts_act_on_every_lane() {
    let x = U32Lanes { lanes: [1, 0x8000_0001, 0xffff_ffff, 0] };
    assert_eq!(x.shl(1).lanes, [2, 2, 0xffff_fffe, 0]);
    assert_eq!(x.shr(1).lanes, [0, 0x4000_0000, 0x7fff_ffff, 0]);
    assert_eq!(x.shl(0).lanes, x.lanes);
    assert_eq!(x.shl(31).lanes, [0x8000_0000, 0x8000_0000, 0x8000_0000, 0]);
    let y = U64Lanes { lanes: [1, 0x8000_0000_0000_0001] };
    assert_eq!(y.shl(63).lanes, [0x8000_0000_0000_0000, 0x8000_0000_0000_0000]);
    assert_eq!(y.shr(63).lanes, [0, 1]);
}

#[test]
fn bitwise_operations_act_on_every_lane() {
    let a = U32Lanes { lanes: [0b1100, 0xffff_0000] };
    let b = U32Lanes { lanes: [0b1010, 0x0ff0_0ff0] };
    assert_eq!(a.xor(&b).lanes, [0b0110, 0xf00f_0ff0]);
    assert_eq!(a.and(&b).lanes, [0b1000, 0x0ff0_0000]);
    assert_eq!(a.or(&b).lanes, [0b1110, 0xffff_0ff0]);
    let c = U64Lanes { lanes: [0b1100, 0xffff_0000_ffff_0000] };
    let d = U64Lanes { lanes: [0b1010, 0x0ff0_0ff0_0ff0_0ff0] };
    assert_eq!(c.xor(&d).lanes, [0b0110, 0xf00f_0ff0_f00f_0ff0]);
    assert_eq!(c.and(&d).lanes, [0b1000, 0x0ff0_0000_0ff0_0000]);
}

#[test]
fn addition_wraps() {
    let a = U32Lanes { lanes: [u32::MAX, 5] };
    let b = U32Lanes { lanes: [2, 6] };
    assert_eq!(a.add(&b).lanes, [1, 11]);
    let c = U64Lanes { lanes: [u64::MAX, 5] };
    let d = U64Lanes { lanes: [1, 6] };
    assert_eq!(c.add(&d).lanes, [0, 11]);
}

#[test]
fn any_le_looks_at_every_lane() {
    let bound = U32Lanes::<4>::splat(7);
    assert!(U32Lanes { lanes: [8, 9, 7, 10] }.any_le(&bound));
    assert!(U32Lanes { lanes: [0, 9, 8, 10] }.any_le(&bound));
    assert!(U32Lanes { lanes: [8, 9, 8, 1] }.any_le(&bound));
    assert!(!U32Lanes { lanes: [8, 9, 8, 10] }.any_le(&bound));
    let bound = U64Lanes::<2>::splat(511);
    assert!(U64Lanes { lanes: [512, 511] }.any_le(&bound));
    assert!(!U64Lanes { lanes: [512, 1 << 40] }.any_le(&bound));
}

#[test]
fn bytes_are_read_least_significant_first() {
    let x = U32Lanes::<2>::from_le_bytes(&[1, 2, 3, 4, 0xff, 0, 0, 0x80]);
    assert_eq!(x.lanes, [0x0403_0201, 0x8000_00ff]);
    let y = U64Lanes::<1>::from_le_bytes(&[1, 2, 3, 4, 5, 6, 7, 8]);
    assert_eq!(y.lanes, [0x0807_0605_0403_0201]);
}

#[test]
fn bytes_round_trip_most_significant_first() {
    let x = U32Lanes { lanes: [0x0403_0201, 0x8000_00ff] };
    assert_eq!(x.to_be_bytes(), vec![4, 3, 2, 1, 0x80, 0, 0, 0xff]);
    assert_eq!(U32Lanes::<2>::from_be_bytes(&x.to_be_bytes()).lanes, x.lanes);
    let y = U64Lanes { lanes: [0x0807_0605_0403_0201] };
    assert_eq!(y.to_be_bytes(), vec![8, 7, 6, 5, 4, 3, 2, 1]);
    assert_eq!(U64Lanes::<1>::from_be_bytes(&y.to_be_bytes()).lanes, y.lanes);
}

#[test]
fn lane_shuffle_gathers() {
    let x = U32Lanes { lanes: [10, 11, 12, 13] };
    assert_eq!(x.shuffle([1, 0, 3, 2]).lanes, [11, 10, 13, 12]);
    assert_eq!(x.shuffle([3, 3, 0, 0]).lanes, [13, 13, 10, 10]);
}

#[test]
fn widening_multiply_of_even_lanes() {
    let a = U32Lanes { lanes: [0xdead_beef, 99, 0xffff_ffff, 98] };
    let b = U32Lanes { lanes: [0x1234_5678, 97, 0xffff_ffff, 96] };
    assert_eq!(
        a.widening_mul_even(&b).lanes,
        [0x5621_ca08, 0x0fd5_bdee, 0x0000_0001, 0xffff_fffe]
    );
}

#[test]
fn widening_multiply_of_low_halves() {
    let a = U64Lanes { lanes: [0xaaaa_aaaa_dead_beef, 0xffff_ffff_ffff_ffff] };
    let b = U64Lanes { lanes: [0xbbbb_bbbb_1234_5678, 0xffff_ffff_ffff_ffff] };
    assert_eq!(
        a.widening_mul_low(&b).lanes,
        [0x0fd5_bdee_5621_ca08, 0xffff_fffe_0000_0001]
    );
}
