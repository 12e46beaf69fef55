use simd_prngs::lanes32::U32Lanes;
use simd_prngs::lanes64::U64Lanes;
use simd_prngs::rotate::{build_family, build_left, build_right, build_rotate_indices, shuffle};

fn sample32(seed: u32, count: usize) -> Vec<u32> {
    let mut x = seed;
    let mut out = Vec::new();
    for _ in 0..count {
        x ^= x << 13;
        x ^= x >> 17;
        x ^= x << 5;
        out.push(x);
    }
    out
}

fn sample64(seed: u64, count: usize) -> Vec<u64> {
    let mut x = seed;
    let mut out = Vec::new();
    for _ in 0..count {
        x ^= x << 13;
        x ^= x >> 7;
        x ^= x << 17;
        out.push(x);
    }
    out
}

fn check_width32<const N: usize>() {
    let values = sample32(0x9e37_79b9, 64 * N);
    for chunk in values.chunks(N) {
        let mut lanes = [0u32; N];
        lanes.copy_from_slice(chunk);
        let x = U32Lanes { lanes };
        for amount in 0..=40u32 {
            let left = x.rotate_left(amount);
            let right = x.rotate_right(amount);
            let left_generic = x.rotate_left_generic(amount);
            let right_generic = x.rotate_right_generic(amount);
            assert_eq!(left.lanes, left_generic.lanes);
            assert_eq!(right.lanes, right_generic.lanes);
            for i in 0..N {
                assert_eq!(left.lanes[i], lanes[i].rotate_left(amount));
                assert_eq!(right.lanes[i], lanes[i].rotate_right(amount));
            }
            assert_eq!(left.rotate_right(amount).lanes, lanes);
            assert_eq!(right.rotate_left(amount).lanes, lanes);
        }
        for amount in [8u32, 16, 24] {
            assert_eq!(
                x.rotate_left_permuted(amount).lanes,
                x.rotate_left_generic(amount).lanes
            );
            assert_eq!(
                x.rotate_right_permuted(amount).lanes,
                x.rotate_right_generic(amount).lanes
            );
        }
    }
}

fn check_width64<const N: usize>() {
    let values = sample64(0x2545_f491_4f6c_dd1d, 64 * N);
    for chunk in values.chunks(N) {
        let mut lanes = [0u64; N];
        lanes.copy_from_slice(chunk);
        let x = U64Lanes { lanes };
        for amount in 0..=70u32 {
            let left = x.rotate_left(amount);
            let right = x.rotate_right(amount);
            assert_eq!(left.lanes, x.rotate_left_generic(amount).lanes);
            assert_eq!(right.lanes, x.rotate_right_generic(amount).lanes);
            for i in 0..N {
                assert_eq!(left.lanes[i], lanes[i].rotate_left(amount));
                assert_eq!(right.lanes[i], lanes[i].rotate_right(amount));
            }
            assert_eq!(left.rotate_right(amount).lanes, lanes);
            assert_eq!(right.rotate_left(amount).lanes, lanes);
        }
        for amount in [8u32, 16, 24, 32, 40, 48, 56] {
            assert_eq!(
                x.rotate_left_permuted(amount).lanes,
                x.rotate_left_generic(amount).lanes
            );
            assert_eq!(
                x.rotate_right_permuted(amount).lanes,
                x.rotate_right_generic(amount).lanes
            );
        }
    }
}

#[test]
fn permuted_and_generic_rotation_agree_on_32_bit_lanes() {
    check_width32::<2>();
    check_width32::<4>();
    check_width32::<8>();
    check_width32::<16>();
}

#[test]
fn permuted_and_generic_rotation_agree_on_64_bit_lanes() {
    check_width64::<2>();
    check_width64::<4>();
    check_width64::<8>();
}

#[test]
fn rotate_left_by_whole_bytes_gives_known_values() {
    let x = U32Lanes { lanes: [0x1122_3344, 0x0000_0001] };
    assert_eq!(x.rotate_left(8).lanes, [0x2233_4411, 0x0000_0100]);
    assert_eq!(x.rotate_left(24).lanes, [0x4411_2233, 0x0100_0000]);
    assert_eq!(x.rotate_right(8).lanes, [0x4411_2233, 0x0100_0000]);
    let y = U64Lanes { lanes: [0x0123_4567_89ab_cdef, 1] };
    assert_eq!(y.rotate_left(40).lanes, [0xabcd_ef01_2345_6789, 1 << 40]);
    assert_eq!(y.rotate_right(24).lanes, [0xabcd_ef01_2345_6789, 1 << 40]);
}

#[test]
fn rotate_left_by_odd_distance_gives_known_values() {
    let x = U32Lanes { lanes: [0x1122_3344, 0x8000_0000] };
    assert_eq!(x.rotate_left(5).lanes, [0x2446_6882, 0x0000_0010]);
    assert_eq!(x.rotate_right(27).lanes, [0x2446_6882, 0x0000_0010]);
}

#[test]
fn rotation_by_zero_is_identity() {
    let x = U32Lanes { lanes: [0xdead_beef, 0, 0xffff_ffff, 7] };
    assert_eq!(x.rotate_left(0).lanes, x.lanes);
    assert_eq!(x.rotate_right(0).lanes, x.lanes);
    let y = U64Lanes { lanes: [0xdead_beef_0bad_f00d, u64::MAX] };
    assert_eq!(y.rotate_left(0).lanes, y.lanes);
    assert_eq!(y.rotate_right(0).lanes, y.lanes);
}

#[test]
fn rotation_by_the_lane_width_is_identity() {
    let x = U32Lanes { lanes: [0xdead_beef, 1] };
    assert_eq!(x.rotate_left(32).lanes, x.lanes);
    assert_eq!(x.rotate_right(64).lanes, x.lanes);
    let y = U64Lanes { lanes: [0xdead_beef_0bad_f00d, 1] };
    assert_eq!(y.rotate_left(64).lanes, y.lanes);
    assert_eq!(y.rotate_right(128).lanes, y.lanes);
}

#[test]
fn left_tables_for_32_bit_lanes() {
    assert_eq!(build_left(8, 4, 1), vec![1, 2, 3, 0, 5, 6, 7, 4]);
    assert_eq!(
        build_left(16, 4, 2),
        vec![2, 3, 0, 1, 6, 7, 4, 5, 10, 11, 8, 9, 14, 15, 12, 13]
    );
    assert_eq!(build_left(8, 4, 3), vec![3, 0, 1, 2, 7, 4, 5, 6]);
    assert_eq!(build_left(8, 4, 0), vec![0, 1, 2, 3, 4, 5, 6, 7]);
    assert_eq!(build_left(8, 4, 4), vec![0, 1, 2, 3, 4, 5, 6, 7]);
    assert_eq!(build_left(0, 4, 1), Vec::<usize>::new());
}

#[test]
fn left_tables_for_64_bit_lanes() {
    assert_eq!(
        build_left(16, 8, 1),
        vec![1, 2, 3, 4, 5, 6, 7, 0, 9, 10, 11, 12, 13, 14, 15, 8]
    );
    assert_eq!(
        build_left(16, 8, 5),
        vec![5, 6, 7, 0, 1, 2, 3, 4, 13, 14, 15, 8, 9, 10, 11, 12]
    );
    assert_eq!(
        build_left(32, 8, 7),
        vec![
            7, 0, 1, 2, 3, 4, 5, 6, 15, 8, 9, 10, 11, 12, 13, 14, 23, 16, 17, 18, 19, 20, 21,
            22, 31, 24, 25, 26, 27, 28, 29, 30
        ]
    );
}

#[test]
fn right_tables() {
    assert_eq!(build_right(8, 4, 1), vec![3, 0, 1, 2, 7, 4, 5, 6]);
    assert_eq!(build_right(8, 4, 3), vec![1, 2, 3, 0, 5, 6, 7, 4]);
    assert_eq!(
        build_right(16, 8, 3),
        vec![5, 6, 7, 0, 1, 2, 3, 4, 13, 14, 15, 8, 9, 10, 11, 12]
    );
    assert_eq!(build_right(8, 4, 0), vec![0, 1, 2, 3, 4, 5, 6, 7]);
    assert_eq!(build_right(8, 4, 4), vec![0, 1, 2, 3, 4, 5, 6, 7]);
}

#[test]
fn left_and_right_tables_are_inverse_permutations() {
    for (len, block) in [(8usize, 4usize), (16, 4), (32, 4), (64, 4), (16, 8), (32, 8), (64, 8)] {
        for rot in 0..block {
            let left = build_left(len, block, rot);
            let right = build_right(len, block, rot);
            for i in 0..len {
                assert_eq!(left[right[i]], i);
                assert_eq!(right[left[i]], i);
            }
        }
    }
}

#[test]
fn tables_match_std_slice_rotation() {
    for (len, block) in [(8usize, 4usize), (64, 4), (16, 8), (64, 8)] {
        for rot in 0..=block {
            let mut left: Vec<usize> = (0..len).collect();
            let mut right: Vec<usize> = (0..len).collect();
            for idx in (0..len).step_by(block) {
                left[idx..][..block].rotate_left(rot);
                right[idx..][..block].rotate_right(rot);
            }
            assert_eq!(build_left(len, block, rot), left);
            assert_eq!(build_right(len, block, rot), right);
        }
    }
}

#[test]
fn all_tables_come_in_order() {
    let tables = build_rotate_indices();
    assert_eq!(tables.len(), 80);
    assert_eq!(tables[0], build_left(8, 4, 0));
    assert_eq!(tables[1], build_left(16, 4, 0));
    assert_eq!(tables[3], build_left(64, 4, 0));
    assert_eq!(tables[4], vec![1, 2, 3, 0, 5, 6, 7, 4]);
    assert_eq!(tables[15], build_left(64, 4, 3));
    assert_eq!(tables[16], build_left(16, 8, 0));
    assert_eq!(tables[19], build_left(16, 8, 1));
    assert_eq!(tables[39], build_left(64, 8, 7));
    assert_eq!(tables[40], build_right(8, 4, 0));
    assert_eq!(tables[44], vec![3, 0, 1, 2, 7, 4, 5, 6]);
    assert_eq!(tables[55], build_right(64, 4, 3));
    assert_eq!(tables[56], build_right(16, 8, 0));
    assert_eq!(tables[79], build_right(64, 8, 7));
    let mut k = 0;
    for rot in 0..4 {
        for len in [8, 16, 32, 64] {
            assert_eq!(tables[k], build_left(len, 4, rot));
            assert_eq!(tables[40 + k], build_right(len, 4, rot));
            k += 1;
        }
    }
    let mut k = 0;
    for rot in 0..8 {
        for len in [16, 32, 64] {
            assert_eq!(tables[16 + k], build_left(len, 8, rot));
            assert_eq!(tables[56 + k], build_right(len, 8, rot));
            k += 1;
        }
    }
}

#[test]
fn shuffle_gathers_through_indices() {
    let bytes = [10u8, 11, 12, 13];
    assert_eq!(shuffle(&bytes, &[3, 3, 0, 1, 2]), vec![13, 13, 10, 11, 12]);
    assert_eq!(shuffle(&bytes, &[]), Vec::<u8>::new());
}

#[test]
fn shuffle_bytes_reads_lanes_most_significant_byte_first() {
    let x = U32Lanes { lanes: [0x0102_0304, 0x0506_0708] };
    assert_eq!(x.to_be_bytes(), vec![1, 2, 3, 4, 5, 6, 7, 8]);
    let identity: Vec<usize> = (0..8).collect();
    assert_eq!(x.shuffle_bytes(&identity).lanes, x.lanes);
    assert_eq!(
        x.shuffle_bytes(&[7, 6, 5, 4, 3, 2, 1, 0]).lanes,
        [0x0807_0605, 0x0403_0201]
    );
    let y = U64Lanes { lanes: [0x0102_0304_0506_0708, 0x090a_0b0c_0d0e_0f10] };
    let swap: Vec<usize> = (8..16).chain(0..8).collect();
    assert_eq!(y.shuffle_bytes(&swap).lanes, [0x090a_0b0c_0d0e_0f10, 0x0102_0304_0506_0708]);
}

#[test]
fn one_family_goes_by_distance_and_then_by_width() {
    let family = build_family(8, 3, false);
    assert_eq!(family.len(), 24);
    assert_eq!(family[0], build_right(16, 8, 0));
    assert_eq!(family[2], build_right(64, 8, 0));
    assert_eq!(family[3], build_right(16, 8, 1));
    assert_eq!(family[23], build_right(64, 8, 7));
    let small = build_family(1, 1, true);
    assert_eq!(small, vec![vec![0, 1]]);
}
