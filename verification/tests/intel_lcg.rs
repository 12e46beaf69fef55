use simd_prngs::intel_lcg::IntelLcg;

const MULT: [u32; 4] = [214013, 17405, 214013, 69069];
const GADD: [u32; 4] = [2531011, 10395331, 13737667, 1];

fn reference_step(state: [u32; 4]) -> [u32; 4] {
    let mut next = [0u32; 4];
    for i in 0..4 {
        next[i] = state[i].wrapping_mul(MULT[i]).wrapping_add(GADD[i]);
    }
    next
}

#[test]
fn first_output_from_seed_one() {
    let mut rng = IntelLcg::from_seed([1, 0, 0, 0]);
    assert_eq!(rng.generate().lanes, [2745024, 10430141, 13951680, 138139]);
}

#[test]
fn seed_bytes_are_read_least_significant_first() {
    let mut rng = IntelLcg::from_seed([1, 2, 3, 4]);
    assert_eq!(rng.generate().lanes, [3332955328, 3239977149, 3344161984, 1602532763]);
    assert_eq!(rng.generate().lanes, [487524483, 3187044492, 2277050499, 4028189728]);
}

#[test]
fn odd_lanes_start_one_above_the_seed_and_wrap() {
    let mut rng = IntelLcg::from_seed([0xff, 0xff, 0xff, 0xff]);
    assert_eq!(rng.generate().lanes, [2316998, 10395331, 13523654, 1]);
    assert_eq!(rng.generate().lanes, [1948984945, 552504954, 3738510961, 69070]);
    assert_eq!(rng.generate().lanes, [2368614256, 4222311253, 1977298800, 475628535]);
}

#[test]
fn output_follows_the_four_lane_recurrence() {
    let seed: u32 = 0x9e37_79b9;
    let mut rng = IntelLcg::from_seed(seed.to_le_bytes());
    let mut state = [seed, seed.wrapping_add(1), seed, seed.wrapping_add(1)];
    for _ in 0..1000 {
        state = reference_step(state);
        assert_eq!(rng.generate().lanes, state);
    }
}

#[test]
fn equal_seeds_give_equal_sequences() {
    let mut a = IntelLcg::from_seed([9, 8, 7, 6]);
    let mut b = IntelLcg::from_seed([9, 8, 7, 6]);
    for _ in 0..100 {
        assert_eq!(a.generate().lanes, b.generate().lanes);
    }
}

#[test]
fn different_seeds_give_different_first_outputs() {
    let mut a = IntelLcg::from_seed([1, 0, 0, 0]);
    let mut b = IntelLcg::from_seed([2, 0, 0, 0]);
    assert_ne!(a.generate().lanes, b.generate().lanes);
}
