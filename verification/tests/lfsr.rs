use simd_prngs::lfsr113::{Lfsr113, Lfsr113Seeder, Lfsr113x16, Lfsr113x2, Lfsr113x4};
use simd_prngs::lfsr258::{Lfsr258, Lfsr258Seeder, Lfsr258x2, Lfsr258x8};
use simd_prngs::seed::SeedError;

const P113: [(u32, u32, u32, u32); 4] = [
    (6, 13, 18, 4294967294),
    (2, 27, 2, 4294967288),
    (13, 21, 7, 4294967280),
    (3, 12, 13, 4294967168),
];

const P258: [(u32, u32, u32, u64); 5] = [
    (1, 53, 10, 18446744073709551614),
    (24, 50, 5, 18446744073709551104),
    (3, 23, 29, 18446744073709547520),
    (5, 24, 23, 18446744073709420544),
    (3, 33, 8, 18446744073701163008),
];

fn step113(state: &mut Vec<Vec<u32>>) -> Vec<u32> {
    for r in 0..4 {
        let (s1, s2, s3, mask) = P113[r];
        for z in state[r].iter_mut() {
            let b = ((*z << s1) ^ *z) >> s2;
            *z = ((*z & mask) << s3) ^ b;
        }
    }
    (0..state[0].len())
        .map(|i| state[0][i] ^ state[1][i] ^ state[2][i] ^ state[3][i])
        .collect()
}

fn step258(state: &mut Vec<Vec<u64>>) -> Vec<u64> {
    for r in 0..5 {
        let (s1, s2, s3, mask) = P258[r];
        for z in state[r].iter_mut() {
            let b = ((*z << s1) ^ *z) >> s2;
            *z = ((*z & mask) << s3) ^ b;
        }
    }
    (0..state[0].len())
        .map(|i| state[0][i] ^ state[1][i] ^ state[2][i] ^ state[3][i] ^ state[4][i])
        .collect()
}

fn bytes32(registers: &[Vec<u32>]) -> Vec<u8> {
    registers
        .iter()
        .flat_map(|r| r.iter().flat_map(|v| v.to_le_bytes()))
        .collect()
}

fn bytes64(registers: &[Vec<u64>]) -> Vec<u8> {
    registers
        .iter()
        .flat_map(|r| r.iter().flat_map(|v| v.to_le_bytes()))
        .collect()
}

fn noise(start: u64, len: usize) -> Vec<u8> {
    let mut x = start;
    let mut out = Vec::new();
    for _ in 0..len {
        x ^= x << 13;
        x ^= x >> 7;
        x ^= x << 17;
        out.push((x >> 32) as u8);
    }
    out
}

#[test]
fn lfsr113_first_outputs_from_known_registers() {
    let registers = vec![
        vec![0x1234_5678, 0x9abc_def0],
        vec![0x0fed_cba9, 0x8765_4321],
        vec![0xdead_beef, 0x0bad_f00d],
        vec![0xcafe_babe, 0x8bad_f00d],
    ];
    let (mut rng, used) = match Lfsr113x2::from_entropy(&bytes32(&registers)) {
        Ok(pair) => pair,
        Err(e) => panic!("seeding failed: {:?}", e),
    };
    assert_eq!(used, 32);
    assert_eq!(rng.generate().lanes, [0xe7d5_7455, 0x0ea1_c942]);
    assert_eq!(rng.generate().lanes, [0x4f4a_c0fd, 0x16be_5fca]);
}

#[test]
fn lfsr258_first_outputs_from_known_registers() {
    let registers = vec![
        vec![0x1234_5678_9abc_def0, 0x0fed_cba9_8765_4321],
        vec![0xdead_beef_cafe_babe, 0x0bad_f00d_8bad_f00d],
        vec![0x0123_4567_89ab_cdef, 0xfedc_ba98_7654_3210],
        vec![0x1111_2222_3333_4444, 0x5555_6666_7777_8888],
        vec![0x9999_aaaa_bbbb_cccc, 0xdddd_eeee_ffff_0001],
    ];
    let (mut rng, used) = match Lfsr258x2::from_entropy(&bytes64(&registers)) {
        Ok(pair) => pair,
        Err(e) => panic!("seeding failed: {:?}", e),
    };
    assert_eq!(used, 80);
    assert_eq!(rng.generate().lanes, [0x7d68_740b_41bc_21c8, 0x228f_74bc_f25d_d2d4]);
    assert_eq!(rng.generate().lanes, [0xec19_8a8f_a85e_cd47, 0x1211_fc46_6d27_dc7c]);
}

#[test]
fn lfsr113_smallest_valid_registers() {
    let mut registers = vec![vec![2, 3], vec![8, 9], vec![16, 17], vec![128, 129]];
    let (mut rng, used) = match Lfsr113x2::from_entropy(&bytes32(&registers)) {
        Ok(pair) => pair,
        Err(e) => panic!("seeding failed: {:?}", e),
    };
    assert_eq!(used, 32);
    assert_eq!(rng.generate().lanes, [1574944, 1574944]);
    let expected = step113(&mut registers);
    assert_eq!(expected, vec![1574944, 1574944]);
}

#[test]
fn lfsr258_smallest_valid_registers() {
    let registers = vec![
        vec![2, 3],
        vec![512, 513],
        vec![4096, 4097],
        vec![131072, 131073],
        vec![8388608, 8388609],
    ];
    let (mut rng, used) = match Lfsr258x2::from_entropy(&bytes64(&registers)) {
        Ok(pair) => pair,
        Err(e) => panic!("seeding failed: {:?}", e),
    };
    assert_eq!(used, 80);
    assert_eq!(rng.generate().lanes, [3300682385408, 3300682385408]);
}

#[test]
fn lfsr113_follows_the_recurrence_at_every_width() {
    let stream = noise(0x1357_9bdf_0246_8ace, 4096);
    let (mut rng, used) = match Lfsr113x16::from_entropy(&stream) {
        Ok(pair) => pair,
        Err(e) => panic!("seeding failed: {:?}", e),
    };
    assert!(used >= 256 && used % 64 == 0);
    // The registers are what the validator last drew for each of them; the
    // seeder, driven by hand over the same stream, shows which draws those
    // were.
    let mut seeder = Lfsr113Seeder::<16>::new();
    let mut pos = 0;
    let mut state: Vec<Vec<u32>> = Vec::new();
    let mut rounds = 0;
    while !seeder.is_done() {
        let w = seeder.wanted();
        let chunk = &stream[pos..pos + w];
        let lanes: Vec<u32> = chunk
            .chunks(4)
            .map(|b| u32::from_le_bytes([b[0], b[1], b[2], b[3]]))
            .collect();
        if rounds == 0 {
            state = lanes.chunks(16).map(|c| c.to_vec()).collect();
        } else {
            let thresholds = [1u32, 7, 15, 127];
            let r = (0..4)
                .find(|&r| state[r].iter().any(|&v| v <= thresholds[r]))
                .unwrap();
            state[r] = lanes;
        }
        seeder.feed(chunk);
        pos += w;
        rounds += 1;
    }
    assert_eq!(pos, used);
    for _ in 0..200 {
        let expected = step113(&mut state);
        assert_eq!(rng.generate().lanes.to_vec(), expected);
    }
}

#[test]
fn lfsr258_follows_the_recurrence() {
    let registers: Vec<Vec<u64>> = (0..5u64)
        .map(|r| {
            (0..8u64)
                .map(|i| 0x9e37_79b9_7f4a_7c15u64.wrapping_mul(8 * r + i + 1) | (1 << 40))
                .collect()
        })
        .collect();
    let (mut rng, used) = match Lfsr258x8::from_entropy(&bytes64(&registers)) {
        Ok(pair) => pair,
        Err(e) => panic!("seeding failed: {:?}", e),
    };
    assert_eq!(used, 5 * 8 * 8);
    let mut state = registers;
    for _ in 0..200 {
        let expected = step258(&mut state);
        assert_eq!(rng.generate().lanes.to_vec(), expected);
    }
}

#[test]
fn lfsr113_redraws_a_failing_register_once() {
    // Register 0 first holds a lane at its threshold, then passes.
    let first = vec![vec![1, 5], vec![8, 9], vec![16, 17], vec![128, 129]];
    let redraw = vec![vec![2u32, 3]];
    let mut stream = bytes32(&first);
    stream.extend(bytes32(&redraw));
    stream.extend([0xaa; 16]);

    let mut seeder = Lfsr113Seeder::<2>::new();
    let mut pos = 0;
    let mut draws = Vec::new();
    while !seeder.is_done() {
        let w = seeder.wanted();
        draws.push(w);
        seeder.feed(&stream[pos..pos + w]);
        pos += w;
    }
    assert_eq!(draws, vec![32, 8]);
    assert_eq!(seeder.wanted(), 0);
    let mut by_hand = match seeder.finish() {
        Some(rng) => rng,
        None => panic!("the seeder was done"),
    };

    let (mut rng, used) = match Lfsr113x2::from_entropy(&stream) {
        Ok(pair) => pair,
        Err(e) => panic!("seeding failed: {:?}", e),
    };
    assert_eq!(used, 40);
    // All lanes of the register were replaced, also the one that had passed.
    let mut state = vec![vec![2, 3], vec![8, 9], vec![16, 17], vec![128, 129]];
    let expected = step113(&mut state);
    assert_eq!(rng.generate().lanes.to_vec(), expected);
    assert_eq!(by_hand.generate().lanes.to_vec(), expected);
}

#[test]
fn lfsr113_redraws_each_failing_register_until_it_passes() {
    let first = vec![vec![2, 3], vec![9, 7], vec![16, 17], vec![127, 500]];
    let redraws = vec![vec![0u32, 100], vec![100, 8], vec![0, 0], vec![128, 1]];
    let last = vec![vec![200u32, 300]];
    let mut stream = bytes32(&first);
    stream.extend(bytes32(&redraws));
    stream.extend(bytes32(&last));
    let (mut rng, used) = match Lfsr113x2::from_entropy(&stream) {
        Ok(pair) => pair,
        Err(e) => panic!("seeding failed: {:?}", e),
    };
    // Register 1 takes two redraws, register 3 takes three.
    assert_eq!(used, 32 + 2 * 8 + 3 * 8);
    let mut state = vec![vec![2, 3], vec![100, 8], vec![16, 17], vec![200, 300]];
    let expected = step113(&mut state);
    assert_eq!(rng.generate().lanes.to_vec(), expected);
}

#[test]
fn lfsr258_redraws_a_failing_register_once() {
    let first = vec![
        vec![2u64, 3],
        vec![512, 513],
        vec![4096, 4095],
        vec![131072, 131073],
        vec![8388608, 8388609],
    ];
    let redraw = vec![vec![5000u64, 6000]];
    let mut stream = bytes64(&first);
    stream.extend(bytes64(&redraw));

    let mut seeder = Lfsr258Seeder::<2>::new();
    let mut pos = 0;
    let mut draws = Vec::new();
    while !seeder.is_done() {
        let w = seeder.wanted();
        draws.push(w);
        seeder.feed(&stream[pos..pos + w]);
        pos += w;
    }
    assert_eq!(draws, vec![80, 16]);

    let (mut rng, used) = match Lfsr258x2::from_entropy(&stream) {
        Ok(pair) => pair,
        Err(e) => panic!("seeding failed: {:?}", e),
    };
    assert_eq!(used, 96);
    let mut state = vec![
        vec![2u64, 3],
        vec![512, 513],
        vec![5000, 6000],
        vec![131072, 131073],
        vec![8388608, 8388609],
    ];
    let expected = step258(&mut state);
    assert_eq!(rng.generate().lanes.to_vec(), expected);
}

#[test]
fn lfsr_thresholds_are_exclusive() {
    let at = vec![vec![2u32, 2], vec![8, 8], vec![16, 16], vec![127, 128]];
    assert!(matches!(
        Lfsr113x2::from_entropy(&bytes32(&at)),
        Err(SeedError::EntropySourceFailure)
    ));
    let above = vec![vec![2u32, 2], vec![8, 8], vec![16, 16], vec![128, 128]];
    assert!(Lfsr113x2::from_entropy(&bytes32(&above)).is_ok());
    let at = vec![
        vec![2u64, 2],
        vec![512, 512],
        vec![4096, 4096],
        vec![131072, 131072],
        vec![8388607, 8388608],
    ];
    assert!(matches!(
        Lfsr258x2::from_entropy(&bytes64(&at)),
        Err(SeedError::EntropySourceFailure)
    ));
}

#[test]
fn lfsr_seeding_fails_when_the_entropy_runs_out() {
    assert!(matches!(Lfsr113x4::from_entropy(&[]), Err(SeedError::EntropySourceFailure)));
    assert!(matches!(
        Lfsr113x4::from_entropy(&[0xff; 63]),
        Err(SeedError::EntropySourceFailure)
    ));
    assert!(Lfsr113x4::from_entropy(&[0xff; 64]).is_ok());
    // All zero: register 0 never passes.
    assert!(matches!(
        Lfsr113x4::from_entropy(&[0; 4096]),
        Err(SeedError::EntropySourceFailure)
    ));
    assert!(matches!(
        Lfsr258x2::from_entropy(&[0xff; 79]),
        Err(SeedError::EntropySourceFailure)
    ));
    assert!(Lfsr258x2::from_entropy(&[0xff; 80]).is_ok());
}

#[test]
fn lfsr_does_not_take_a_fixed_seed() {
    assert!(matches!(Lfsr113::<2>::from_seed([]), Err(SeedError::SeedingUnsupported)));
    assert!(matches!(Lfsr113::<16>::from_seed([]), Err(SeedError::SeedingUnsupported)));
    assert!(matches!(Lfsr258::<2>::from_seed([]), Err(SeedError::SeedingUnsupported)));
    assert!(matches!(Lfsr258::<8>::from_seed([]), Err(SeedError::SeedingUnsupported)));
}

#[test]
fn lfsr_seeder_hands_out_nothing_before_it_is_done() {
    let seeder = Lfsr113Seeder::<2>::new();
    assert!(!seeder.is_done());
    assert_eq!(seeder.wanted(), 32);
    assert!(seeder.finish().is_none());

    let mut seeder = Lfsr113Seeder::<2>::new();
    seeder.feed(&[0; 32]);
    assert!(!seeder.is_done());
    assert_eq!(seeder.wanted(), 8);
    assert!(seeder.finish().is_none());

    let seeder = Lfsr258Seeder::<4>::new();
    assert_eq!(seeder.wanted(), 160);
    assert!(seeder.finish().is_none());
}

#[test]
fn lfsr_equal_entropy_gives_equal_sequences() {
    let stream = noise(42, 2048);
    let (mut a, used_a) = match Lfsr113x4::from_entropy(&stream) {
        Ok(pair) => pair,
        Err(e) => panic!("seeding failed: {:?}", e),
    };
    // Bytes after those drawn do not matter.
    let mut other = stream[..used_a].to_vec();
    other.extend([7u8; 9]);
    let (mut b, used_b) = match Lfsr113x4::from_entropy(&other) {
        Ok(pair) => pair,
        Err(e) => panic!("seeding failed: {:?}", e),
    };
    assert_eq!(used_a, used_b);
    for _ in 0..100 {
        assert_eq!(a.generate().lanes, b.generate().lanes);
    }
}

#[test]
fn lfsr_registers_stay_above_their_thresholds() {
    // A register at or below its threshold has only bits that the step
    // masks away or shifts out; the smallest valid registers never get there.
    let mut state = vec![vec![2u32], vec![8], vec![16], vec![128]];
    let thresholds = [1u32, 7, 15, 127];
    for _ in 0..10_000 {
        step113(&mut state);
        for r in 0..4 {
            assert!(state[r][0] > thresholds[r]);
        }
    }
}
