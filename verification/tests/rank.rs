use voicett::rank::{bits_of_rank, pattern_of_whole, rank_of_bits, rank_of_millis};

fn sample_numbers() -> Vec<f64> {
    vec![
        f64::NEG_INFINITY,
        f64::MIN,
        -1.7e12,
        -2.5,
        -1.0,
        -f64::MIN_POSITIVE,
        -5e-324,
        -0.0,
        0.0,
        5e-324,
        f64::MIN_POSITIVE,
        0.5,
        1.0,
        1.000_000_000_000_000_2,
        2.0,
        1_700_000_000_000.0,
        1_700_000_000_000.5,
        9_007_199_254_740_992.0,
        f64::MAX,
        f64::INFINITY,
    ]
}

#[test]
fn keys_compare_as_the_numbers_do() {
    let numbers = sample_numbers();
    for a in &numbers {
        for b in &numbers {
            let (ka, kb) = (rank_of_bits(a.to_bits()), rank_of_bits(b.to_bits()));
            assert_eq!(ka < kb, a < b, "{a} {b}");
            assert_eq!(ka == kb, a == b, "{a} {b}");
        }
    }
}

#[test]
fn keys_give_their_numbers_back() {
    for number in sample_numbers() {
        let back = f64::from_bits(bits_of_rank(rank_of_bits(number.to_bits())));
        assert_eq!(back, number);
    }
    assert_eq!(rank_of_bits(0), 0);
    assert_eq!(rank_of_bits(1), 1);
    assert_eq!(rank_of_bits(0x8000_0000_0000_0000), 0);
    assert_eq!(rank_of_bits(0x8000_0000_0000_0001), -1);
    assert_eq!(rank_of_bits(u64::MAX), -i64::MAX);
    assert_eq!(bits_of_rank(0), 0);
    assert_eq!(bits_of_rank(-1), 0x8000_0000_0000_0001);
    assert_eq!(bits_of_rank(i64::MAX), 0x7fff_ffff_ffff_ffff);
    assert_eq!(bits_of_rank(-i64::MAX), u64::MAX);
    assert_eq!(bits_of_rank(i64::MIN), u64::MAX);
}

#[test]
fn rank_of_a_time_is_the_key_of_its_number() {
    let mut times: Vec<i64> = vec![
        0,
        1,
        2,
        3,
        4,
        5,
        7,
        8,
        1_000,
        1_700_000_000_000,
        1_700_000_000_001,
        (1 << 52) - 1,
        1 << 52,
        (1 << 52) + 1,
        (1 << 53) - 1,
        1 << 53,
        (1 << 53) + 1,
        (1 << 53) + 2,
        (1 << 53) + 3,
        (1 << 54) + 2,
        (1 << 54) + 6,
        (1 << 54) + 7,
        (1 << 60) + (1 << 7),
        (1 << 60) + (1 << 7) + 1,
        (1 << 60) + 3 * (1 << 7),
        i64::MAX - 1_024,
        i64::MAX - 511,
        i64::MAX - 512,
        i64::MAX - 513,
        i64::MAX,
    ];
    let mut state: u64 = 7;
    for _ in 0..2_000 {
        state = state.wrapping_mul(6_364_136_223_846_793_005).wrapping_add(1_442_695_040_888_963_407);
        times.push((state >> (state % 64)) as i64);
    }
    for time in times {
        for signed in [time, time.wrapping_neg()] {
            let number = signed as f64;
            assert_eq!(rank_of_millis(signed), rank_of_bits(number.to_bits()), "{signed}");
            assert_eq!(f64::from_bits(bits_of_rank(rank_of_millis(signed))), number, "{signed}");
        }
    }
    assert_eq!(f64::from_bits(bits_of_rank(rank_of_millis(i64::MIN))), i64::MIN as f64);
}

#[test]
fn ranks_of_times_grow_with_the_times() {
    let times = [i64::MIN, -1 << 53, -5, -1, 0, 1, 2, 3, 1_699_999_999_999, 1_700_000_000_000];
    for pair in times.windows(2) {
        assert!(rank_of_millis(pair[0]) < rank_of_millis(pair[1]), "{pair:?}");
    }
}

#[test]
fn patterns_of_whole_numbers() {
    assert_eq!(pattern_of_whole(0), 0);
    assert_eq!(pattern_of_whole(1), 0x3ff0_0000_0000_0000);
    assert_eq!(pattern_of_whole(2), 0x4000_0000_0000_0000);
    assert_eq!(pattern_of_whole(3), 0x4008_0000_0000_0000);
    assert_eq!(pattern_of_whole(1 << 63), 0x43e0_0000_0000_0000);
    assert_eq!(pattern_of_whole((1 << 63) - 1), 0x43e0_0000_0000_0000);
}
