use symphonium::ieee::{
    binary64_to_binary32, bit_length, half_even, power_of_two, round_quotient, round_significand,
    to_binary32,
};

#[test]
fn powers_of_two() {
    assert_eq!(power_of_two(0), 1);
    assert_eq!(power_of_two(1), 2);
    assert_eq!(power_of_two(24), 16_777_216);
    assert_eq!(power_of_two(127), 1u128 << 127);
}

#[test]
fn bit_lengths() {
    assert_eq!(bit_length(0), 0);
    assert_eq!(bit_length(1), 1);
    assert_eq!(bit_length(2), 2);
    assert_eq!(bit_length(255), 8);
    assert_eq!(bit_length(256), 9);
    assert_eq!(bit_length((1u128 << 126) - 1), 126);
}

#[test]
fn ties_go_to_the_even_neighbour() {
    assert_eq!(half_even(0, 4), 0);
    assert_eq!(half_even(1, 4), 0);
    assert_eq!(half_even(2, 4), 0);
    assert_eq!(half_even(3, 4), 1);
    assert_eq!(half_even(6, 4), 2);
    assert_eq!(half_even(10, 4), 2);
    assert_eq!(half_even(11, 4), 3);
    assert_eq!(half_even(7, 2), 4);
    assert_eq!(half_even(5, 2), 2);
    assert_eq!(half_even(5, 3), 2);
    assert_eq!(half_even(4, 3), 1);
    assert_eq!(half_even(9, 1), 9);
}

#[test]
fn significands_are_cut_to_the_precision() {
    assert_eq!(round_significand(0, 24), (0, 0));
    assert_eq!(round_significand(5, 24), (5, 0));
    assert_eq!(round_significand(0xFF_FFFF, 24), (0xFF_FFFF, 0));
    assert_eq!(round_significand(0x100_0000, 24), (0x80_0000, 1));
    assert_eq!(round_significand(0x100_0001, 24), (0x80_0000, 1));
    assert_eq!(round_significand(0x100_0003, 24), (0x80_0002, 1));
    // a carry out of the significand moves the exponent
    assert_eq!(round_significand(0x1FF_FFFF, 24), (0x80_0000, 2));
    assert_eq!(round_significand(0b1011, 2), (0b11, 2));
    assert_eq!(round_significand(0b1010, 2), (0b10, 2));
    assert_eq!(round_significand(0b1110, 2), (0b10, 3));
}

#[test]
fn quotients_are_rounded_to_the_precision() {
    assert_eq!(round_quotient(0, 255, 24), (0, 0));
    // 2 / 255 and 2 / 65535 in binary32
    assert_eq!(round_quotient(2, 255, 24), (8_421_505, -30));
    assert_eq!(round_quotient(2, 65535, 24), (8_388_736, -38));
    // 1 / 1, 1 / 2, 1 / 3 and 3 / 2
    assert_eq!(round_quotient(1, 1, 24), (0x80_0000, -23));
    assert_eq!(round_quotient(1, 2, 24), (0x80_0000, -24));
    assert_eq!(round_quotient(1, 3, 24), (0xAA_AAAB, -25));
    assert_eq!(round_quotient(3, 2, 24), (0xC0_0000, -23));
    assert_eq!(round_quotient(1, 3, 53), (0x15_5555_5555_5555, -54));
}

#[test]
fn patterns_of_binary32() {
    assert_eq!(to_binary32(false, 0, 0), 0.0f32.to_bits());
    assert_eq!(to_binary32(true, 0, 5), (-0.0f32).to_bits());
    assert_eq!(to_binary32(false, 1, 0), 1.0f32.to_bits());
    assert_eq!(to_binary32(true, 1, 0), (-1.0f32).to_bits());
    assert_eq!(to_binary32(false, 3, -1), 1.5f32.to_bits());
    assert_eq!(to_binary32(false, 1, -1), 0.5f32.to_bits());
    assert_eq!(to_binary32(false, 0x100_0001, 0), 16_777_216.0f32.to_bits());
    assert_eq!(to_binary32(false, 0x100_0003, 0), 16_777_220.0f32.to_bits());
    assert_eq!(to_binary32(false, 1, 127), 2.0f32.powi(127).to_bits());
    assert_eq!(to_binary32(false, 0xFF_FFFF, 104), f32::MAX.to_bits());
    assert_eq!(to_binary32(false, 0x1FF_FFFF, 103), f32::INFINITY.to_bits());
    assert_eq!(to_binary32(true, 1, 128), f32::NEG_INFINITY.to_bits());
    assert_eq!(to_binary32(false, 1, -126), f32::MIN_POSITIVE.to_bits());
    // below the least normal magnitude
    assert_eq!(to_binary32(false, 1, -149), 1);
    assert_eq!(to_binary32(false, 1, -150), 0);
    assert_eq!(to_binary32(false, 3, -151), 1);
    assert_eq!(to_binary32(false, 3, -150), 2);
    assert_eq!(to_binary32(false, 0x7F_FFFF, -149), 0x7F_FFFF);
    assert_eq!(to_binary32(false, 0xFF_FFFF, -150), 0x80_0000);
    assert_eq!(to_binary32(false, 1, -100_000), 0);
}

#[test]
fn patterns_of_binary64_become_patterns_of_binary32() {
    for value in [0.0f64, -0.0, 1.0, -1.0, 0.1, 1e-40, 1e-46, 3.5e38, f64::MAX, f64::MIN_POSITIVE] {
        assert_eq!(binary64_to_binary32(value.to_bits()), (value as f32).to_bits(), "value {}", value);
    }
    assert_eq!(binary64_to_binary32(f64::INFINITY.to_bits()), f32::INFINITY.to_bits());
    assert_eq!(binary64_to_binary32(f64::NEG_INFINITY.to_bits()), f32::NEG_INFINITY.to_bits());
}
