use embeddings_server::component::{ONE, SIGN_BIT};
use embeddings_server::norm::{
    square_fixed_point, squared_norm_fixed_point, EXPONENT_UNIT, FIXED_ONE, NORM_TOLERANCE,
};

/// The square in fixed point, by way of double precision, which holds the
/// square of a single-precision float exactly.
fn expected_square(x: f32) -> u64 {
    let wide = x as f64;
    (wide * wide * 2.0f64.powi(50)).floor() as u64
}

#[test]
fn norm_constants() {
    assert_eq!(EXPONENT_UNIT, 1 << 23);
    assert_eq!(FIXED_ONE, 1 << 50);
    assert_eq!(NORM_TOLERANCE, 1 << 40);
}

#[test]
fn squares_of_simple_values() {
    assert_eq!(square_fixed_point(1.0f32.to_bits()), Some(1125899906842624));
    assert_eq!(square_fixed_point((-1.0f32).to_bits()), Some(1125899906842624));
    assert_eq!(square_fixed_point(0.5f32.to_bits()), Some(281474976710656));
    assert_eq!(square_fixed_point((-0.5f32).to_bits()), Some(281474976710656));
    assert_eq!(square_fixed_point(0.75f32.to_bits()), Some(633318697598976));
    assert_eq!(square_fixed_point(0.25f32.to_bits()), Some(1 << 46));
    assert_eq!(square_fixed_point(0.0f32.to_bits()), Some(0));
    assert_eq!(square_fixed_point((-0.0f32).to_bits()), Some(0));
}

#[test]
fn squares_of_small_values_round_down() {
    assert_eq!(square_fixed_point(2.0f32.powi(-25).to_bits()), Some(1));
    assert_eq!(square_fixed_point(2.0f32.powi(-24).to_bits()), Some(4));
    assert_eq!(square_fixed_point(2.0f32.powi(-26).to_bits()), Some(0));
    assert_eq!(square_fixed_point((1.5f32 * 2.0f32.powi(-25)).to_bits()), Some(2));
    assert_eq!(square_fixed_point(1), Some(0));
    assert_eq!(square_fixed_point(0x007f_ffff), Some(0));
    assert_eq!(square_fixed_point(f32::MIN_POSITIVE.to_bits()), Some(0));
}

#[test]
fn squares_beyond_one_are_none() {
    assert_eq!(square_fixed_point(ONE + 1), None);
    assert_eq!(square_fixed_point(SIGN_BIT + ONE + 1), None);
    assert_eq!(square_fixed_point(2.0f32.to_bits()), None);
    assert_eq!(square_fixed_point(f32::INFINITY.to_bits()), None);
    assert_eq!(square_fixed_point(f32::NEG_INFINITY.to_bits()), None);
    assert_eq!(square_fixed_point(f32::NAN.to_bits()), None);
    assert_eq!(square_fixed_point(0xffff_ffff), None);
    assert_eq!(square_fixed_point(ONE - 1), Some(expected_square(f32::from_bits(ONE - 1))));
}

#[test]
fn squares_agree_with_double_precision() {
    let mut bits: u32 = 0;
    while bits <= ONE {
        let x = f32::from_bits(bits);
        assert_eq!(square_fixed_point(bits), Some(expected_square(x)));
        assert_eq!(square_fixed_point(bits | SIGN_BIT), Some(expected_square(x)));
        bits += 104_729;
    }
    for e in 0..128u32 {
        for fraction in [0u32, 1, 0x40_0000, 0x7f_ffff] {
            let bits = e * EXPONENT_UNIT + fraction;
            if bits <= ONE {
                assert_eq!(
                    square_fixed_point(bits),
                    Some(expected_square(f32::from_bits(bits)))
                );
            }
        }
    }
}

#[test]
fn squared_norm_is_the_sum_of_squares() {
    assert_eq!(squared_norm_fixed_point(&Vec::new()), Some(0));
    let v = vec![0.5f32.to_bits(), (-0.5f32).to_bits(), 0.5f32.to_bits(), 0.5f32.to_bits()];
    assert_eq!(squared_norm_fixed_point(&v), Some(1 << 50));
    let v = vec![0.6f32.to_bits(), 0.8f32.to_bits()];
    let expected = expected_square(0.6) + expected_square(0.8);
    assert_eq!(squared_norm_fixed_point(&v), Some(expected as u128));
    let near = (expected as i128 - (1i128 << 50)).abs();
    assert!(near < (1 << 28));
    let v = vec![ONE; 768];
    assert_eq!(squared_norm_fixed_point(&v), Some(768u128 << 50));
}

#[test]
fn squared_norm_of_a_vector_beyond_one_is_none() {
    assert_eq!(squared_norm_fixed_point(&vec![ONE, ONE + 1]), None);
    assert_eq!(squared_norm_fixed_point(&vec![f32::NAN.to_bits()]), None);
    assert_eq!(squared_norm_fixed_point(&vec![0, 0, 3.0f32.to_bits(), 0]), None);
}
