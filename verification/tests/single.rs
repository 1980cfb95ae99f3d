use navipod::single::{round_to_single, Single};

fn of(x: f32) -> Single {
    Single { bits: x.to_bits() }
}

#[test]
fn clamping_agrees_with_the_standard_library() {
    for x in [
        0.0f32, -0.0, 0.5, 0.7, 1.0, 1.000_000_1, 2.0, -0.000_001, -3.0, f32::INFINITY,
        f32::NEG_INFINITY, f32::MIN_POSITIVE, f32::MAX, f32::MIN,
    ] {
        assert_eq!(of(x).clamp_unit().bits, x.clamp(0.0, 1.0).to_bits(), "{x}");
    }
    assert_eq!(of(f32::NAN).clamp_unit(), of(0.0));
    assert_eq!(of(-f32::NAN).clamp_unit(), of(0.0));
}

#[test]
fn named_numbers() {
    assert_eq!(Single::zero(), of(0.0));
    assert_eq!(Single::one(), of(1.0));
    assert_eq!(navipod::single::SEVEN_TENTHS_BITS, 0.7f32.to_bits());
}

#[test]
fn whole_parts_agree_with_the_cast() {
    for x in [
        0.0f32, -0.0, 0.999_999_94, 1.0, 1.5, 59.9, 60.0, 61.3, 8_388_607.5, 8_388_608.0,
        16_777_215.0, 16_777_216.0, 16_777_218.0, 2_147_483_648.0, 4_294_967_040.0,
        4_294_967_296.0, 1e30, f32::MAX, f32::INFINITY, f32::NEG_INFINITY, -1.0, -0.5, f32::NAN,
        f32::MIN_POSITIVE, 1e-40,
    ] {
        assert_eq!(of(x).whole_part(), x.max(0.0) as u32, "{x}");
    }
    let mut bits: u32 = 1;
    for _ in 0..20_000 {
        bits = bits.wrapping_mul(1_664_525).wrapping_add(1_013_904_223);
        let x = f32::from_bits(bits);
        assert_eq!(of(x).whole_part(), x.max(0.0) as u32, "{bits:x}");
    }
}

#[test]
fn seconds_pass_through_single_precision() {
    for n in [
        0u32, 1, 59, 60, 3599, 16_777_215, 16_777_216, 16_777_217, 16_777_218, 16_777_219,
        33_554_433, 33_554_434, 33_554_435, 4_294_967_039, 4_294_967_167, 4_294_967_168,
        4_294_967_295,
    ] {
        assert_eq!(round_to_single(n), n as f32 as u32, "{n}");
    }
    let mut n: u32 = 1;
    for _ in 0..20_000 {
        n = n.wrapping_mul(1_664_525).wrapping_add(1_013_904_223);
        assert_eq!(round_to_single(n), n as f32 as u32, "{n}");
    }
}
