use spiderbot::scalar::Scalar;

/// Bit patterns at the ends of every range of the format.
const EDGES: [u32; 22] = [
    0x0000_0000, 0x8000_0000, 0x0000_0001, 0x8000_0001, 0x007f_ffff, 0x0080_0000, 0x0080_0001,
    0x00ff_ffff, 0x0100_0000, 0x3f7f_ffff, 0x3f80_0000, 0xbf80_0000, 0x3f80_0001, 0x4b7f_ffff,
    0x4b80_0000, 0x7f7f_ffff, 0xff7f_ffff, 0x7f80_0000, 0xff80_0000, 0x7fc0_0000, 0xffc0_0001,
    0x7e80_0000,
];

fn next(state: &mut u64) -> u32 {
    *state = state.wrapping_mul(6364136223846793005).wrapping_add(1442695040888963407);
    (*state >> 32) as u32
}

fn same(ours: Scalar, theirs: f32) -> bool {
    if theirs.is_nan() {
        ours.is_nan()
    } else {
        ours.to_bits() == theirs.to_bits()
    }
}

fn check(a: u32, b: u32) {
    let (x, y) = (Scalar::from_bits(a), Scalar::from_bits(b));
    let (f, g) = (f32::from_bits(a), f32::from_bits(b));
    assert!(same(x.plus(y), f + g), "{:x} + {:x}", a, b);
    assert!(same(x.minus(y), f - g), "{:x} - {:x}", a, b);
    assert!(same(x.times(y), f * g), "{:x} * {:x}", a, b);
    assert!(same(x.over(y), f / g), "{:x} / {:x}", a, b);
    assert!(same(x.root(), f.sqrt()), "root {:x}", a);
    assert_eq!(x.lt(y), f < g);
    assert_eq!(x.le(y), f <= g);
    assert_eq!(x.negated().to_bits(), (-f).to_bits());
    assert_eq!(x.abs().to_bits(), f.abs().to_bits());
    if f != 0.0 || g != 0.0 {
        assert!(same(x.max(y), f.max(g)));
        assert!(same(x.min(y), f.min(g)));
    }
}

#[test]
fn edges_agree_with_hardware() {
    for a in EDGES {
        for b in EDGES {
            check(a, b);
        }
    }
}

#[test]
fn arbitrary_patterns_agree_with_hardware() {
    let mut state: u64 = 1;
    for _ in 0..200_000 {
        let a = next(&mut state);
        let b = next(&mut state);
        check(a, b);
    }
}

#[test]
fn near_patterns_agree_with_hardware() {
    let mut state: u64 = 7;
    for _ in 0..200_000 {
        let a = next(&mut state);
        let exponent = next(&mut state) % 40;
        let b = a.wrapping_add(exponent << 23) ^ (next(&mut state) & 0x807f_ffff);
        check(a, b);
        check(a & 0x80ff_ffff, b & 0x80ff_ffff);
    }
}

#[test]
fn ratios_are_the_nearest_numbers() {
    assert_eq!(Scalar::ratio(85, 1000).to_bits(), 0.085f32.to_bits());
    assert_eq!(Scalar::ratio(65, 100).negated().to_bits(), (-0.65f32).to_bits());
    assert_eq!(Scalar::ratio(0, 1).to_bits(), 0);
    assert_eq!(Scalar::ratio(15_000, 1).to_bits(), 15_000f32.to_bits());
    assert_eq!(Scalar::ratio(u32::MAX, 1).to_bits(), (u32::MAX as f32).to_bits());
    for p in 0u32..3000 {
        for q in [1u32, 10, 1000] {
            let wanted = (p as f64 / q as f64) as f32;
            assert_eq!(Scalar::ratio(p, q).to_bits(), wanted.to_bits());
        }
    }
}
