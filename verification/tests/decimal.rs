use spiderbot::decimal::fixed;
use spiderbot::scalar::Scalar;

fn wanted(x: f32, places: u32) -> String {
    match places {
        0 => format!("{:.0}", x),
        1 => format!("{:.1}", x),
        2 => format!("{:.2}", x),
        _ => format!("{:.3}", x),
    }
}

fn check(bits: u32) {
    let x = f32::from_bits(bits);
    for places in 0..4 {
        assert_eq!(fixed(Scalar::from_bits(bits), places), wanted(x, places), "{:x}", bits);
    }
}

#[test]
fn texts_agree_with_the_standard_formatter() {
    let mut state: u64 = 3;
    for _ in 0..50_000 {
        state = state.wrapping_mul(6364136223846793005).wrapping_add(1442695040888963407);
        check((state >> 32) as u32);
        check(((state >> 40) as f32 / 4096.0).to_bits());
    }
}

#[test]
fn halves_go_to_the_even_digit() {
    for k in -4000i32..4000 {
        check((k as f32 / 8.0).to_bits());
        check((k as f32 / 16.0).to_bits());
    }
    assert_eq!(fixed(Scalar::ratio(1, 8), 2), "0.12");
    assert_eq!(fixed(Scalar::ratio(3, 8), 2), "0.38");
    assert_eq!(fixed(Scalar::ratio(5, 2), 0), "2");
}

#[test]
fn special_values_have_their_own_texts() {
    for bits in [0u32, 0x8000_0000, 1, 0x8000_0001, 0x7f80_0000, 0xff80_0000, 0x7f7f_ffff] {
        check(bits);
    }
    assert_eq!(fixed(Scalar::nan(), 2), "NaN");
    assert_eq!(fixed(Scalar::from_bits(0xff80_0000), 1), "-inf");
    assert_eq!(fixed(Scalar::from_bits(0x8000_0000), 1), "-0.0");
}
