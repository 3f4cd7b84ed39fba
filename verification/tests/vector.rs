use bevy::math::{Vec2, Vec3 as Reference};
use spiderbot::scalar::Scalar;
use spiderbot::vector::{ground_distance, planar_length, Vec3};

fn s(x: f32) -> Scalar {
    Scalar::from_bits(x.to_bits())
}

fn v(a: Reference) -> Vec3 {
    Vec3::new(s(a.x), s(a.y), s(a.z))
}

fn samples() -> Vec<Reference> {
    let mut state: u64 = 11;
    let mut next = || {
        state = state.wrapping_mul(6364136223846793005).wrapping_add(1442695040888963407);
        ((state >> 40) as f32 / 16_777_216.0 - 0.5) * 6.0
    };
    (0..300).map(|_| Reference::new(next(), next(), next())).collect()
}

#[test]
fn vectors_agree_with_the_engine() {
    let all = samples();
    for (i, a) in all.iter().enumerate() {
        let b = all[(i * 7 + 3) % all.len()];
        let k = b.x;
        assert_eq!(v(*a).plus(v(b)), v(*a + b));
        assert_eq!(v(*a).minus(v(b)), v(*a - b));
        assert_eq!(v(*a).times(s(k)), v(*a * k));
        assert_eq!(v(*a).over(s(k)), v(*a / k));
        assert_eq!(v(*a).negated(), v(-*a));
        assert_eq!(v(*a).dot(v(b)), s(a.dot(b)));
        assert_eq!(v(*a).length(), s(a.length()));
        assert_eq!(v(*a).normalized(), v(a.normalize()));
    }
}

#[test]
fn ground_distance_ignores_height() {
    for a in samples() {
        let b = Reference::new(0.3, 9.0, -0.2);
        let wanted = Vec2::new(a.x - b.x, a.z - b.z).length();
        assert_eq!(ground_distance(v(a), v(b)), s(wanted));
        assert_eq!(planar_length(s(a.x), s(a.z)), s(Vec2::new(a.x, a.z).length()));
    }
    assert_eq!(planar_length(s(3.0), s(4.0)), s(5.0));
}
