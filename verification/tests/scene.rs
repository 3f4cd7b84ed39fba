use spiderbot::legs::VisualPart;
use spiderbot::obstacle::{obstacle_body, Obstacle};
use spiderbot::paint::{surface, Colour, Paint};
use spiderbot::scalar::Scalar;
use spiderbot::scene::{demo_obstacles, part_paint, scene};
use spiderbot::vector::Vec3;

fn s(x: f32) -> Scalar {
    Scalar::from_bits(x.to_bits())
}

fn p(x: f32, y: f32, z: f32) -> Vec3 {
    Vec3::new(s(x), s(y), s(z))
}

fn rgb(red: f32, green: f32, blue: f32) -> Colour {
    Colour { red: s(red), green: s(green), blue: s(blue), alpha: s(1.0) }
}

#[test]
fn scene_is_lit_and_flat() {
    let scene = scene();
    assert_eq!(scene.ground.size, p(5.5, 0.05, 5.5));
    assert_eq!(scene.ground.translation, p(0.0, -0.025, 0.0));
    assert_eq!(scene.ground.half_extents, p(2.75, 0.025, 2.75));
    assert_eq!(scene.sky.colour, rgb(0.72, 0.80, 0.88));
    assert_eq!(scene.sky.illuminance, s(15_000.0));
    assert_eq!(scene.sky.angles, p(-0.85, -0.55, 0.0));
    assert_eq!((scene.lamp.intensity, scene.lamp.range), (s(1200.0), s(8.0)));
    assert_eq!(scene.lamp.position, p(-1.0, 2.0, -1.4));
    assert_eq!(scene.viewpoint.position, p(1.30, 1.50, -1.50));
    assert_eq!(scene.viewpoint.target, p(0.0, 0.12, 0.35));
    assert_eq!((scene.goal.radius, scene.goal.height), (s(0.06), s(0.04)));
}

#[test]
fn four_obstacles_stand_at_the_start() {
    let expected = [
        (-0.25, 0.00, 0.12, 0.18, false),
        (0.24, 0.48, 0.12, 0.20, false),
        (-0.20, 0.92, 0.10, 0.16, false),
        (0.10, 1.28, 0.14, 0.065, true),
    ];
    let bodies = demo_obstacles();
    assert_eq!(bodies.len(), expected.len());
    for (body, (x, z, radius, height, climbable)) in bodies.iter().zip(expected) {
        let obstacle = Obstacle { radius: s(radius), height: s(height), climbable };
        assert_eq!(*body, obstacle_body(p(x, 0.0, z), obstacle));
        assert_eq!(body.translation, p(x, height / 2.0, z));
    }
}

#[test]
fn paints_look_different() {
    let cases = [
        (Paint::Body, rgb(0.05, 0.35, 0.82), Some(0.15), Some(0.38)),
        (Paint::ServoA, rgb(0.95, 0.22, 0.16), Some(0.05), Some(0.45)),
        (Paint::ServoB, rgb(1.00, 0.66, 0.08), Some(0.05), Some(0.45)),
        (Paint::Link, rgb(0.18, 0.22, 0.27), Some(0.45), Some(0.35)),
        (Paint::Foot, rgb(0.10, 0.12, 0.15), None, None),
        (Paint::Ground, rgb(0.48, 0.53, 0.56), None, Some(0.95)),
        (Paint::Obstacle, rgb(0.34, 0.36, 0.39), None, Some(0.90)),
        (Paint::Climb, rgb(0.52, 0.31, 0.12), None, Some(0.85)),
        (Paint::Goal, rgb(0.08, 0.86, 0.22), None, None),
    ];
    for (paint, colour, metallic, roughness) in cases {
        let look = surface(paint);
        assert_eq!(look.colour, colour);
        assert_eq!(look.metallic, metallic.map(s));
        assert_eq!(look.roughness, roughness.map(s));
        assert_eq!(look.glow.is_some(), paint == Paint::Goal);
    }
    assert_eq!(surface(Paint::Goal).glow, Some(rgb(0.02, 0.20, 0.04)));
}

#[test]
fn leg_parts_have_paints() {
    assert_eq!(part_paint(VisualPart::ServoA), Paint::ServoA);
    assert_eq!(part_paint(VisualPart::ServoB), Paint::ServoB);
    assert_eq!(part_paint(VisualPart::LinkAB), Paint::Link);
    assert_eq!(part_paint(VisualPart::LinkBFoot), Paint::Link);
    assert_eq!(part_paint(VisualPart::Foot), Paint::Foot);
}
