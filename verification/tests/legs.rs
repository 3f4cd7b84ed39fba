use bevy::math::{Quat, Vec3 as Reference};
use spiderbot::config::{ChassisConfig, GaitConfig, LinkConfig, RobotConfig};
use spiderbot::control::ActionState;
use spiderbot::legs::{
    body_shape, joint_base_index, joint_order, leg_angles, leg_lengths, leg_names, leg_outward,
    leg_points, leg_signs, leg_visuals, place_part, segment_transform, LegPoints, PartRotation,
    VisualPart,
};
use spiderbot::scalar::Scalar;
use spiderbot::vector::Vec3;

fn s(x: f32) -> Scalar {
    Scalar::from_bits(x.to_bits())
}

fn f(x: Scalar) -> f32 {
    f32::from_bits(x.to_bits())
}

fn v(a: Reference) -> Vec3 {
    Vec3::new(s(a.x), s(a.y), s(a.z))
}

fn r(a: Vec3) -> Reference {
    Reference::new(f(a.x), f(a.y), f(a.z))
}

fn config() -> RobotConfig {
    RobotConfig {
        control_hz: s(50.0),
        physics_hz: s(120.0),
        physics_substeps: 2,
        gait: GaitConfig { step_period_s: s(1.0), max_climb_height_m: s(0.07) },
        chassis: ChassisConfig {
            length_m: s(0.22),
            width_m: s(0.16),
            height_m: s(0.05),
            mass_kg: s(0.9),
        },
        links: LinkConfig {
            coxa_length_m: s(0.055),
            femur_length_m: s(0.09),
            tibia_length_m: s(0.12),
            link_radius_m: s(0.012),
            coxa_mass_kg: s(0.08),
            femur_mass_kg: s(0.1),
            tibia_mass_kg: s(0.11),
            foot_radius_m: s(0.014),
        },
    }
}

#[test]
fn legs_have_names_signs_and_joints() {
    assert_eq!(leg_names(), ["FL", "FR", "BL", "BR"]);
    let signs = [(-1.0, 1.0), (1.0, 1.0), (-1.0, -1.0), (1.0, -1.0)];
    for (i, name) in leg_names().iter().enumerate() {
        assert_eq!(leg_signs(name), (s(signs[i].0), s(signs[i].1)));
        assert_eq!(joint_base_index(name), 3 * i);
        assert_eq!(joint_order()[3 * i], format!("{}_hip_yaw", name));
        assert_eq!(joint_order()[3 * i + 1], format!("{}_hip_pitch", name));
        assert_eq!(joint_order()[3 * i + 2], format!("{}_knee", name));
    }
    assert_eq!(leg_signs("??"), (s(1.0), s(-1.0)));
    assert_eq!(joint_base_index(""), 9);
}

#[test]
fn every_leg_has_five_parts() {
    let parts = [
        VisualPart::ServoA,
        VisualPart::ServoB,
        VisualPart::LinkAB,
        VisualPart::LinkBFoot,
        VisualPart::Foot,
    ];
    let all = leg_visuals();
    assert_eq!(all.len(), 20);
    for (i, visual) in all.iter().enumerate() {
        assert_eq!(visual.leg, leg_names()[i / 5]);
        assert_eq!(visual.part, parts[i % 5]);
    }
}

#[test]
fn angles_agree_with_hardware() {
    let mut state: u64 = 21;
    let mut next = || {
        state = state.wrapping_mul(6364136223846793005).wrapping_add(1442695040888963407);
        ((state >> 40) as f32 / 16_777_216.0 - 0.5) * 3.0
    };
    for _ in 0..500 {
        let mut action = ActionState::default();
        for i in 0..12 {
            action.joint_targets[i] = s(next());
        }
        for name in leg_names() {
            let base = joint_base_index(name);
            let side = f(leg_signs(name).0);
            let angles = leg_angles(name, &action);
            assert_eq!(angles.yaw, s(-side * f(action.joint_targets[base])));
            let down = (58.0_f32.to_radians() + f(action.joint_targets[base + 1])
                - f(action.joint_targets[base + 2]) * 0.55)
                .clamp(18.0_f32.to_radians(), 78.0_f32.to_radians());
            assert_eq!(angles.down, s(down));
        }
    }
}

#[test]
fn lengths_are_limited() {
    let lengths = leg_lengths(&config());
    assert_eq!(lengths.ab, s(0.055));
    assert_eq!(lengths.bfoot, s((0.09f32 + 0.12 * 0.35).clamp(0.075, 0.190)));
    assert_eq!(lengths.thickness, s((0.012f32 * 1.8).clamp(0.012, 0.045)));
    let mut c = config();
    c.links.coxa_length_m = s(0.01);
    c.links.femur_length_m = s(0.3);
    c.links.link_radius_m = s(0.001);
    let lengths = leg_lengths(&c);
    assert_eq!((lengths.ab, lengths.bfoot), (s(0.035), s(0.190)));
    assert_eq!(lengths.thickness, s(0.012));
}

#[test]
fn parts_agree_with_hardware() {
    let c = config();
    let heading = 0.4f32;
    let origin = Reference::new(0.1, 0.17, -0.3);
    let body_rot = Quat::from_rotation_y(heading);
    let mut action = ActionState::default();
    for i in 0..12 {
        action.joint_targets[i] = s(0.1 * i as f32 - 0.5);
    }
    for name in leg_names() {
        let (side, front) = (f(leg_signs(name).0), f(leg_signs(name).1));
        let angles = leg_angles(name, &action);
        let outward = r(leg_outward(name));
        assert_eq!(outward, Reference::new(side, 0.0, 0.0));
        let dir = Quat::from_rotation_y(f(angles.yaw)) * outward;
        let down = f(angles.down);
        let points = leg_points(&c, name, v(dir), s(down.cos()), s(down.sin()));

        let hip = Reference::new(side * 0.16 * 0.54, 0.0, front * 0.22 * 0.36);
        let bfoot = (0.09f32 + 0.12 * 0.35).clamp(0.075, 0.190);
        let b = hip + dir * 0.055;
        let foot = b + dir * (bfoot * down.cos()) + Reference::NEG_Y * (bfoot * down.sin());
        assert_eq!(points, LegPoints { a: v(hip), b: v(b), foot: v(foot) });

        let turned = LegPoints {
            a: v(body_rot * hip),
            b: v(body_rot * b),
            foot: v(body_rot * foot),
        };
        let a_world = v(origin + body_rot * hip);
        let b_world = v(origin + body_rot * b);
        let foot_world = v(origin + body_rot * foot);
        let thickness = (0.012f32 * 1.8).clamp(0.012, 0.045);
        let ones = v(Reference::ONE);
        let place = |part| place_part(&c, part, v(origin), turned);
        let servo = place(VisualPart::ServoA);
        assert_eq!((servo.translation, servo.scale), (a_world, ones));
        assert_eq!(servo.rotation, PartRotation::WithBody);
        assert_eq!(place(VisualPart::ServoB).translation, b_world);
        assert_eq!(
            place(VisualPart::LinkAB),
            segment_transform(a_world, b_world, s(thickness))
        );
        assert_eq!(
            place(VisualPart::LinkBFoot),
            segment_transform(b_world, foot_world, s(thickness * 0.85))
        );
        let foot = place(VisualPart::Foot);
        assert_eq!((foot.translation, foot.scale), (foot_world, ones));
        assert_eq!(foot.rotation, PartRotation::Upright);
    }
}

#[test]
fn bars_join_their_ends() {
    let (a, b) = (Reference::new(0.1, 0.2, 0.3), Reference::new(-0.2, 0.25, 0.9));
    let bar = segment_transform(v(a), v(b), s(0.02));
    let length = (b - a).length();
    assert_eq!(bar.translation, v((a + b) * 0.5));
    assert_eq!(bar.rotation, PartRotation::Along(v((b - a) / length)));
    assert_eq!(bar.scale, Vec3::new(s(0.02), s(0.02), s(length)));
    let point = segment_transform(v(a), v(a), s(0.02));
    assert_eq!(point.scale.z, s(0.001));
    assert_eq!(point.rotation, PartRotation::Along(v(Reference::ZERO)));
}

#[test]
fn body_has_the_configured_size() {
    let shape = body_shape(&config());
    assert_eq!(shape.size, v(Reference::new(0.16, 0.05, 0.22)));
    assert_eq!(shape.half_extents, v(Reference::new(0.16 / 2.0, 0.05 / 2.0, 0.22 / 2.0)));
    assert_eq!((shape.servo_side, shape.foot_radius), (s(0.030), s(0.014)));
}

fn leg_at(name: &str, action: &ActionState) -> LegPoints {
    let angles = leg_angles(name, action);
    let dir = Quat::from_rotation_y(f(angles.yaw)) * r(leg_outward(name));
    let down = f(angles.down);
    leg_points(&config(), name, v(dir), s(down.cos()), s(down.sin()))
}

fn apart(a: Vec3, b: Vec3) -> f64 {
    let d = (r(b) - r(a)).as_dvec3();
    d.length()
}

#[test]
fn segments_keep_their_lengths() {
    for i in 0..200 {
        let mut action = ActionState::default();
        for j in 0..12 {
            action.joint_targets[j] = s(((i * 7 + j * 13) % 31) as f32 / 20.0 - 0.75);
        }
        for name in leg_names() {
            let points = leg_at(name, &action);
            assert!((apart(points.a, points.b) - 0.055).abs() < 1e-7);
            let bfoot = (0.09f32 + 0.12 * 0.35) as f64;
            assert!((apart(points.b, points.foot) - bfoot).abs() < 1e-7);
            let bar = segment_transform(points.b, points.foot, s(0.01));
            assert!((f(bar.scale.z) as f64 - bfoot).abs() < 1e-7);
        }
    }
}

#[test]
fn unswung_legs_point_sideways() {
    let action = ActionState::default();
    for name in leg_names() {
        let points = leg_at(name, &action);
        let side = f(leg_signs(name).0);
        assert_eq!(points.b.x, s(f(points.a.x) + side * 0.055));
        assert_eq!((points.b.y, points.b.z), (points.a.y, points.a.z));
    }
}

#[test]
fn each_servo_moves_its_own() {
    let mut before = ActionState::default();
    for j in 0..12 {
        before.joint_targets[j] = s(0.05 * j as f32 - 0.2);
    }
    for k in 0..12 {
        let mut after = ActionState::default();
        after.joint_targets = before.joint_targets;
        after.joint_targets[k] = s(0.37);
        for name in leg_names() {
            let (p, q) = (leg_at(name, &before), leg_at(name, &after));
            if joint_base_index(name) != k - k % 3 {
                assert_eq!(p, q);
            } else if k % 3 == 0 {
                assert_eq!(p.a, q.a);
                assert_ne!(p.b, q.b);
                assert_eq!((p.b.y, p.foot.y), (q.b.y, q.foot.y));
            } else {
                assert_eq!((p.a, p.b), (q.a, q.b));
                assert_ne!(p.foot, q.foot);
            }
            assert!(q.foot.y.lt(q.b.y));
            let height = f(q.b.y) - f(q.foot.y);
            let bfoot = 0.09f32 + 0.12 * 0.35;
            assert!(height >= bfoot * 0.309 && height <= bfoot * 0.9782);
        }
    }
}

#[test]
fn opposite_legs_are_mirror_images() {
    let mut action = ActionState::default();
    for j in 0..3 {
        let (front, back) = (s(0.2 * j as f32 + 0.1), s(0.15 * j as f32 + 0.05));
        action.joint_targets[j] = front;
        action.joint_targets[3 + j] = front;
        action.joint_targets[6 + j] = back;
        action.joint_targets[9 + j] = back;
    }
    for (left, right) in [("FL", "FR"), ("BL", "BR")] {
        let (l, q) = (leg_at(left, &action), leg_at(right, &action));
        for (a, b) in [(l.a, q.a), (l.b, q.b), (l.foot, q.foot)] {
            assert_eq!(a.x, b.x.negated());
            assert_eq!((a.y, a.z), (b.y, b.z));
        }
        assert!(l.a.z.lt(l.b.z) && q.a.z.lt(q.b.z));
    }
}

#[test]
fn bars_have_no_first_end() {
    let (a, b) = (v(Reference::new(0.1, 0.2, 0.3)), v(Reference::new(-0.2, 0.25, 0.9)));
    let there = segment_transform(a, b, s(0.02));
    let back = segment_transform(b, a, s(0.02));
    assert_eq!((there.translation, there.scale), (back.translation, back.scale));
    match (there.rotation, back.rotation) {
        (PartRotation::Along(d), PartRotation::Along(e)) => {
            assert_eq!(d, e.negated());
            let half = r(d) * f(there.scale.z) * 0.5;
            assert!((r(there.translation) + half - r(b)).length() < 1e-6);
            assert!((r(there.translation) - half - r(a)).length() < 1e-6);
        }
        _ => panic!("not along"),
    }
}
