use bevy::math::Vec3 as Reference;
use spiderbot::camera::{
    camera_arguments, camera_mouse, camera_position, orbited, CameraInput, CameraRig,
};
use spiderbot::scalar::Scalar;
use spiderbot::vector::Vec3;

fn s(x: f32) -> Scalar {
    Scalar::from_bits(x.to_bits())
}

fn f(x: Scalar) -> f32 {
    f32::from_bits(x.to_bits())
}

fn v(a: Reference) -> Vec3 {
    Vec3::new(s(a.x), s(a.y), s(a.z))
}

fn input(right: bool, middle: bool, x: f32, y: f32, scroll: f32) -> CameraInput {
    CameraInput {
        right_pressed: right,
        middle_pressed: middle,
        motion_x: s(x),
        motion_y: s(y),
        scroll: s(scroll),
    }
}

fn frame(rig: &mut CameraRig, input: CameraInput) {
    let (yaw, exponent) = camera_arguments(rig, input);
    let (sin, cos) = (f(yaw).sin(), f(yaw).cos());
    camera_mouse(rig, input, s(sin), s(cos), s(f(exponent).exp()));
}

#[test]
fn camera_starts_behind_the_robot() {
    let rig = CameraRig::default();
    assert_eq!(rig.focus, v(Reference::new(0.0, 0.10, 0.35)));
    assert_eq!((rig.yaw, rig.pitch, rig.distance), (s(2.48), s(0.56), s(2.65)));
}

#[test]
fn camera_agrees_with_hardware() {
    let mut rig = CameraRig::default();
    let mut focus = Reference::new(0.0, 0.10, 0.35);
    let (mut yaw, mut pitch, mut distance) = (2.48f32, 0.56f32, 2.65f32);
    let mut state: u64 = 77;
    let mut next = || {
        state = state.wrapping_mul(6364136223846793005).wrapping_add(1442695040888963407);
        (state >> 40) as f32 / 16_777_216.0 - 0.5
    };
    for i in 0..2000 {
        let (x, y, wheel) = (next() * 200.0, next() * 200.0, next() * 3.0);
        let (right, middle) = (i % 3 == 0, i % 2 == 0);
        let wheel = if i % 5 == 0 { wheel } else { 0.0 };
        frame(&mut rig, input(right, middle, x, y, wheel));
        if right {
            yaw -= x * 0.006;
            pitch = (pitch - y * 0.005).clamp(0.18, 1.30);
        }
        if middle {
            let sideways = Reference::new(yaw.cos(), 0.0, -yaw.sin());
            let forward = Reference::new(yaw.sin(), 0.0, yaw.cos());
            let scale = distance * 0.0014;
            focus += -sideways * x * scale + forward * y * scale;
        }
        if wheel.abs() > 0.001 {
            distance *= (-wheel * 0.22).exp();
            distance = distance.clamp(0.55, 4.5);
        }
        assert_eq!(rig.focus, v(focus));
        assert_eq!((rig.yaw, rig.pitch, rig.distance), (s(yaw), s(pitch), s(distance)));

        let cp = pitch.cos();
        let from_focus = Reference::new(yaw.sin() * cp, pitch.sin(), yaw.cos() * cp);
        let mut place = focus + from_focus * distance;
        place.y = place.y.max(0.25);
        let ours =
            camera_position(&rig, s(yaw.sin()), s(yaw.cos()), s(pitch.sin()), s(pitch.cos()));
        assert_eq!(ours, v(place));
    }
}

#[test]
fn camera_stays_within_bounds() {
    let mut rig = CameraRig::default();
    frame(&mut rig, input(true, false, 0.0, f32::INFINITY, 1000.0));
    assert_eq!((rig.pitch, rig.distance), (s(0.18), s(0.55)));
    frame(&mut rig, input(true, false, 0.0, -1.0e30, -1000.0));
    assert_eq!((rig.pitch, rig.distance), (s(1.30), s(4.5)));
    let before = rig;
    frame(&mut rig, input(false, false, 5.0, 5.0, 0.001));
    assert_eq!(rig, before);
    frame(&mut rig, input(false, false, 5.0, 5.0, 0.0011));
    assert_ne!(rig, before);
    assert_eq!(orbited(before, input(false, true, 3.0, 3.0, 3.0)), before);
}

#[test]
fn camera_stays_above_ground() {
    let mut rig = CameraRig::default();
    rig.focus = v(Reference::new(0.0, -9.0, 0.0));
    let place = camera_position(&rig, s(0.0), s(1.0), s(0.5), s(0.5));
    assert_eq!(place.y, s(0.25));
}

#[test]
fn pans_keep_the_height_of_the_focus() {
    let mut rig = CameraRig::default();
    for i in 0..100 {
        frame(&mut rig, input(i % 2 == 0, true, i as f32 * 3.7, -41.0, 0.3));
        assert_eq!(rig.focus.y, s(0.10));
    }
    assert_ne!(rig.focus.x, s(0.0));
}

#[test]
fn wheel_zooms_one_way() {
    let mut rig = CameraRig::default();
    for wheel in [0.5f32, 2.0, 0.002, 9.0] {
        let before = rig;
        frame(&mut rig, input(false, false, 0.0, 0.0, wheel));
        assert!(rig.distance.le(before.distance));
        assert_eq!((rig.focus, rig.yaw, rig.pitch), (before.focus, before.yaw, before.pitch));
    }
    for wheel in [-0.5f32, -2.0, -0.002, -9.0] {
        let before = rig;
        frame(&mut rig, input(false, false, 0.0, 0.0, wheel));
        assert!(before.distance.le(rig.distance));
    }
}
