use bevy::math::Vec3 as Reference;
use spiderbot::control::ActionState;
use spiderbot::marks::{draw_world_debug, Mark};
use spiderbot::motion::RobotPose;
use spiderbot::obstacle::{Obstacle, PlacedObstacle};
use spiderbot::paint::Colour;
use spiderbot::scalar::Scalar;
use spiderbot::vector::Vec3;
use spiderbot::world::{DragState, WorldState};

fn s(x: f32) -> Scalar {
    Scalar::from_bits(x.to_bits())
}

fn v(a: Reference) -> Vec3 {
    Vec3::new(s(a.x), s(a.y), s(a.z))
}

fn rgba(red: f32, green: f32, blue: f32, alpha: f32) -> Colour {
    Colour { red: s(red), green: s(green), blue: s(blue), alpha: s(alpha) }
}

fn line(from: Reference, to: Reference, colour: Colour) -> Mark {
    Mark::Line { from: v(from), to: v(to), colour }
}

fn arrow(from: Reference, to: Reference, colour: Colour) -> Mark {
    Mark::Arrow { from: v(from), to: v(to), colour }
}

fn marks(forward: f32, turn: f32, held: Option<u64>) -> Vec<Mark> {
    let heading = 0.6f32;
    let mut pose = RobotPose::default();
    pose.heading = s(heading);
    let mut action = ActionState::default();
    action.forward = s(forward);
    action.turn = s(turn);
    let obstacles = vec![PlacedObstacle {
        id: 3,
        position: v(Reference::new(0.4, 0.09, 0.5)),
        obstacle: Obstacle { radius: s(0.12), height: s(0.18), climbable: false },
    }];
    draw_world_debug(
        &pose,
        &action,
        &WorldState::default(),
        &DragState { obstacle: held },
        &obstacles,
        s(heading.sin()),
        s(heading.cos()),
    )
}

#[test]
fn grid_has_lines_every_quarter_metre() {
    let all = marks(0.0, 0.0, None);
    for i in -10i32..=10 {
        let p = i as f32 * 0.25;
        let colour = if i % 4 == 0 {
            rgba(0.20, 0.28, 0.35, 0.55)
        } else {
            rgba(0.25, 0.31, 0.37, 0.28)
        };
        let k = 2 * (i + 10) as usize;
        let across =
            line(Reference::new(-2.5, 0.004, p), Reference::new(2.5, 0.004, p), colour);
        let along = line(Reference::new(p, 0.004, -2.5), Reference::new(p, 0.004, 2.5), colour);
        assert_eq!(all[k], across);
        assert_eq!(all[k + 1], along);
    }
}

#[test]
fn arrows_show_where_the_robot_faces_and_goes() {
    let heading = 0.6f32;
    let origin = Reference::new(0.0, 0.16, -0.85) + Reference::Y * 0.12;
    let forward = Reference::new(heading.sin(), 0.0, heading.cos());
    let right = Reference::new(heading.cos(), 0.0, -heading.sin());
    let all = marks(0.8, -0.3, None);
    assert_eq!(all.len(), 47);
    assert_eq!(all[42], arrow(origin, origin + forward * 0.26, rgba(1.0, 1.0, 1.0, 1.0)));
    let command = forward * 0.8 + right * -0.3;
    let tail = origin + Reference::Y * 0.04;
    let tip = origin + Reference::Y * 0.04 + command.normalize() * 0.34;
    assert_eq!(all[43], arrow(tail, tip, rgba(1.0, 0.78, 0.06, 1.0)));
}

#[test]
fn small_commands_have_no_arrow() {
    assert_eq!(marks(0.0, 0.0, None).len(), 46);
    assert_eq!(marks(0.03, 0.0, None).len(), 46);
    assert_eq!(marks(0.04, 0.0, None).len(), 47);
}

#[test]
fn destination_is_marked() {
    let all = marks(0.0, 0.0, None);
    let at = |y: f32| Reference::new(0.55, y, 1.70);
    let bright = rgba(0.08, 0.95, 0.22, 1.0);
    let way = line(Reference::new(0.0, 0.015, -0.85), at(0.015), rgba(0.08, 0.85, 0.20, 1.0));
    assert_eq!(all[43], way);
    let circle = Mark::Circle { centre: v(at(0.016)), radius: s(0.13), colour: bright };
    assert_eq!(all[44], circle);
    assert_eq!(all[45], line(at(0.02), at(0.36), bright));
}

#[test]
fn held_obstacle_is_marked() {
    let all = marks(0.0, 0.0, Some(3));
    assert_eq!(all.len(), 47);
    let circle = Mark::Circle {
        centre: v(Reference::new(0.4, 0.012, 0.5)),
        radius: s(0.12f32 + 0.04),
        colour: rgba(1.0, 0.85, 0.10, 1.0),
    };
    assert_eq!(all[46], circle);
    assert_eq!(marks(0.0, 0.0, Some(4)).len(), 46);
}
