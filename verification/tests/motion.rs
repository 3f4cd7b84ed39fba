use bevy::math::{Vec2, Vec3 as Reference};
use spiderbot::config::{ChassisConfig, GaitConfig, LinkConfig, RobotConfig};
use spiderbot::control::ActionState;
use spiderbot::motion::{
    commanded_speed, frame_time, motion_arguments, move_robot, reset_robot_pose, turned_heading,
    MotionTerms, RobotPose,
};
use spiderbot::obstacle::{Obstacle, PlacedObstacle};
use spiderbot::scalar::Scalar;
use spiderbot::vector::Vec3;

fn s(x: f32) -> Scalar {
    Scalar::from_bits(x.to_bits())
}

fn f(x: Scalar) -> f32 {
    f32::from_bits(x.to_bits())
}

fn v(a: Reference) -> Vec3 {
    Vec3::new(s(a.x), s(a.y), s(a.z))
}

fn config() -> RobotConfig {
    RobotConfig {
        control_hz: s(50.0),
        physics_hz: s(120.0),
        physics_substeps: 2,
        gait: GaitConfig { step_period_s: s(1.0), max_climb_height_m: s(0.07) },
        chassis: ChassisConfig {
            length_m: s(0.22),
            width_m: s(0.16),
            height_m: s(0.05),
            mass_kg: s(0.9),
        },
        links: LinkConfig {
            coxa_length_m: s(0.055),
            femur_length_m: s(0.09),
            tibia_length_m: s(0.12),
            link_radius_m: s(0.012),
            coxa_mass_kg: s(0.08),
            femur_mass_kg: s(0.1),
            tibia_mass_kg: s(0.11),
            foot_radius_m: s(0.014),
        },
    }
}

fn obstacle(id: u64, x: f32, z: f32, radius: f32, height: f32, climbable: bool) -> PlacedObstacle {
    PlacedObstacle {
        id,
        position: v(Reference::new(x, height / 2.0, z)),
        obstacle: Obstacle { radius: s(radius), height: s(height), climbable },
    }
}

fn terms(pose: &RobotPose, action: &ActionState, delta: f32) -> MotionTerms {
    let at = motion_arguments(pose, &config(), action, s(delta));
    MotionTerms {
        sin_heading: s(f(at.heading).sin()),
        cos_heading: s(f(at.heading).cos()),
        climb_decay: s(f(at.climb_exponent).exp()),
        speed_decay: s(f(at.speed_exponent).exp()),
        half_diagonal: s(f(at.half_width).hypot(f(at.half_length))),
    }
}

fn step(pose: &mut RobotPose, action: &ActionState, obstacles: &Vec<PlacedObstacle>, delta: f32) {
    let t = terms(pose, action, delta);
    move_robot(pose, &config(), action, obstacles, s(delta), t);
}

/// The pose in hardware floats.
struct Hardware {
    position: Reference,
    heading: f32,
    climb_offset: f32,
    previous: Reference,
    speed: f32,
}

impl Hardware {
    fn step(&mut self, forward: f32, turn: f32, climb: bool, obstacles: &[PlacedObstacle], d: f32) {
        let dt = d.min(0.05);
        self.heading += turn.clamp(-1.0, 1.0) * 0.62 * dt;
        let ahead = Reference::new(self.heading.sin(), 0.0, self.heading.cos());
        let speed = if forward >= 0.0 {
            0.085 * forward.clamp(0.0, 1.0)
        } else {
            0.050 * forward.clamp(-1.0, 0.0)
        };
        let proposed = self.position + ahead * speed * dt;
        let radius = (0.16f32 * 0.5).hypot(0.22 * 0.5) + 0.02;
        let mut blocked = false;
        let mut height: f32 = 0.0;
        for o in obstacles {
            let d = Vec2::new(proposed.x - f(o.position.x), proposed.z - f(o.position.z)).length();
            if o.obstacle.climbable && f(o.obstacle.height) <= 0.07 {
                if d < radius + f(o.obstacle.radius) + 0.08 {
                    height = height.max(f(o.obstacle.height));
                }
            } else if d < radius + f(o.obstacle.radius) {
                blocked = true;
            }
        }
        if !blocked {
            self.position.x = proposed.x;
            self.position.z = proposed.z;
        }
        let target = if climb { height * 0.70 } else { 0.0 };
        self.climb_offset += (target - self.climb_offset) * (1.0 - (-dt * 6.0).exp());
        self.position.y = 0.16 + self.climb_offset;
        let moved = Vec2::new(
            self.position.x - self.previous.x,
            self.position.z - self.previous.z,
        )
        .length();
        self.speed += (moved / dt.max(0.001) - self.speed) * (1.0 - (-dt * 5.0).exp());
        self.previous = self.position;
    }
}

#[test]
fn walks_agree_with_hardware() {
    let obstacles = vec![
        obstacle(1, -0.25, 0.0, 0.12, 0.18, false),
        obstacle(2, 0.24, 0.48, 0.12, 0.20, false),
        obstacle(3, 0.1, -0.3, 0.14, 0.065, true),
        obstacle(4, 0.4, -0.5, 0.1, 0.09, true),
    ];
    let mut state: u64 = 5;
    let mut next = || {
        state = state.wrapping_mul(6364136223846793005).wrapping_add(1442695040888963407);
        (state >> 40) as f32 / 16_777_216.0
    };
    let mut pose = RobotPose::default();
    let start = Reference::new(0.0, 0.16, -0.85);
    let mut hardware = Hardware {
        position: start,
        heading: 0.0,
        climb_offset: 0.0,
        previous: start,
        speed: 0.0,
    };
    for i in 0..3000 {
        let mut action = ActionState::default();
        let forward = next() * 2.4 - 0.8;
        let turn = (next() - 0.5) * 2.5;
        action.forward = s(forward);
        action.turn = s(turn);
        action.climb_mode = i % 3 != 0;
        let d = next() * 0.08;
        step(&mut pose, &action, &obstacles, d);
        hardware.step(forward, turn, action.climb_mode, &obstacles, d);
        assert_eq!(pose.position, v(hardware.position), "frame {}", i);
        assert_eq!(pose.heading, s(hardware.heading));
        assert_eq!(pose.climb_offset, s(hardware.climb_offset));
        assert_eq!(pose.measured_speed, s(hardware.speed));
        assert_eq!(pose.previous_position, pose.position);
    }
}

#[test]
fn solid_obstacles_stop_the_robot() {
    let obstacles = vec![obstacle(1, 0.0, -0.55, 0.12, 0.18, false)];
    let mut pose = RobotPose::default();
    let mut action = ActionState::default();
    action.forward = s(1.0);
    for _ in 0..2000 {
        step(&mut pose, &action, &obstacles, 0.016);
    }
    let reach = (0.16f32 * 0.5).hypot(0.22 * 0.5) + 0.02;
    assert!(f(pose.position.z) < -0.55 - 0.12 - reach + 0.001);
    assert!(f(pose.position.z) > -0.85);
}

#[test]
fn low_boxes_lift_the_robot_in_climb_mode() {
    let obstacles = vec![obstacle(1, 0.0, -0.85, 0.14, 0.065, true)];
    let mut pose = RobotPose::default();
    let mut action = ActionState::default();
    action.climb_mode = true;
    for _ in 0..600 {
        step(&mut pose, &action, &obstacles, 0.016);
    }
    assert!((f(pose.climb_offset) - 0.065 * 0.7).abs() < 1e-4);
    assert_eq!(pose.position.y, pose.base_height.plus(pose.climb_offset));
    action.climb_mode = false;
    for _ in 0..600 {
        step(&mut pose, &action, &obstacles, 0.016);
    }
    assert!(f(pose.climb_offset).abs() < 1e-4);
}

#[test]
fn commands_are_limited() {
    assert_eq!(commanded_speed(s(1.0)), s(0.085));
    assert_eq!(commanded_speed(s(9.0)), s(0.085));
    assert_eq!(commanded_speed(s(-1.0)), s(-0.050));
    assert_eq!(commanded_speed(s(-0.65)), s(0.050 * -0.65));
    assert_eq!(commanded_speed(s(0.0)), s(0.0));
    assert_eq!(turned_heading(s(0.5), s(-3.0), s(0.02)), s(0.5f32 + -1.0 * 0.62 * 0.02));
    assert_eq!(frame_time(s(0.2)), s(0.05));
    assert_eq!(frame_time(s(0.01)), s(0.01));
    assert_eq!(frame_time(Scalar::nan()), s(0.05));
}

#[test]
fn reset_puts_the_robot_back() {
    let mut pose = RobotPose::default();
    let mut action = ActionState::default();
    action.forward = s(1.0);
    action.turn = s(0.3);
    for _ in 0..50 {
        step(&mut pose, &action, &Vec::new(), 0.016);
    }
    assert!(pose != RobotPose::default());
    reset_robot_pose(&mut pose);
    assert_eq!(pose, RobotPose::default());
    assert_eq!(pose.position, v(Reference::new(0.0, 0.16, -0.85)));
}

#[test]
fn long_frames_move_alike() {
    let mut action = ActionState::default();
    action.forward = s(0.7);
    action.turn = s(-0.4);
    let mut short = RobotPose::default();
    step(&mut short, &action, &Vec::new(), 0.05);
    for delta in [0.051f32, 0.4, 1.0e9, f32::INFINITY] {
        let mut long = RobotPose::default();
        step(&mut long, &action, &Vec::new(), delta);
        assert_eq!(long, short);
    }
}

#[test]
fn frames_of_no_time_change_nothing() {
    let mut action = ActionState::default();
    action.forward = s(0.7);
    action.turn = s(-0.4);
    action.climb_mode = true;
    let obstacles = vec![obstacle(1, 0.0, -0.85, 0.14, 0.065, true)];
    let mut pose = RobotPose::default();
    for _ in 0..10 {
        step(&mut pose, &action, &obstacles, 0.016);
    }
    let before = pose;
    step(&mut pose, &action, &obstacles, 0.0);
    assert_eq!(pose, before);
}

#[test]
fn climb_and_speed_stay_in_bounds() {
    let obstacles = vec![obstacle(1, 0.0, -0.85, 0.14, 0.065, true)];
    let mut pose = RobotPose::default();
    let mut action = ActionState::default();
    for i in 0..2000 {
        action.climb_mode = i % 37 < 20;
        action.forward = s(if i % 11 < 5 { 1.0 } else { -1.0 });
        step(&mut pose, &action, &obstacles, 0.001 * (i % 60) as f32);
        let offset = f(pose.climb_offset) as f64;
        assert!(offset >= 0.0 && offset <= (0.07f32 * 0.70) as f64 * (1.0 + 1.5e-7));
        assert!(f(pose.position.y) >= 0.16);
        assert!(f(pose.measured_speed) >= 0.0);
    }
}
