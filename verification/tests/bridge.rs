use bevy::math::{Quat, Vec3 as Reference};
use spiderbot::bridge::{
    apply_packet, controller_observation, reader_step, receive_controller_action, ActionPacket,
    HeadingTerms, ReaderEvent, ReaderStep,
};
use spiderbot::config::{ChassisConfig, GaitConfig, LinkConfig, RobotConfig};
use spiderbot::control::{ActionState, ControlClock, ControlMode, ControlState};
use spiderbot::motion::RobotPose;
use spiderbot::obstacle::{Obstacle, PlacedObstacle};
use spiderbot::scalar::Scalar;
use spiderbot::vector::Vec3;
use spiderbot::world::WorldState;

fn s(x: f32) -> Scalar {
    Scalar::from_bits(x.to_bits())
}

fn v(a: Reference) -> Vec3 {
    Vec3::new(s(a.x), s(a.y), s(a.z))
}

fn config(control_hz: f32) -> RobotConfig {
    let one = s(1.0);
    RobotConfig {
        control_hz: s(control_hz),
        physics_hz: one,
        physics_substeps: 1,
        gait: GaitConfig { step_period_s: one, max_climb_height_m: one },
        chassis: ChassisConfig { length_m: one, width_m: one, height_m: one, mass_kg: one },
        links: LinkConfig {
            coxa_length_m: one,
            femur_length_m: one,
            tibia_length_m: one,
            link_radius_m: one,
            coxa_mass_kg: one,
            femur_mass_kg: one,
            tibia_mass_kg: one,
            foot_radius_m: one,
        },
    }
}

fn obstacle(id: u64, at: Reference) -> PlacedObstacle {
    PlacedObstacle {
        id,
        position: v(at),
        obstacle: Obstacle { radius: s(0.12), height: s(0.18), climbable: id % 2 == 0 },
    }
}

fn packet(targets: Vec<f32>, leg: &str, error: Option<&str>) -> ActionPacket {
    ActionPacket {
        action_joint_targets_rad: targets.into_iter().map(s).collect(),
        forward_command: s(0.5),
        turn_command: s(-0.25),
        active_leg: leg.to_string(),
        gait_phase: String::new(),
        climb_mode: true,
        controller: "crawl".to_string(),
        error: error.map(|e| e.to_string()),
    }
}

#[test]
fn observation_describes_the_world_from_the_robot() {
    let heading = 0.7f32;
    let position = Reference::new(0.2, 0.16, -0.4);
    let goal = Reference::new(0.55, 0.02, 1.70);
    let mut pose = RobotPose::default();
    pose.position = v(position);
    pose.heading = s(heading);
    pose.measured_speed = s(0.061);
    let mut action = ActionState::default();
    action.turn = s(0.4);
    action.joint_targets[5] = s(0.3);
    let near = Reference::new(0.5, 0.09, 0.1);
    let far = Reference::new(0.5, 0.09, 1.9);
    let obstacles = vec![obstacle(4, far), obstacle(7, near)];
    let q = Quat::from_rotation_y(heading);
    let terms = HeadingTerms {
        sin: s(heading.sin()),
        cos: s(heading.cos()),
        quat_xyzw: [s(q.x), s(q.y), s(q.z), s(q.w)],
    };
    let mut clock = ControlClock::default();
    let mut control = ControlState::default();
    control.manual_forward = s(1.0);
    let told = controller_observation(
        &mut clock,
        s(0.03),
        &config(50.0),
        &control,
        &WorldState { goal: v(goal) },
        &pose,
        &action,
        &obstacles,
        terms,
    )
    .unwrap();
    let right = Reference::new(heading.cos(), 0.0, -heading.sin());
    let ahead = Reference::new(heading.sin(), 0.0, heading.cos());
    assert_eq!(told.dt, s(0.03));
    assert!(told.episode_reset);
    assert_eq!(told.joint_angles_rad, action.joint_targets);
    assert_eq!(told.joint_velocities_rad_s, [s(0.0); 12]);
    assert_eq!(told.chassis_quat_xyzw, terms.quat_xyzw);
    assert_eq!(
        told.chassis_linear_velocity_m_s,
        [s(ahead.x * 0.061), s(0.0), s(ahead.z * 0.061)]
    );
    assert_eq!(told.chassis_angular_velocity_rad_s, [s(0.0), s(0.4 * 0.60), s(0.0)]);
    assert_eq!(told.foot_contacts, [true; 4]);
    assert_eq!(told.control.mode, "manual");
    assert_eq!(told.control.forward, s(1.0));
    let d = goal - position;
    assert_eq!(told.navigation.goal_local, [s(d.dot(right)), s(d.dot(ahead))]);
    assert_eq!(told.navigation.obstacles.len(), 1);
    let o = told.navigation.obstacles[0];
    let d = near - position;
    assert_eq!((o.x, o.z), (s(d.dot(right)), s(d.dot(ahead))));
    assert_eq!((o.radius, o.height, o.climbable), (s(0.12), s(0.18), false));
    assert!(!clock.reset_pending);
    assert_eq!(clock.elapsed, s(0.0));
}

#[test]
fn resets_are_told_once_and_nothing_is_told_early() {
    let mut clock = ControlClock::default();
    let terms = HeadingTerms { sin: s(0.0), cos: s(1.0), quat_xyzw: [s(0.0); 4] };
    let mut seen: Vec<Option<bool>> = Vec::new();
    for _ in 0..4 {
        let told = controller_observation(
            &mut clock,
            s(0.012),
            &config(50.0),
            &ControlState::default(),
            &WorldState::default(),
            &RobotPose::default(),
            &ActionState::default(),
            &Vec::new(),
            terms,
        );
        seen.push(told.map(|t| t.episode_reset));
    }
    assert_eq!(seen, vec![None, Some(true), None, Some(false)]);
}

#[test]
fn automatic_mode_asks_for_nothing() {
    let mut clock = ControlClock::default();
    let control = ControlState {
        mode: ControlMode::Automatic,
        manual_forward: s(1.0),
        manual_turn: s(1.0),
    };
    let told = controller_observation(
        &mut clock,
        s(1.0),
        &config(50.0),
        &control,
        &WorldState::default(),
        &RobotPose::default(),
        &ActionState::default(),
        &Vec::new(),
        HeadingTerms { sin: s(0.0), cos: s(1.0), quat_xyzw: [s(0.0); 4] },
    )
    .unwrap();
    assert_eq!(told.control.mode, "automatic");
    assert_eq!((told.control.forward, told.control.turn), (s(0.0), s(0.0)));
}

#[test]
fn answers_become_the_action() {
    let mut action = ActionState::default();
    let targets: Vec<f32> = (0..12).map(|i| i as f32 / 10.0).collect();
    assert_eq!(apply_packet(&mut action, packet(targets.clone(), "BL", None)), None);
    for i in 0..12 {
        assert_eq!(action.joint_targets[i], s(targets[i]));
    }
    assert_eq!((action.forward, action.turn), (s(0.5), s(-0.25)));
    assert!(action.climb_mode);
    assert_eq!(action.active_leg, "BL");
    assert_eq!(action.gait_phase, "STOP");
    assert_eq!(action.controller, "crawl");
}

#[test]
fn short_lists_and_empty_texts_change_nothing() {
    let mut action = ActionState::default();
    let report = apply_packet(&mut action, packet(vec![1.0; 11], "", Some("no joints")));
    assert_eq!(report, Some("movement_policy.py: no joints".to_string()));
    assert_eq!(action.joint_targets, [s(0.0); 12]);
    assert_eq!(action.active_leg, "FR");
}

#[test]
fn answers_are_taken_in_order() {
    let mut action = ActionState::default();
    let mut last = packet(vec![2.0; 12], "FL", Some("second"));
    last.forward_command = s(0.75);
    let lines = receive_controller_action(
        &mut action,
        vec![packet(vec![1.0; 12], "BR", Some("first")), packet(vec![], "", None), last],
    );
    assert_eq!(lines, vec!["movement_policy.py: first", "movement_policy.py: second"]);
    assert_eq!(action.joint_targets, [s(2.0); 12]);
    assert_eq!(action.active_leg, "FL");
    assert_eq!(action.forward, s(0.75));
    assert!(receive_controller_action(&mut action, Vec::new()).is_empty());
    assert_eq!(action.forward, s(0.75));
}

#[test]
fn reader_goes_on_until_nobody_listens() {
    assert!(matches!(reader_step(ReaderEvent::Unreadable), ReaderStep::Stop));
    assert!(matches!(reader_step(ReaderEvent::Answered), ReaderStep::Deliver));
    assert!(matches!(reader_step(ReaderEvent::Delivered), ReaderStep::ReadOn));
    assert!(matches!(reader_step(ReaderEvent::Refused), ReaderStep::Stop));
    let event = ReaderEvent::Malformed { error: "eof".to_string(), line: "{".to_string() };
    match reader_step(event) {
        ReaderStep::Report { error, output } => {
            assert_eq!(error, "Controller JSON error: eof");
            assert_eq!(output, "Python output: {");
        }
        _ => panic!("not reported"),
    }
}
