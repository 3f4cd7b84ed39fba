use spiderbot::control::{ActionState, ControlMode, ControlState};
use spiderbot::motion::RobotPose;
use spiderbot::scalar::Scalar;
use spiderbot::telemetry::{command, placement_message, telemetry, Command};
use spiderbot::vector::Vec3;
use spiderbot::world::{PlacementMode, WorldState};

fn s(x: f32) -> Scalar {
    Scalar::from_bits(x.to_bits())
}

#[test]
fn live_part_while_walking() {
    let control = ControlState { mode: ControlMode::Automatic, ..ControlState::default() };
    let mut action = ActionState::default();
    action.forward = s(0.8);
    action.active_leg = "BL".to_string();
    action.gait_phase = "SWING".to_string();
    action.climb_mode = true;
    let mut pose = RobotPose::default();
    pose.measured_speed = s(0.0625);
    pose.position = Vec3::new(s(0.0), s(0.16), s(0.0));
    let world = WorldState { goal: Vec3::new(s(0.3), s(0.02), s(0.4)) };
    assert_eq!(
        telemetry(&control, &action, &pose, &world),
        "Mode: AUTOMATIC\nCommand: FORWARD\nSpeed: 6.25 cm/s\nGoal: 0.50 m away\nETA: 8.0 s\n\
         Active leg: BL\nPhase: SWING\nClimb mode: YES"
    );
}

#[test]
fn live_part_while_standing() {
    let text = telemetry(
        &ControlState::default(),
        &ActionState::default(),
        &RobotPose::default(),
        &WorldState::default(),
    );
    let away = (0.55f32 * 0.55 + (1.70f32 + 0.85) * (1.70 + 0.85)).sqrt();
    assert_eq!(
        text,
        format!(
            "Mode: MANUAL\nCommand: STOP\nSpeed: 0.00 cm/s\nGoal: {:.2} m away\nETA: --\n\
             Active leg: FR\nPhase: STOP\nClimb mode: no",
            away
        )
    );
}

#[test]
fn arrival_is_told_above_a_centimetre_per_second() {
    let mut pose = RobotPose::default();
    for (speed, told) in [(0.01f32, false), (0.0101, true)] {
        pose.measured_speed = s(speed);
        let text = telemetry(
            &ControlState::default(),
            &ActionState::default(),
            &pose,
            &WorldState::default(),
        );
        assert_eq!(text.contains("ETA: --"), !told);
    }
}

#[test]
fn commands_have_thresholds() {
    let cases = [
        (0.11, 0.19, Command::Forward),
        (0.10, 0.0, Command::Stop),
        (0.5, 0.2, Command::Stop),
        (0.5, 0.21, Command::Right),
        (0.5, -0.21, Command::Left),
        (-0.11, 0.29, Command::Backward),
        (-0.11, -0.29, Command::Backward),
        (-0.11, 0.31, Command::Right),
        (-0.10, 0.0, Command::Stop),
        (0.0, -0.20, Command::Stop),
        (0.0, -1.0, Command::Left),
        (0.0, 1.0, Command::Right),
        (f32::NAN, f32::NAN, Command::Stop),
    ];
    for (forward, turn, expected) in cases {
        assert_eq!(command(s(forward), s(turn)), expected);
    }
}

#[test]
fn panel_says_what_a_click_does() {
    assert_eq!(placement_message(PlacementMode::Idle), "Ready.");
    assert_eq!(placement_message(PlacementMode::Obstacle), "Click map to place obstacle.");
    assert_eq!(placement_message(PlacementMode::ClimbStep), "Click map to place climb box.");
    assert_eq!(placement_message(PlacementMode::Goal), "Click map to set destination.");
}
