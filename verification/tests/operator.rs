use spiderbot::camera::CameraRig;
use spiderbot::config::{ChassisConfig, GaitConfig, LinkConfig, RobotConfig, SettingKey};
use spiderbot::control::{ControlClock, ControlMode, ControlState};
use spiderbot::motion::RobotPose;
use spiderbot::operator::{
    keyboard_controls, perform, ui_buttons, Interaction, KeysPressed, OperatorState, UiAction,
};
use spiderbot::scalar::Scalar;
use spiderbot::world::{PlacementMode, PlacementState};

fn s(x: f32) -> Scalar {
    Scalar::from_bits(x.to_bits())
}

fn start() -> OperatorState {
    let tenth = s(0.1);
    OperatorState {
        control: ControlState {
            mode: ControlMode::Automatic,
            manual_forward: s(0.3),
            manual_turn: s(0.4),
        },
        placement: PlacementState::default(),
        camera: CameraRig { yaw: s(1.0), ..CameraRig::default() },
        pose: RobotPose { heading: s(2.0), ..RobotPose::default() },
        clock: ControlClock { elapsed: s(0.01), reset_pending: false },
        config: RobotConfig {
            control_hz: s(50.0),
            physics_hz: s(120.0),
            physics_substeps: 2,
            gait: GaitConfig { step_period_s: tenth, max_climb_height_m: tenth },
            chassis: ChassisConfig {
                length_m: tenth,
                width_m: tenth,
                height_m: tenth,
                mass_kg: tenth,
            },
            links: LinkConfig {
                coxa_length_m: tenth,
                femur_length_m: tenth,
                tibia_length_m: tenth,
                link_radius_m: tenth,
                coxa_mass_kg: tenth,
                femur_mass_kg: tenth,
                tibia_mass_kg: tenth,
                foot_radius_m: tenth,
            },
        },
    }
}

fn no_keys() -> KeysPressed {
    KeysPressed {
        w: false,
        s: false,
        a: false,
        d: false,
        space: false,
        m: false,
        n: false,
        r: false,
        f: false,
        o: false,
        b: false,
        g: false,
        c: false,
    }
}

fn manual(forward: f32, turn: f32) -> ControlState {
    ControlState {
        mode: ControlMode::Manual,
        manual_forward: s(forward),
        manual_turn: s(turn),
    }
}

fn after(action: UiAction) -> OperatorState {
    let mut state = start();
    assert_eq!(perform(&mut state, action), action == UiAction::ClearObstacles);
    state
}

#[test]
fn keys_do_what_buttons_do() {
    let pairs = vec![
        (KeysPressed { w: true, ..no_keys() }, UiAction::Forward),
        (KeysPressed { s: true, ..no_keys() }, UiAction::Backward),
        (KeysPressed { a: true, ..no_keys() }, UiAction::Left),
        (KeysPressed { d: true, ..no_keys() }, UiAction::Right),
        (KeysPressed { space: true, ..no_keys() }, UiAction::Stop),
        (KeysPressed { m: true, ..no_keys() }, UiAction::Automatic),
        (KeysPressed { n: true, ..no_keys() }, UiAction::Manual),
        (KeysPressed { r: true, ..no_keys() }, UiAction::ResetRobot),
        (KeysPressed { f: true, ..no_keys() }, UiAction::ResetCamera),
        (KeysPressed { o: true, ..no_keys() }, UiAction::AddObstacle),
        (KeysPressed { b: true, ..no_keys() }, UiAction::AddClimbStep),
        (KeysPressed { g: true, ..no_keys() }, UiAction::ChangeGoal),
        (KeysPressed { c: true, ..no_keys() }, UiAction::ClearObstacles),
    ];
    for (keys, action) in pairs {
        let mut by_key = start();
        let mut by_button = start();
        let cleared = keyboard_controls(&mut by_key, keys);
        assert_eq!(cleared, keys.c);
        let buttons = vec![(Interaction::Pressed, action)];
        assert_eq!(ui_buttons(&mut by_button, &buttons), cleared);
        assert_eq!(by_key, by_button);
        assert_eq!(by_key, after(action));
    }
}

#[test]
fn steering_sets_speed_and_turn() {
    assert_eq!(after(UiAction::Forward).control, manual(1.0, 0.0));
    assert_eq!(after(UiAction::Backward).control, manual(-0.65, 0.0));
    assert_eq!(after(UiAction::Left).control, manual(0.0, -1.0));
    assert_eq!(after(UiAction::Right).control, manual(0.0, 1.0));
    assert_eq!(after(UiAction::Stop).control, manual(0.0, 0.0));
    assert_eq!(after(UiAction::Manual).control, manual(0.0, 0.0));
    let mut state = after(UiAction::Forward);
    perform(&mut state, UiAction::Automatic);
    assert_eq!(state.control.mode, ControlMode::Automatic);
    assert_eq!(state.control.manual_forward, s(1.0));
}

#[test]
fn resets_start_over() {
    let state = after(UiAction::ResetRobot);
    assert_eq!(state.pose, RobotPose::default());
    assert_eq!(state.clock, ControlClock { elapsed: s(0.01), reset_pending: true });
    assert_eq!(state.control, manual(0.0, 0.0));
    assert_eq!(state.camera, start().camera);
    assert_eq!(after(UiAction::ResetCamera).camera, CameraRig::default());
}

#[test]
fn placement_waits_for_a_click() {
    assert_eq!(after(UiAction::AddObstacle).placement.mode, PlacementMode::Obstacle);
    assert_eq!(after(UiAction::AddClimbStep).placement.mode, PlacementMode::ClimbStep);
    assert_eq!(after(UiAction::ChangeGoal).placement.mode, PlacementMode::Goal);
    assert_eq!(after(UiAction::ClearObstacles), start());
}

#[test]
fn settings_have_buttons() {
    let state = after(UiAction::Adjust(SettingKey::BodyWidth, s(-1.0)));
    assert_eq!(state.config.chassis.width_m, s(0.10));
    let state = after(UiAction::Adjust(SettingKey::BodyWidth, s(1.0)));
    assert_eq!(state.config.chassis.width_m, s(0.1f32 + 0.010));
    assert_eq!(state.config.chassis.length_m, s(0.1));
}

#[test]
fn later_keys_win() {
    let mut state = start();
    let keys = KeysPressed { w: true, d: true, o: true, g: true, ..no_keys() };
    assert!(!keyboard_controls(&mut state, keys));
    assert_eq!(state.control, manual(0.0, 1.0));
    assert_eq!(state.placement.mode, PlacementMode::Goal);
    let mut state = start();
    let keys = KeysPressed { w: true, m: true, c: true, ..no_keys() };
    assert!(keyboard_controls(&mut state, keys));
    assert_eq!(state.control.mode, ControlMode::Automatic);
    assert_eq!(state.control.manual_forward, s(1.0));
}

#[test]
fn only_pressed_buttons_count() {
    let mut state = start();
    let buttons = vec![
        (Interaction::Hovered, UiAction::ClearObstacles),
        (Interaction::Pressed, UiAction::Left),
        (Interaction::Away, UiAction::Right),
    ];
    assert!(!ui_buttons(&mut state, &buttons));
    assert_eq!(state.control, manual(0.0, -1.0));
    let buttons = vec![
        (Interaction::Pressed, UiAction::ClearObstacles),
        (Interaction::Pressed, UiAction::Forward),
    ];
    assert!(ui_buttons(&mut state, &buttons));
    assert_eq!(state.control, manual(1.0, 0.0));
    assert!(!ui_buttons(&mut state, &Vec::new()));
}
