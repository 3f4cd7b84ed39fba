use spiderbot::control::{
    control_period, set_manual, tick, ActionState, ControlClock, ControlMode, ControlState,
};
use spiderbot::scalar::Scalar;

fn s(x: f32) -> Scalar {
    Scalar::from_bits(x.to_bits())
}

#[test]
fn operator_starts_standing() {
    let c = ControlState::default();
    assert_eq!(c.mode, ControlMode::Manual);
    assert_eq!((c.manual_forward, c.manual_turn), (s(0.0), s(0.0)));
}

#[test]
fn manual_takes_over() {
    let mut c = ControlState { mode: ControlMode::Automatic, ..ControlState::default() };
    set_manual(&mut c, s(-0.65), s(0.25));
    assert_eq!(c.mode, ControlMode::Manual);
    assert_eq!((c.manual_forward, c.manual_turn), (s(-0.65), s(0.25)));
}

#[test]
fn clock_starts_with_a_reset() {
    let clock = ControlClock::default();
    assert!(clock.reset_pending);
    assert_eq!(clock.elapsed, s(0.0));
}

#[test]
fn controller_is_asked_once_per_period() {
    let mut clock = ControlClock::default();
    assert_eq!(tick(&mut clock, s(0.008), s(50.0)), None);
    assert_eq!(tick(&mut clock, s(0.008), s(50.0)), None);
    assert_eq!(clock.elapsed, s(0.008f32 + 0.008));
    let dt = s(0.008f32 + 0.008 + 0.008);
    assert_eq!(tick(&mut clock, s(0.008), s(50.0)), Some(dt));
    assert_eq!(clock.elapsed, s(0.0));
    assert!(clock.reset_pending);
}

#[test]
fn period_is_at_most_a_second() {
    assert_eq!(control_period(s(50.0)), s(1.0 / 50.0));
    assert_eq!(control_period(s(0.1)), s(1.0));
    assert_eq!(control_period(s(-4.0)), s(1.0));
    assert_eq!(control_period(Scalar::nan()), s(1.0));
    assert_eq!(control_period(s(f32::INFINITY)), s(0.0));
}

#[test]
fn action_starts_waiting() {
    let a = ActionState::default();
    assert_eq!(a.joint_targets, [s(0.0); 12]);
    assert_eq!(a.active_leg, "FR");
    assert_eq!(a.gait_phase, "STOP");
    assert_eq!(a.controller, "waiting");
    assert!(!a.climb_mode);
    assert_eq!((a.forward, a.turn), (s(0.0), s(0.0)));
}

#[test]
fn no_time_is_lost_or_told_twice() {
    let hz = s(50.0);
    let mut clock = ControlClock::default();
    let (mut told, mut passed) = (0.0f64, 0.0f64);
    for i in 0..1000 {
        let delta = (1 + i % 7) as f32 / 1024.0;
        passed += delta as f64;
        if let Some(dt) = tick(&mut clock, s(delta), hz) {
            let dt = f32::from_bits(dt.to_bits());
            assert!(dt >= 1.0 / 50.0);
            told += dt as f64;
        }
    }
    assert_eq!(told + f32::from_bits(clock.elapsed.to_bits()) as f64, passed);
}
