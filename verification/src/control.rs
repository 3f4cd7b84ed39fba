//! What the operator asks of the robot, what the controller answers, and when it is asked.

use crate::order::{law_lt_is_transitive, law_max_is_at_least};
use crate::order::{law_order_is_total, law_ratio_order, law_reciprocal_is_at_most_one};
use crate::scalar::Scalar;
use vstd::prelude::*;

verus! {

/// Who steers.
#[derive(Clone, Copy, Debug, PartialEq, Eq, Structural)]
pub enum ControlMode {
    /// The operator.
    Manual,
    /// The controller's own navigation.
    Automatic,
}

/// What the operator asks for.
#[derive(Clone, Copy, Debug, PartialEq, Eq, Structural)]
pub struct ControlState {
    /// Who steers.
    pub mode: ControlMode,
    /// The speed asked for: 1 is full speed ahead.
    pub manual_forward: Scalar,
    /// The turn asked for: negative is left, positive is right.
    pub manual_turn: Scalar,
}

/// The operator steers, with the given speed and turn.
pub open spec fn spec_manual(forward: Scalar, turn: Scalar) -> ControlState {
    ControlState { mode: ControlMode::Manual, manual_forward: forward, manual_turn: turn }
}

/// The operator steers and asks for nothing.
pub open spec fn standing() -> ControlState {
    spec_manual(Scalar::ratio(0, 1), Scalar::ratio(0, 1))
}

impl Default for ControlState {
    fn default() -> (r: ControlState)
        ensures
            r == standing(),
    {
        ControlState {
            mode: ControlMode::Manual,
            manual_forward: Scalar::ratio(0, 1),
            manual_turn: Scalar::ratio(0, 1),
        }
    }
}

/// Gives the steering to the operator.
pub fn set_manual(control: &mut ControlState, forward: Scalar, turn: Scalar)
    ensures
        *final(control) == spec_manual(forward, turn),
        final(control).mode == ControlMode::Manual,
        final(control).manual_forward == forward,
        final(control).manual_turn == turn,
{
    control.mode = ControlMode::Manual;
    control.manual_forward = forward;
    control.manual_turn = turn;
}

/// When the controller was last asked, and whether it has to start over.
#[derive(Clone, Copy, Debug, PartialEq, Eq, Structural)]
pub struct ControlClock {
    /// The time since the controller was last asked, in seconds.
    pub elapsed: Scalar,
    /// Whether the next observation starts a new episode.
    pub reset_pending: bool,
}

impl Default for ControlClock {
    fn default() -> (r: ControlClock)
        ensures
            r == (ControlClock { elapsed: Scalar::ratio(0, 1), reset_pending: true }),
    {
        ControlClock { elapsed: Scalar::ratio(0, 1), reset_pending: true }
    }
}

/// The time between two observations, in seconds.
pub open spec fn spec_control_period(control_hz: Scalar) -> Scalar {
    Scalar::ratio(1, 1).over(control_hz.max(Scalar::ratio(1, 1)))
}

/// The time between two observations, in seconds.
#[verifier::when_used_as_spec(spec_control_period)]
pub fn control_period(control_hz: Scalar) -> (r: Scalar)
    ensures
        r == control_period(control_hz),
{
    Scalar::ratio(1, 1).over(control_hz.max(Scalar::ratio(1, 1)))
}

/// Whether an observation is due once `delta` more seconds have passed.
pub open spec fn is_due(clock: ControlClock, delta: Scalar, control_hz: Scalar) -> bool {
    !clock.elapsed.plus(delta).lt(spec_control_period(control_hz))
}

/// Lets time pass.  Where an observation is due, gives the time since the last one and starts
/// the next period.
pub fn tick(clock: &mut ControlClock, delta: Scalar, control_hz: Scalar) -> (r: Option<Scalar>)
    ensures
        is_due(*old(clock), delta, control_hz) ==> {
            &&& r == Some(old(clock).elapsed.plus(delta))
            &&& *final(clock) == (ControlClock { elapsed: Scalar::ratio(0, 1), ..*old(clock) })
        },
        !is_due(*old(clock), delta, control_hz) ==> {
            &&& r is None
            &&& *final(clock) == (ControlClock {
                elapsed: old(clock).elapsed.plus(delta),
                ..*old(clock)
            })
        },
{
    clock.elapsed = clock.elapsed.plus(delta);
    if clock.elapsed.lt(control_period(control_hz)) {
        return None;
    }
    let dt = clock.elapsed;
    clock.elapsed = Scalar::ratio(0, 1);
    Some(dt)
}

/// The action that the controller gave last.
#[derive(Debug)]
pub struct ActionState {
    /// The targets of the joints, in radians.
    pub joint_targets: [Scalar; 12],
    /// The speed.
    pub forward: Scalar,
    /// The turn.
    pub turn: Scalar,
    /// The leg that moves.
    pub active_leg: String,
    /// The phase of the gait.
    pub gait_phase: String,
    /// Whether the robot climbs.
    pub climb_mode: bool,
    /// The controller's name.
    pub controller: String,
}

/// An action, with its texts as character sequences.
#[verifier::ext_equal]
pub struct Action {
    /// The targets of the joints, in radians.
    pub joint_targets: Seq<Scalar>,
    /// The speed.
    pub forward: Scalar,
    /// The turn.
    pub turn: Scalar,
    /// The leg that moves.
    pub active_leg: Seq<char>,
    /// The phase of the gait.
    pub gait_phase: Seq<char>,
    /// Whether the robot climbs.
    pub climb_mode: bool,
    /// The controller's name.
    pub controller: Seq<char>,
}

impl View for ActionState {
    type V = Action;

    open spec fn view(&self) -> Action {
        Action {
            joint_targets: self.joint_targets@,
            forward: self.forward,
            turn: self.turn,
            active_leg: self.active_leg@,
            gait_phase: self.gait_phase@,
            climb_mode: self.climb_mode,
            controller: self.controller@,
        }
    }
}

/// The action before the controller has answered.
pub open spec fn waiting_action() -> Action {
    Action {
        joint_targets: Seq::new(12, |i: int| Scalar::ratio(0, 1)),
        forward: Scalar::ratio(0, 1),
        turn: Scalar::ratio(0, 1),
        active_leg: "FR"@,
        gait_phase: "STOP"@,
        climb_mode: false,
        controller: "waiting"@,
    }
}

impl Default for ActionState {
    fn default() -> (r: ActionState)
        ensures
            r@ == waiting_action(),
    {
        let zero = Scalar::ratio(0, 1);
        ActionState {
            joint_targets: [
                zero,
                zero,
                zero,
                zero,
                zero,
                zero,
                zero,
                zero,
                zero,
                zero,
                zero,
                zero,
            ],
            forward: zero,
            turn: zero,
            active_leg: String::from_str("FR"),
            gait_phase: String::from_str("STOP"),
            climb_mode: false,
            controller: String::from_str("waiting"),
        }
    }
}

/// Whatever rate is configured, the controller is asked at least once per second.
pub proof fn law_period_is_at_most_a_second(control_hz: Scalar)
    ensures
        Scalar::ratio(0, 1).le(control_period(control_hz)),
        control_period(control_hz).le(Scalar::ratio(1, 1)),
{
    law_ratio_order(1, 1, 1, 1);
    law_max_is_at_least(control_hz, Scalar::ratio(1, 1));
    law_reciprocal_is_at_most_one(control_hz.max(Scalar::ratio(1, 1)));
}

/// The controller is asked as often as the rate says: the period is one over it, and a second for
/// rates below one per second.
pub proof fn law_period_is_the_reciprocal(control_hz: Scalar)
    ensures
        Scalar::ratio(1, 1).le(control_hz) ==> control_period(control_hz) == Scalar::ratio(
            1,
            1,
        ).over(control_hz),
        !Scalar::ratio(1, 1).le(control_hz) ==> control_period(control_hz) == Scalar::ratio(
            1,
            1,
        ).over(Scalar::ratio(1, 1)),
{
    let one = Scalar::ratio(1, 1);
    law_ratio_order(1, 1, 1, 1);
    law_order_is_total(control_hz, one);
    law_order_is_total(one, control_hz);
}

/// An observation is due exactly when the time since the last one is no longer below a period.
pub proof fn law_due_after_a_period(clock: ControlClock, delta: Scalar, control_hz: Scalar)
    ensures
        is_due(clock, delta, control_hz) <==> !clock.elapsed.plus(delta).lt(
            control_period(control_hz),
        ),
{
}

/// Who steers by hand gets the speed and the turn that they ask for.
pub proof fn law_manual_is_as_asked(forward: Scalar, turn: Scalar)
    ensures
        spec_manual(forward, turn).mode == ControlMode::Manual,
        spec_manual(forward, turn).manual_forward == forward,
        spec_manual(forward, turn).manual_turn == turn,
        standing().mode == ControlMode::Manual,
        standing().manual_forward == Scalar::ratio(0, 1),
        standing().manual_turn == Scalar::ratio(0, 1),
{
}

/// An action is read part by part.
pub proof fn law_action_is_read_as_kept(action: ActionState)
    ensures
        action@.joint_targets == action.joint_targets@,
        action@.forward == action.forward,
        action@.turn == action.turn,
        action@.active_leg == action.active_leg@,
        action@.gait_phase == action.gait_phase@,
        action@.climb_mode == action.climb_mode,
        action@.controller == action.controller@,
{
}

/// Where the controller is not asked, the time since it was last asked is below a period.
pub proof fn law_waiting_is_below_a_period(clock: ControlClock, delta: Scalar, control_hz: Scalar)
    requires
        !is_due(clock, delta, control_hz),
    ensures
        clock.elapsed.plus(delta).lt(control_period(control_hz)),
        clock.elapsed.plus(delta).lt(Scalar::ratio(1, 1)),
{
    law_period_is_at_most_a_second(control_hz);
    law_lt_is_transitive(
        clock.elapsed.plus(delta),
        control_period(control_hz),
        Scalar::ratio(1, 1),
    );
}

} // verus!
