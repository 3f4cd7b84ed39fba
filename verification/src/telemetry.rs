//! What the panel shows of the running simulation.

use crate::control::{Action, ActionState, ControlMode, ControlState};
use crate::decimal::{fixed, fixed_text};
use crate::motion::RobotPose;
use crate::order::{law_lt_is_strict, law_lt_is_transitive, law_negation, law_ratio_is_finite};
use crate::order::law_ratio_order;
use crate::scalar::{lemma_magnitude_sign, Scalar};
use crate::vector::ground_distance;
use crate::world::{PlacementMode, WorldState};
use vstd::prelude::*;

verus! {

/// What the robot is doing, as far as the operator cares.
#[derive(Clone, Copy, Debug, PartialEq, Eq, Structural)]
pub enum Command {
    /// It walks ahead.
    Forward,
    /// It walks back.
    Backward,
    /// It turns left.
    Left,
    /// It turns right.
    Right,
    /// It stands.
    Stop,
}

/// What a speed and a turn amount to.
pub open spec fn spec_command(forward: Scalar, turn: Scalar) -> Command {
    if Scalar::ratio(10, 100).lt(forward) && turn.abs().lt(Scalar::ratio(20, 100)) {
        Command::Forward
    } else if forward.lt(Scalar::ratio(10, 100).negated()) && turn.abs().lt(
        Scalar::ratio(30, 100),
    ) {
        Command::Backward
    } else if turn.lt(Scalar::ratio(20, 100).negated()) {
        Command::Left
    } else if Scalar::ratio(20, 100).lt(turn) {
        Command::Right
    } else {
        Command::Stop
    }
}

/// What a speed and a turn amount to.
#[verifier::when_used_as_spec(spec_command)]
pub fn command(forward: Scalar, turn: Scalar) -> (r: Command)
    ensures
        r == command(forward, turn),
{
    if Scalar::ratio(10, 100).lt(forward) && turn.abs().lt(Scalar::ratio(20, 100)) {
        Command::Forward
    } else if forward.lt(Scalar::ratio(10, 100).negated()) && turn.abs().lt(
        Scalar::ratio(30, 100),
    ) {
        Command::Backward
    } else if turn.lt(Scalar::ratio(20, 100).negated()) {
        Command::Left
    } else if Scalar::ratio(20, 100).lt(turn) {
        Command::Right
    } else {
        Command::Stop
    }
}

/// The name of a command.
pub open spec fn command_name(command: Command) -> Seq<char> {
    match command {
        Command::Forward => "FORWARD"@,
        Command::Backward => "BACKWARD"@,
        Command::Left => "LEFT"@,
        Command::Right => "RIGHT"@,
        Command::Stop => "STOP"@,
    }
}

/// The name of who steers.
pub open spec fn mode_name(mode: ControlMode) -> Seq<char> {
    match mode {
        ControlMode::Manual => "MANUAL"@,
        ControlMode::Automatic => "AUTOMATIC"@,
    }
}

/// The time to the destination at the present speed; none while the robot hardly moves.
pub open spec fn arrival_text(distance: Scalar, speed: Scalar) -> Seq<char> {
    if Scalar::ratio(1, 100).lt(speed) {
        fixed_text(distance.over(speed), 1) + " s"@
    } else {
        "--"@
    }
}

/// The live part of the panel.
pub open spec fn telemetry_text(
    control: ControlState,
    action: Action,
    pose: RobotPose,
    world: WorldState,
) -> Seq<char> {
    let distance = ground_distance(world.goal, pose.position);
    "Mode: "@ + mode_name(control.mode) + "\nCommand: "@ + command_name(
        command(action.forward, action.turn),
    ) + "\nSpeed: "@ + fixed_text(pose.measured_speed.times(Scalar::ratio(100, 1)), 2)
        + " cm/s\nGoal: "@ + fixed_text(distance, 2) + " m away\nETA: "@ + arrival_text(
        distance,
        pose.measured_speed,
    ) + "\nActive leg: "@ + action.active_leg + "\nPhase: "@ + action.gait_phase
        + "\nClimb mode: "@ + if action.climb_mode {
        "YES"@
    } else {
        "no"@
    }
}

/// The live part of the panel.
pub fn telemetry(
    control: &ControlState,
    action: &ActionState,
    pose: &RobotPose,
    world: &WorldState,
) -> (text: String)
    ensures
        text@ == telemetry_text(*control, action@, *pose, *world),
{
    let distance = ground_distance(world.goal, pose.position);
    let eta = if Scalar::ratio(1, 100).lt(pose.measured_speed) {
        fixed(distance.over(pose.measured_speed), 1).concat(" s")
    } else {
        String::from_str("--")
    };
    let mode = match control.mode {
        ControlMode::Manual => "MANUAL",
        ControlMode::Automatic => "AUTOMATIC",
    };
    let doing = match command(action.forward, action.turn) {
        Command::Forward => "FORWARD",
        Command::Backward => "BACKWARD",
        Command::Left => "LEFT",
        Command::Right => "RIGHT",
        Command::Stop => "STOP",
    };
    let speed = fixed(pose.measured_speed.times(Scalar::ratio(100, 1)), 2);
    let away = fixed(distance, 2);
    let mut text = String::from_str("Mode: ");
    text.append(mode);
    text.append("\nCommand: ");
    text.append(doing);
    text.append("\nSpeed: ");
    text.append(speed.as_str());
    text.append(" cm/s\nGoal: ");
    text.append(away.as_str());
    text.append(" m away\nETA: ");
    text.append(eta.as_str());
    text.append("\nActive leg: ");
    text.append(action.active_leg.as_str());
    text.append("\nPhase: ");
    text.append(action.gait_phase.as_str());
    text.append("\nClimb mode: ");
    text.append(
        if action.climb_mode {
            "YES"
        } else {
            "no"
        },
    );
    text
}

/// What the panel says of the next click.
pub fn placement_message(mode: PlacementMode) -> (text: &'static str)
    ensures
        text@ == match mode {
            PlacementMode::Idle => "Ready."@,
            PlacementMode::Obstacle => "Click map to place obstacle."@,
            PlacementMode::ClimbStep => "Click map to place climb box."@,
            PlacementMode::Goal => "Click map to set destination."@,
        },
{
    match mode {
        PlacementMode::Idle => "Ready.",
        PlacementMode::Obstacle => "Click map to place obstacle.",
        PlacementMode::ClimbStep => "Click map to place climb box.",
        PlacementMode::Goal => "Click map to set destination.",
    }
}

/// Whether a text of the panel names a mode and then a command.
pub open spec fn shows(text: Seq<char>, mode: Seq<char>, name: Seq<char>) -> bool {
    exists|rest: Seq<char>|
        text == #[trigger] ("Mode: "@ + mode + "\nCommand: "@ + name + "\nSpeed: "@ + rest)
}

/// The command that is shown is what the speed and the turn amount to: ahead or back where the
/// robot walks and hardly turns, otherwise left below a turn of -0.20, right above 0.20, and a stop
/// between.  Before it stands who steers.
pub proof fn law_command_is_shown(
    control: ControlState,
    action: Action,
    pose: RobotPose,
    world: WorldState,
)
    ensures
        ({
            let text = telemetry_text(control, action, pose, world);
            let tenth = Scalar::ratio(10, 100);
            let fifth = Scalar::ratio(20, 100);
            let wide = Scalar::ratio(30, 100);
            let forward = action.forward;
            let turn = action.turn;
            let ahead = tenth.lt(forward) && fifth.negated().lt(turn) && turn.lt(fifth);
            let back = forward.lt(tenth.negated()) && wide.negated().lt(turn) && turn.lt(wide);
            let mode = match control.mode {
                ControlMode::Manual => "MANUAL"@,
                ControlMode::Automatic => "AUTOMATIC"@,
            };
            &&& ahead ==> shows(text, mode, "FORWARD"@)
            &&& back ==> shows(text, mode, "BACKWARD"@)
            &&& !ahead && !back && turn.lt(fifth.negated()) ==> shows(text, mode, "LEFT"@)
            &&& !ahead && !back && fifth.lt(turn) ==> shows(text, mode, "RIGHT"@)
            &&& !ahead && !back && !turn.lt(fifth.negated()) && !fifth.lt(turn) ==> shows(
                text,
                mode,
                "STOP"@,
            )
        }),
{
    let text = telemetry_text(control, action, pose, world);
    let fifth = Scalar::ratio(20, 100);
    let tenth = Scalar::ratio(10, 100);
    let turn = action.turn;
    let forward = action.forward;
    lemma_size_is_below(turn, 20);
    lemma_size_is_below(turn, 30);
    assert(!(tenth.lt(forward) && forward.lt(tenth.negated()))) by {
        law_ratio_order(10, 100, 10, 100);
        law_lt_is_transitive(tenth.negated(), tenth, forward);
        law_lt_is_strict(tenth.negated(), forward);
    }
    assert(!(fifth.lt(turn) && turn.lt(fifth.negated()))) by {
        law_ratio_order(20, 100, 20, 100);
        law_lt_is_transitive(fifth.negated(), fifth, turn);
        law_lt_is_strict(fifth.negated(), turn);
    }
    let name = command_name(command(forward, turn));
    let distance = ground_distance(world.goal, pose.position);
    let mode = mode_name(control.mode);
    let rest = fixed_text(pose.measured_speed.times(Scalar::ratio(100, 1)), 2) + " cm/s\nGoal: "@
        + fixed_text(distance, 2) + " m away\nETA: "@ + arrival_text(distance, pose.measured_speed)
        + "\nActive leg: "@ + action.active_leg + "\nPhase: "@ + action.gait_phase
        + "\nClimb mode: "@ + if action.climb_mode {
        "YES"@
    } else {
        "no"@
    };
    assert(text =~= "Mode: "@ + mode + "\nCommand: "@ + name + "\nSpeed: "@ + rest);
    assert(shows(text, mode, name));
}

/// A turn is smaller than a bound, to either side, exactly where it lies between the bound's
/// opposite and the bound.
proof fn lemma_size_is_below(turn: Scalar, percent: u32)
    ensures
        ({
            let bound = Scalar::ratio(percent, 100);
            turn.abs().lt(bound) <==> bound.negated().lt(turn) && turn.lt(bound)
        }),
{
    let bound = Scalar::ratio(percent, 100);
    law_ratio_is_finite(percent, 100);
    law_negation(bound, bound);
    law_negation(turn, turn);
    lemma_magnitude_sign(turn.code() as int);
    lemma_magnitude_sign(bound.code() as int);
    reveal(Scalar::spec_lt);
}

/// Whether a text ends with another one.
pub open spec fn ends_with(text: Seq<char>, tail: Seq<char>) -> bool {
    exists|head: Seq<char>| text == #[trigger] (head + tail)
}

/// After the command the panel shows the speed in centimetres per second, how far along the ground
/// the destination is, how long it takes to get there at that speed, and what the controller says
/// of the legs.
pub proof fn law_journey_is_shown(
    control: ControlState,
    action: Action,
    pose: RobotPose,
    world: WorldState,
)
    ensures
        ({
            let x = world.goal.x.minus(pose.position.x);
            let z = world.goal.z.minus(pose.position.z);
            let distance = x.times(x).plus(z.times(z)).root();
            let speed = pose.measured_speed;
            let tail = "\nSpeed: "@ + fixed_text(speed.times(Scalar::ratio(100, 1)), 2)
                + " cm/s\nGoal: "@ + fixed_text(distance, 2) + " m away\nETA: "@ + (
            if Scalar::ratio(1, 100).lt(speed) {
                fixed_text(distance.over(speed), 1) + " s"@
            } else {
                "--"@
            }) + "\nActive leg: "@ + action.active_leg + "\nPhase: "@ + action.gait_phase
                + "\nClimb mode: "@ + (if action.climb_mode {
                "YES"@
            } else {
                "no"@
            });
            ends_with(telemetry_text(control, action, pose, world), tail)
        }),
{
    let x = world.goal.x.minus(pose.position.x);
    let z = world.goal.z.minus(pose.position.z);
    let distance = x.times(x).plus(z.times(z)).root();
    let speed = pose.measured_speed;
    let head = "Mode: "@ + mode_name(control.mode) + "\nCommand: "@ + command_name(
        command(action.forward, action.turn),
    );
    let tail = "\nSpeed: "@ + fixed_text(speed.times(Scalar::ratio(100, 1)), 2) + " cm/s\nGoal: "@
        + fixed_text(distance, 2) + " m away\nETA: "@ + (if Scalar::ratio(1, 100).lt(speed) {
        fixed_text(distance.over(speed), 1) + " s"@
    } else {
        "--"@
    }) + "\nActive leg: "@ + action.active_leg + "\nPhase: "@ + action.gait_phase
        + "\nClimb mode: "@ + (if action.climb_mode {
        "YES"@
    } else {
        "no"@
    });
    assert(telemetry_text(control, action, pose, world) =~= head + tail);
}

/// What a speed and a turn amount to, by their sizes alone: a turn below -0.20 is to the left and
/// one above 0.20 to the right, unless the robot walks; it walks above a speed of 0.10 ahead or
/// back, unless it turns by 0.20 or more, or 0.30 while it walks back.
pub proof fn law_command_goes_by_thresholds(forward: Scalar, turn: Scalar)
    ensures
        ({
            let tenth = Scalar::ratio(10, 100);
            let fifth = Scalar::ratio(20, 100);
            let wide = Scalar::ratio(30, 100);
            let ahead = tenth.lt(forward) && fifth.negated().lt(turn) && turn.lt(fifth);
            let back = forward.lt(tenth.negated()) && wide.negated().lt(turn) && turn.lt(wide);
            &&& command(forward, turn) == Command::Forward <==> ahead
            &&& command(forward, turn) == Command::Backward <==> back
            &&& command(forward, turn) == Command::Left <==> !ahead && !back && turn.lt(
                fifth.negated(),
            )
            &&& command(forward, turn) == Command::Right <==> !ahead && !back && fifth.lt(turn)
        }),
{
    let tenth = Scalar::ratio(10, 100);
    let fifth = Scalar::ratio(20, 100);
    lemma_size_is_below(turn, 20);
    lemma_size_is_below(turn, 30);
    law_ratio_order(10, 100, 10, 100);
    law_ratio_order(20, 100, 20, 100);
    law_lt_is_transitive(tenth.negated(), tenth, forward);
    law_lt_is_strict(tenth.negated(), forward);
    law_lt_is_transitive(fifth.negated(), fifth, turn);
    law_lt_is_strict(fifth.negated(), turn);
}

} // verus!
