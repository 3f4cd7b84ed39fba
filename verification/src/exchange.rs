//! What the exchange with the controller carries over, said of what is sent and what arrives.

use crate::accuracy::{law_product_with_zero, law_sum_with_zero};
use crate::bridge::{answer_report, answers, applied, applied_all, clock_told, is_nearby};
use crate::bridge::{law_nearby_obstacles_are_seen, malformed_report, observation};
use crate::bridge::{obstacle_seen, obstacles_seen, reports, texts};
use crate::bridge::{ActionPacket, Answer, ObservationPacket};
use crate::control::{Action, ControlClock, ControlMode, ControlState};
use crate::motion::RobotPose;
use crate::obstacle::PlacedObstacle;
use crate::operator::{law_left_is_negative, performed, OperatorState, UiAction};
use crate::order::{law_one, law_one_is_neutral, law_ratio_is_finite, law_zero};
use crate::scalar::{lemma_magnitude_sign, Scalar};
use crate::vector::Vec3;
use crate::world::WorldState;
use vstd::prelude::*;

verus! {

/// While the operator steers, what they ask for is handed on to the controller unchanged.
pub proof fn law_manual_request_is_handed_on(
    dt: Scalar,
    episode_reset: bool,
    control: ControlState,
    world: WorldState,
    pose: RobotPose,
    action: Action,
    obstacles: Seq<PlacedObstacle>,
    sin: Scalar,
    cos: Scalar,
    rotation: Seq<Scalar>,
)
    requires
        control.mode == ControlMode::Manual,
    ensures
        ({
            let told = observation(
                dt,
                episode_reset,
                control,
                world,
                pose,
                action,
                obstacles,
                sin,
                cos,
                rotation,
            );
            &&& told.mode == "manual"@
            &&& told.forward == control.manual_forward
            &&& told.turn == control.manual_turn
        }),
{
}

/// What the operator presses reaches the controller: right is a positive turn and left a negative
/// one, ahead is a positive speed and back a negative one, and stopping is neither.
pub proof fn law_keys_reach_the_controller(
    state: OperatorState,
    dt: Scalar,
    episode_reset: bool,
    world: WorldState,
    pose: RobotPose,
    action: Action,
    obstacles: Seq<PlacedObstacle>,
    sin: Scalar,
    cos: Scalar,
    rotation: Seq<Scalar>,
)
    ensures
        ({
            let zero = Scalar::ratio(0, 1);
            let told = |pressed: UiAction|
                observation(
                    dt,
                    episode_reset,
                    performed(state, pressed).control,
                    world,
                    pose,
                    action,
                    obstacles,
                    sin,
                    cos,
                    rotation,
                );
            &&& zero.lt(told(UiAction::Right).turn) && told(UiAction::Right).forward == zero
            &&& told(UiAction::Left).turn.lt(zero) && told(UiAction::Left).forward == zero
            &&& zero.lt(told(UiAction::Forward).forward) && told(UiAction::Forward).turn == zero
            &&& told(UiAction::Backward).forward.lt(zero) && told(UiAction::Backward).turn == zero
            &&& told(UiAction::Stop).forward == zero && told(UiAction::Stop).turn == zero
            &&& told(UiAction::Manual).forward == zero && told(UiAction::Manual).turn == zero
            &&& told(UiAction::Automatic).mode == "automatic"@
            &&& told(UiAction::Right).mode == "manual"@ && told(UiAction::Left).mode == "manual"@
            &&& told(UiAction::Forward).mode == "manual"@
            &&& told(UiAction::Backward).mode == "manual"@
            &&& told(UiAction::Stop).mode == "manual"@
            &&& told(UiAction::Manual).mode == "manual"@
        }),
{
    law_left_is_negative(state);
    law_zero();
    law_one();
    law_ratio_is_finite(65, 100);
    lemma_magnitude_sign(Scalar::ratio(1, 1).code() as int);
    lemma_magnitude_sign(Scalar::ratio(65, 100).code() as int);
    crate::order::law_negation(Scalar::ratio(65, 100), Scalar::ratio(65, 100));
    reveal(Scalar::spec_lt);
}

/// What the controller is told of the robot itself: the time, whether it starts over, the angles
/// that the joints were sent to, its velocity along its heading and its turn.
pub proof fn law_robot_is_described(
    dt: Scalar,
    episode_reset: bool,
    control: ControlState,
    world: WorldState,
    pose: RobotPose,
    action: Action,
    obstacles: Seq<PlacedObstacle>,
    sin: Scalar,
    cos: Scalar,
    rotation: Seq<Scalar>,
)
    requires
        action.joint_targets.len() == 12,
    ensures
        ({
            let told = observation(
                dt,
                episode_reset,
                control,
                world,
                pose,
                action,
                obstacles,
                sin,
                cos,
                rotation,
            );
            let zero = Scalar::ratio(0, 1);
            &&& told.dt == dt
            &&& told.episode_reset == episode_reset
            &&& told.joint_angles.len() == 12
            &&& forall|i: int|
                0 <= i < 12 ==> #[trigger] told.joint_angles[i] == action.joint_targets[i]
            &&& told.joint_velocities.len() == 12
            &&& forall|i: int| 0 <= i < 12 ==> #[trigger] told.joint_velocities[i] == zero
            &&& told.rotation == rotation
            &&& told.linear_velocity.len() == 3
            &&& told.linear_velocity[0] == sin.times(pose.measured_speed)
            &&& told.linear_velocity[1] == zero
            &&& told.linear_velocity[2] == cos.times(pose.measured_speed)
            &&& told.angular_velocity.len() == 3
            &&& told.angular_velocity[0] == zero
            &&& told.angular_velocity[1] == action.turn.times(Scalar::ratio(60, 100))
            &&& told.angular_velocity[2] == zero
            &&& told.foot_contacts.len() == 4
            &&& forall|i: int| 0 <= i < 4 ==> #[trigger] told.foot_contacts[i]
        }),
{
}

/// The destination is told as the robot sees it: how far along its right hand and how far along its
/// heading the way there leads.
pub proof fn law_goal_is_seen_by_robot(
    dt: Scalar,
    episode_reset: bool,
    control: ControlState,
    world: WorldState,
    pose: RobotPose,
    action: Action,
    obstacles: Seq<PlacedObstacle>,
    sin: Scalar,
    cos: Scalar,
    rotation: Seq<Scalar>,
)
    ensures
        ({
            let told = observation(
                dt,
                episode_reset,
                control,
                world,
                pose,
                action,
                obstacles,
                sin,
                cos,
                rotation,
            );
            let zero = Scalar::ratio(0, 1);
            let x = world.goal.x.minus(pose.position.x);
            let y = world.goal.y.minus(pose.position.y);
            let z = world.goal.z.minus(pose.position.z);
            &&& told.goal_local.len() == 2
            &&& told.goal_local[0] == x.times(cos).plus(y.times(zero)).plus(z.times(sin.negated()))
            &&& told.goal_local[1] == x.times(sin).plus(y.times(zero)).plus(z.times(cos))
        }),
{
}

/// An obstacle is told as the robot sees it, with the size that it has.
pub proof fn law_obstacle_is_seen_by_robot(
    position: Vec3,
    sin: Scalar,
    cos: Scalar,
    placed: PlacedObstacle,
)
    ensures
        ({
            let seen = obstacle_seen(position, sin, cos, placed);
            let zero = Scalar::ratio(0, 1);
            let x = placed.position.x.minus(position.x);
            let y = placed.position.y.minus(position.y);
            let z = placed.position.z.minus(position.z);
            &&& seen.x == x.times(cos).plus(y.times(zero)).plus(z.times(sin.negated()))
            &&& seen.z == x.times(sin).plus(y.times(zero)).plus(z.times(cos))
            &&& seen.radius == placed.obstacle.radius
            &&& seen.height == placed.obstacle.height
            &&& seen.climbable == placed.obstacle.climbable
        }),
{
}

/// A robot that faces along the map sees things where the map has them: to the right what lies to
/// the right, and ahead what lies ahead.
pub proof fn law_facing_ahead_sees_the_map(position: Vec3, placed: PlacedObstacle)
    requires
        placed.position.x.minus(position.x).is_finite(),
        placed.position.y.minus(position.y).is_finite(),
        placed.position.z.minus(position.z).is_finite(),
    ensures
        ({
            let seen = obstacle_seen(position, Scalar::ratio(0, 1), Scalar::ratio(1, 1), placed);
            &&& seen.x.units() == placed.position.x.minus(position.x).units()
            &&& seen.z.units() == placed.position.z.minus(position.z).units()
        }),
{
    let zero = Scalar::ratio(0, 1);
    let one = Scalar::ratio(1, 1);
    let x = placed.position.x.minus(position.x);
    let y = placed.position.y.minus(position.y);
    let z = placed.position.z.minus(position.z);
    law_zero();
    law_one();
    law_ratio_is_finite(0, 1);
    crate::order::law_negation(zero, zero);
    law_one_is_neutral(x);
    law_one_is_neutral(z);
    crate::order::law_commutes(x, one);
    crate::order::law_commutes(z, one);
    law_product_with_zero(x, zero);
    law_product_with_zero(y, zero);
    law_product_with_zero(z, zero.negated());
    law_sum_with_zero(x, y.times(zero));
    law_sum_with_zero(x.plus(y.times(zero)), z.times(zero.negated()));
    law_sum_with_zero(x.times(zero), y.times(zero));
    law_sum_with_zero(z, x.times(zero).plus(y.times(zero)));
    crate::order::law_commutes(z, x.times(zero).plus(y.times(zero)));
}

/// The controller is told of each obstacle within 1.6 metres and of no other, in the order of the
/// world.
pub proof fn law_obstacles_in_sight_are_told(
    position: Vec3,
    sin: Scalar,
    cos: Scalar,
    obstacles: Seq<PlacedObstacle>,
)
    ensures
        obstacles_seen(position, sin, cos, obstacles) == obstacles.filter(
            |placed: PlacedObstacle|
                {
                    let x = placed.position.x.minus(position.x);
                    let y = placed.position.y.minus(position.y);
                    let z = placed.position.z.minus(position.z);
                    !Scalar::ratio(16, 10).lt(
                        x.times(x).plus(y.times(y)).plus(z.times(z)).root(),
                    )
                },
        ).map_values(|placed: PlacedObstacle| obstacle_seen(position, sin, cos, placed)),
{
    law_nearby_obstacles_are_seen(position, sin, cos, obstacles);
    let near = |placed: PlacedObstacle| is_nearby(position, placed);
    let direct = |placed: PlacedObstacle|
        {
            let x = placed.position.x.minus(position.x);
            let y = placed.position.y.minus(position.y);
            let z = placed.position.z.minus(position.z);
            !Scalar::ratio(16, 10).lt(x.times(x).plus(y.times(y)).plus(z.times(z)).root())
        };
    assert(near =~= direct);
}

/// The controller is asked once the time since it was last asked is a control period, and the time
/// starts anew then; before that it adds up.
pub proof fn law_clock_runs_for_a_period(clock: ControlClock, delta: Scalar, control_hz: Scalar)
    ensures
        ({
            let after = clock_told(clock, delta, control_hz);
            let elapsed = clock.elapsed.plus(delta);
            let one = Scalar::ratio(1, 1);
            let period = if one.le(control_hz) {
                one.over(control_hz)
            } else {
                one.over(one)
            };
            &&& elapsed.lt(period) ==> after.elapsed == elapsed && after.reset_pending
                == clock.reset_pending
            &&& !elapsed.lt(period) ==> after.elapsed == Scalar::ratio(0, 1)
                && !after.reset_pending
        }),
{
    crate::control::law_period_is_the_reciprocal(control_hz);
}

/// An answer with twelve joint targets sends each joint where the answer says, and one with another
/// number of them leaves each joint where it was sent before.
pub proof fn law_targets_are_taken_over(action: Action, answer: Answer, i: int)
    requires
        0 <= i < 12,
        action.joint_targets.len() == 12,
    ensures
        applied(action, answer).joint_targets.len() == 12,
        answer.joint_targets.len() == 12 ==> applied(action, answer).joint_targets[i]
            == answer.joint_targets[i],
        answer.joint_targets.len() != 12 ==> applied(action, answer).joint_targets[i]
            == action.joint_targets[i],
{
}

/// An answer's speed, turn and climbing are the robot's, whatever they were before; its texts are,
/// where it says any, and the earlier ones stay where it does not.
pub proof fn law_answer_is_taken_over(action: Action, answer: Answer)
    ensures
        ({
            let after = applied(action, answer);
            &&& after.forward == answer.forward
            &&& after.turn == answer.turn
            &&& after.climb_mode == answer.climb_mode
            &&& answer.active_leg.len() > 0 ==> after.active_leg == answer.active_leg
            &&& answer.active_leg.len() == 0 ==> after.active_leg == action.active_leg
            &&& answer.gait_phase.len() > 0 ==> after.gait_phase == answer.gait_phase
            &&& answer.gait_phase.len() == 0 ==> after.gait_phase == action.gait_phase
            &&& answer.controller.len() > 0 ==> after.controller == answer.controller
            &&& answer.controller.len() == 0 ==> after.controller == action.controller
        }),
{
}

/// Each joint is where the last answer with twelve targets sent it.
pub proof fn law_last_targets_hold(action: Action, answers: Seq<Answer>, k: int, i: int)
    requires
        0 <= i < 12,
        action.joint_targets.len() == 12,
        0 <= k < answers.len(),
        answers[k].joint_targets.len() == 12,
        forall|j: int| k < j < answers.len() ==> (#[trigger] answers[j]).joint_targets.len() != 12,
    ensures
        applied_all(action, answers).joint_targets[i] == answers[k].joint_targets[i],
    decreases answers.len(),
{
    crate::bridge::law_last_answer_commands(action, answers);
    let rest = answers.drop_last();
    if k < answers.len() - 1 {
        assert forall|j: int| k < j < rest.len() implies (#[trigger] rest[j]).joint_targets.len()
            != 12 by {
            assert(rest[j] == answers[j]);
        }
        assert(rest[k] == answers[k]);
        law_last_targets_hold(action, rest, k, i);
    }
}

/// Each answer that says what went wrong is reported, in a line that names the script and then says
/// what the answer says; the others are not, and the lines come in the order of the answers.
pub proof fn law_errors_are_reported(answers: Seq<Answer>)
    ensures
        answers.len() == 0 ==> reports(answers).len() == 0,
        answers.len() > 0 && answers.last().error is None ==> reports(answers) == reports(
            answers.drop_last(),
        ),
        answers.len() > 0 && answers.last().error is Some ==> reports(answers) == reports(
            answers.drop_last(),
        ).push("movement_policy.py: "@ + answers.last().error->0),
        answers.len() > 0 ==> answer_report(answers.last()) == match answers.last().error {
            Some(error) => Some("movement_policy.py: "@ + error),
            None => None,
        },
    decreases answers.len(),
{
    reveal_with_fuel(reports, 2);
    if answers.len() == 1 {
        assert(answers.drop_last() =~= Seq::empty());
        assert(answers.drop_first() =~= Seq::empty());
        assert(reports(answers.drop_last()) =~= Seq::empty());
        if answers.last().error is Some {
            assert(reports(answers) =~= Seq::<Seq<char>>::empty().push(
                "movement_policy.py: "@ + answers.last().error->0,
            ));
        }
    } else if answers.len() > 1 {
        let rest = answers.drop_first();
        law_errors_are_reported(rest);
        assert(rest.last() == answers.last());
        assert(answers.drop_last().drop_first() =~= rest.drop_last());
        assert(answers.drop_last()[0] == answers[0]);
        if answers.last().error is Some {
            assert(reports(answers) =~= reports(answers.drop_last()).push(
                "movement_policy.py: "@ + answers.last().error->0,
            ));
        } else {
            assert(reports(answers) =~= reports(answers.drop_last()));
        }
    }
}

/// An answer is read as it was sent, part by part.
pub proof fn law_answer_is_read_as_sent(packet: ActionPacket)
    ensures
        packet@.joint_targets == packet.action_joint_targets_rad@,
        packet@.forward == packet.forward_command,
        packet@.turn == packet.turn_command,
        packet@.active_leg == packet.active_leg@,
        packet@.gait_phase == packet.gait_phase@,
        packet@.climb_mode == packet.climb_mode,
        packet@.controller == packet.controller@,
        packet.error is None <==> packet@.error is None,
        packet.error matches Some(error) ==> packet@.error == Some(error@),
{
}

/// An observation is what is sent, part by part.
pub proof fn law_observation_is_what_is_sent(packet: ObservationPacket)
    ensures
        packet@.dt == packet.dt,
        packet@.episode_reset == packet.episode_reset,
        packet@.joint_angles == packet.joint_angles_rad@,
        packet@.joint_velocities == packet.joint_velocities_rad_s@,
        packet@.rotation == packet.chassis_quat_xyzw@,
        packet@.linear_velocity == packet.chassis_linear_velocity_m_s@,
        packet@.angular_velocity == packet.chassis_angular_velocity_rad_s@,
        packet@.foot_contacts == packet.foot_contacts@,
        packet@.mode == packet.control.mode@,
        packet@.forward == packet.control.forward,
        packet@.turn == packet.control.turn,
        packet@.goal_local == packet.navigation.goal_local@,
        packet@.obstacles == packet.navigation.obstacles@,
{
}

/// A line that is no answer is reported whole, after what is wrong with it: each of the two lines
/// of the report says what it is about and then repeats what came, letter for letter.
pub proof fn law_malformed_line_is_reported(error: Seq<char>, line: Seq<char>)
    ensures
        ({
            let (first, second) = malformed_report(error, line);
            let about = "Controller JSON error: "@;
            let output = "Python output: "@;
            &&& first.len() == about.len() + error.len()
            &&& first.take(about.len() as int) == about
            &&& first.skip(about.len() as int) == error
            &&& second.len() == output.len() + line.len()
            &&& second.take(output.len() as int) == output
            &&& second.skip(output.len() as int) == line
        }),
{
    let (first, second) = malformed_report(error, line);
    assert(first.take("Controller JSON error: "@.len() as int) =~= "Controller JSON error: "@);
    assert(first.skip("Controller JSON error: "@.len() as int) =~= error);
    assert(second.take("Python output: "@.len() as int) =~= "Python output: "@);
    assert(second.skip("Python output: "@.len() as int) =~= line);
}

/// Lists of answers and of texts are read item by item.
pub proof fn law_lists_are_read_item_by_item(
    packets: Seq<ActionPacket>,
    lines: Seq<String>,
    i: int,
)
    ensures
        answers(packets).len() == packets.len(),
        0 <= i < packets.len() ==> answers(packets)[i] == packets[i]@,
        texts(lines).len() == lines.len(),
        0 <= i < lines.len() ==> texts(lines)[i] == lines[i]@,
{
}

} // verus!
