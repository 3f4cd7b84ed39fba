//! The robot's pose and how it moves.
//!
//! The sine and the cosine of the heading, the exponentials that smooth the climb and the speed,
//! and the length of the body's diagonal are not computed here: they are evaluated at the
//! arguments that [`motion_arguments`] gives and handed to [`move_robot`], which is right for
//! whatever values come back.

use crate::accuracy::{largest, law_difference_of_equals, law_equal_values, law_largest};
use crate::accuracy::{law_product_is_close, law_product_is_monotonic};
use crate::accuracy::{law_product_with_part_is_finite, law_product_with_zero, law_ratio_is_close};
use crate::accuracy::{law_sum_follows_sign, law_sum_is_close, law_sum_is_finite};
use crate::accuracy::{law_sum_is_monotonic, law_sum_with_zero, lemma_rounded_units_keeps};
use crate::accuracy::{lemma_rounded_units_order, lemma_sum_units};
use crate::arithmetic::integral_root;
use crate::config::RobotConfig;
use crate::control::{Action, ActionState};
use crate::obstacle::PlacedObstacle;
use crate::order::{law_between_is_finite, law_clamp_is_within, law_commutes, law_lt_is_strict};
use crate::order::{law_lt_is_transitive, law_max_is_at_least, law_min_is_at_most, law_negation};
use crate::order::{law_negation_of_product, law_one, law_order_is_total, law_product_with_part};
use crate::order::{law_ratio_is_finite, law_ratio_order, law_zero};
use crate::rounding::{lemma_nearest_exists, magnitude, scale, significand, INF_CODE};
use crate::scalar::{lemma_magnitude_sign, Scalar};
use crate::vector::{ground_distance, Vec3};
use vstd::arithmetic::power2::pow2;
use vstd::prelude::*;

verus! {

/// Where the robot is and how it stands.
#[derive(Clone, Copy, Debug, PartialEq, Eq, Structural)]
pub struct RobotPose {
    /// The centre of the body.
    pub position: Vec3,
    /// The direction that it faces, in radians; 0 is along `z`, and it grows towards `x`.
    pub heading: Scalar,
    /// The height of the body on flat ground.
    pub base_height: Scalar,
    /// How much higher it stands because of what it climbs.
    pub climb_offset: Scalar,
    /// The position one frame ago.
    pub previous_position: Vec3,
    /// The smoothed speed over ground, in metres per second.
    pub measured_speed: Scalar,
}

/// The place where the robot starts, for a given height of the body.
pub open spec fn spec_start_position(base_height: Scalar) -> Vec3 {
    Vec3::new(Scalar::ratio(0, 1), base_height, Scalar::ratio(85, 100).negated())
}

/// The place where the robot starts, for a given height of the body.
#[verifier::when_used_as_spec(spec_start_position)]
fn start_position(base_height: Scalar) -> (r: Vec3)
    ensures
        r == start_position(base_height),
{
    Vec3::new(Scalar::ratio(0, 1), base_height, Scalar::ratio(85, 100).negated())
}

/// The pose of a robot that stands where it starts.
pub open spec fn starting_pose(base_height: Scalar) -> RobotPose {
    RobotPose {
        position: spec_start_position(base_height),
        heading: Scalar::ratio(0, 1),
        base_height,
        climb_offset: Scalar::ratio(0, 1),
        previous_position: spec_start_position(base_height),
        measured_speed: Scalar::ratio(0, 1),
    }
}

impl Default for RobotPose {
    fn default() -> (r: RobotPose)
        ensures
            r == starting_pose(Scalar::ratio(16, 100)),
    {
        let height = Scalar::ratio(16, 100);
        let p = start_position(height);
        RobotPose {
            position: p,
            heading: Scalar::ratio(0, 1),
            base_height: height,
            climb_offset: Scalar::ratio(0, 1),
            previous_position: p,
            measured_speed: Scalar::ratio(0, 1),
        }
    }
}

/// Puts the robot back where it starts.
pub fn reset_robot_pose(pose: &mut RobotPose)
    ensures
        *final(pose) == starting_pose(old(pose).base_height),
{
    pose.position = start_position(pose.base_height);
    pose.previous_position = pose.position;
    pose.heading = Scalar::ratio(0, 1);
    pose.climb_offset = Scalar::ratio(0, 1);
    pose.measured_speed = Scalar::ratio(0, 1);
}

/// The time that a frame moves the robot by: at most a twentieth of a second.
pub open spec fn spec_frame_time(delta: Scalar) -> Scalar {
    delta.min(Scalar::ratio(5, 100))
}

/// The time that a frame moves the robot by: at most a twentieth of a second.
#[verifier::when_used_as_spec(spec_frame_time)]
pub fn frame_time(delta: Scalar) -> (r: Scalar)
    ensures
        r == frame_time(delta),
{
    delta.min(Scalar::ratio(5, 100))
}

/// The heading after a turn command has acted for a time, at 0.62 radians per second.
pub open spec fn spec_turned_heading(heading: Scalar, turn: Scalar, dt: Scalar) -> Scalar {
    let one = Scalar::ratio(1, 1);
    heading.plus(turn.clamp(one.negated(), one).times(Scalar::ratio(62, 100)).times(dt))
}

/// The heading after a turn command has acted for a time, at 0.62 radians per second.
#[verifier::when_used_as_spec(spec_turned_heading)]
pub fn turned_heading(heading: Scalar, turn: Scalar, dt: Scalar) -> (r: Scalar)
    ensures
        r == turned_heading(heading, turn, dt),
{
    proof {
        law_ratio_order(1, 1, 1, 1);
    }
    let one = Scalar::ratio(1, 1);
    heading.plus(turn.clamp(one.negated(), one).times(Scalar::ratio(62, 100)).times(dt))
}

/// The speed that a command asks for: at most 8.5 cm/s ahead and 5 cm/s back.
pub open spec fn spec_commanded_speed(forward: Scalar) -> Scalar {
    let zero = Scalar::ratio(0, 1);
    let one = Scalar::ratio(1, 1);
    if zero.le(forward) {
        Scalar::ratio(85, 1000).times(forward.clamp(zero, one))
    } else {
        Scalar::ratio(50, 1000).times(forward.clamp(one.negated(), zero))
    }
}

/// The speed that a command asks for: at most 8.5 cm/s ahead and 5 cm/s back.
#[verifier::when_used_as_spec(spec_commanded_speed)]
pub fn commanded_speed(forward: Scalar) -> (r: Scalar)
    ensures
        r == commanded_speed(forward),
{
    proof {
        law_ratio_order(0, 1, 1, 1);
        law_ratio_order(1, 1, 0, 1);
    }
    let zero = Scalar::ratio(0, 1);
    let one = Scalar::ratio(1, 1);
    if zero.le(forward) {
        Scalar::ratio(85, 1000).times(forward.clamp(zero, one))
    } else {
        Scalar::ratio(50, 1000).times(forward.clamp(one.negated(), zero))
    }
}

/// The values of the transcendental functions that a move needs.
#[derive(Clone, Copy, Debug, PartialEq, Eq, Structural)]
pub struct MotionTerms {
    /// The sine of the new heading.
    pub sin_heading: Scalar,
    /// The cosine of the new heading.
    pub cos_heading: Scalar,
    /// The exponential of the climb exponent.
    pub climb_decay: Scalar,
    /// The exponential of the speed exponent.
    pub speed_decay: Scalar,
    /// The length of the diagonal of half the body.
    pub half_diagonal: Scalar,
}

/// The arguments at which the terms of a move are evaluated.
#[derive(Clone, Copy, Debug, PartialEq, Eq, Structural)]
pub struct MotionArguments {
    /// The new heading.
    pub heading: Scalar,
    /// The climb exponent.
    pub climb_exponent: Scalar,
    /// The speed exponent.
    pub speed_exponent: Scalar,
    /// Half the width of the body.
    pub half_width: Scalar,
    /// Half the length of the body.
    pub half_length: Scalar,
}

/// Where to evaluate the terms of a move.
pub open spec fn spec_motion_arguments(
    pose: RobotPose,
    config: RobotConfig,
    turn: Scalar,
    delta: Scalar,
) -> MotionArguments {
    let dt = spec_frame_time(delta);
    MotionArguments {
        heading: spec_turned_heading(pose.heading, turn, dt),
        climb_exponent: dt.negated().times(Scalar::ratio(6, 1)),
        speed_exponent: dt.negated().times(Scalar::ratio(5, 1)),
        half_width: config.chassis.width_m.times(Scalar::ratio(5, 10)),
        half_length: config.chassis.length_m.times(Scalar::ratio(5, 10)),
    }
}

/// Where to evaluate the terms of a move.
pub fn motion_arguments(
    pose: &RobotPose,
    config: &RobotConfig,
    action: &ActionState,
    delta: Scalar,
) -> (r: MotionArguments)
    ensures
        r.heading == turned_heading(pose.heading, action.turn, frame_time(delta)),
        r.climb_exponent == frame_time(delta).negated().times(Scalar::ratio(6, 1)),
        r.speed_exponent == frame_time(delta).negated().times(Scalar::ratio(5, 1)),
        r.half_width == config.chassis.width_m.times(Scalar::ratio(5, 10)),
        r.half_length == config.chassis.length_m.times(Scalar::ratio(5, 10)),
        r == spec_motion_arguments(*pose, *config, action.turn, delta),
{
    let dt = frame_time(delta);
    let half = Scalar::ratio(5, 10);
    MotionArguments {
        heading: turned_heading(pose.heading, action.turn, dt),
        climb_exponent: dt.negated().times(Scalar::ratio(6, 1)),
        speed_exponent: dt.negated().times(Scalar::ratio(5, 1)),
        half_width: config.chassis.width_m.times(half),
        half_length: config.chassis.length_m.times(half),
    }
}

/// The radius of the circle that the body keeps clear of obstacles.
pub open spec fn body_radius(terms: MotionTerms) -> Scalar {
    terms.half_diagonal.plus(Scalar::ratio(2, 100))
}

/// The place that the robot would step to if nothing were in its way.
pub open spec fn proposed_position(
    pose: RobotPose,
    forward: Scalar,
    dt: Scalar,
    terms: MotionTerms,
) -> Vec3 {
    let direction = Vec3::new(terms.sin_heading, Scalar::ratio(0, 1), terms.cos_heading);
    pose.position.plus(direction.times(commanded_speed(forward)).times(dt))
}

/// Whether the robot may walk onto an obstacle.
pub open spec fn can_climb(config: RobotConfig, placed: PlacedObstacle) -> bool {
    placed.obstacle.climbable && placed.obstacle.height.le(config.gait.max_climb_height_m)
}

/// Whether an obstacle keeps the robot from a place.
pub open spec fn blocks(
    config: RobotConfig,
    reach: Scalar,
    place: Vec3,
    placed: PlacedObstacle,
) -> bool {
    !can_climb(config, placed) && ground_distance(place, placed.position).lt(
        reach.plus(placed.obstacle.radius),
    )
}

/// Whether an obstacle lifts the robot at a place.
pub open spec fn lifts(
    config: RobotConfig,
    reach: Scalar,
    place: Vec3,
    placed: PlacedObstacle,
) -> bool {
    can_climb(config, placed) && ground_distance(place, placed.position).lt(
        reach.plus(placed.obstacle.radius).plus(Scalar::ratio(8, 100)),
    )
}

/// Whether any obstacle keeps the robot from a place.
pub open spec fn is_blocked(
    config: RobotConfig,
    reach: Scalar,
    place: Vec3,
    obstacles: Seq<PlacedObstacle>,
) -> bool {
    exists|i: int| 0 <= i < obstacles.len() && blocks(config, reach, place, #[trigger] obstacles[i])
}

/// The height of the highest obstacle that lifts the robot at a place.
pub open spec fn lift_height(
    config: RobotConfig,
    reach: Scalar,
    place: Vec3,
    obstacles: Seq<PlacedObstacle>,
) -> Scalar
    decreases obstacles.len(),
{
    if obstacles.len() == 0 {
        Scalar::ratio(0, 1)
    } else {
        let rest = lift_height(config, reach, place, obstacles.drop_last());
        let last = obstacles.last();
        if lifts(config, reach, place, last) {
            rest.max(last.obstacle.height)
        } else {
            rest
        }
    }
}

/// A value that has moved towards a target, by the part that an exponential leaves.
pub open spec fn spec_smoothed(value: Scalar, target: Scalar, decay: Scalar) -> Scalar {
    value.plus(target.minus(value).times(Scalar::ratio(1, 1).minus(decay)))
}

/// A value that has moved towards a target, by the part that an exponential leaves.
#[verifier::when_used_as_spec(spec_smoothed)]
fn smoothed(value: Scalar, target: Scalar, decay: Scalar) -> (r: Scalar)
    ensures
        r == smoothed(value, target, decay),
{
    value.plus(target.minus(value).times(Scalar::ratio(1, 1).minus(decay)))
}

/// The pose after a frame.
pub open spec fn moved_pose(
    pose: RobotPose,
    config: RobotConfig,
    action: Action,
    obstacles: Seq<PlacedObstacle>,
    delta: Scalar,
    terms: MotionTerms,
) -> RobotPose {
    let dt = frame_time(delta);
    let reach = body_radius(terms);
    let place = proposed_position(pose, action.forward, dt, terms);
    let target = if action.climb_mode {
        lift_height(config, reach, place, obstacles).times(Scalar::ratio(70, 100))
    } else {
        Scalar::ratio(0, 1)
    };
    let climb_offset = spec_smoothed(pose.climb_offset, target, terms.climb_decay);
    let ground = if is_blocked(config, reach, place, obstacles) {
        pose.position
    } else {
        place
    };
    let position = Vec3::new(ground.x, pose.base_height.plus(climb_offset), ground.z);
    let speed = ground_distance(position, pose.previous_position).over(
        dt.max(Scalar::ratio(1, 1000)),
    );
    RobotPose {
        position,
        heading: turned_heading(pose.heading, action.turn, dt),
        base_height: pose.base_height,
        climb_offset,
        previous_position: position,
        measured_speed: spec_smoothed(pose.measured_speed, speed, terms.speed_decay),
    }
}

/// Looks through the obstacles for those that block a place and those that lift the robot there.
fn survey(
    config: &RobotConfig,
    reach: Scalar,
    place: Vec3,
    obstacles: &Vec<PlacedObstacle>,
) -> (r: (bool, Scalar))
    ensures
        r.0 == is_blocked(*config, reach, place, obstacles@),
        r.1 == lift_height(*config, reach, place, obstacles@),
{
    let mut blocked = false;
    let mut climb_height = Scalar::ratio(0, 1);
    let mut i: usize = 0;
    while i < obstacles.len()
        invariant
            i <= obstacles.len(),
            blocked == is_blocked(*config, reach, place, obstacles@.take(i as int)),
            climb_height == lift_height(*config, reach, place, obstacles@.take(i as int)),
        decreases obstacles.len() - i,
    {
        let placed = obstacles[i];
        let ghost before = obstacles@.take(i as int);
        let ghost after = obstacles@.take(i + 1);
        proof {
            assert(after.drop_last() =~= before);
            assert(after.last() == placed);
            assert(forall|j: int| 0 <= j < i ==> after[j] == before[j]);
            assert(after[i as int] == placed);
        }
        let d = ground_distance(place, placed.position);
        let clear = reach.plus(placed.obstacle.radius);
        if placed.obstacle.climbable && placed.obstacle.height.le(config.gait.max_climb_height_m) {
            if d.lt(clear.plus(Scalar::ratio(8, 100))) {
                climb_height = climb_height.max(placed.obstacle.height);
            }
        } else if d.lt(clear) {
            blocked = true;
        }
        i = i + 1;
    }
    assert(obstacles@.take(i as int) =~= obstacles@);
    (blocked, climb_height)
}

/// Moves the robot by one frame.
pub fn move_robot(
    pose: &mut RobotPose,
    config: &RobotConfig,
    action: &ActionState,
    obstacles: &Vec<PlacedObstacle>,
    delta: Scalar,
    terms: MotionTerms,
)
    ensures
        *final(pose) == moved_pose(*old(pose), *config, action@, obstacles@, delta, terms),
{
    let dt = frame_time(delta);
    let direction = Vec3::new(terms.sin_heading, Scalar::ratio(0, 1), terms.cos_heading);
    let proposed = pose.position.plus(direction.times(commanded_speed(action.forward)).times(dt));
    let reach = terms.half_diagonal.plus(Scalar::ratio(2, 100));
    let (blocked, climb_height) = survey(config, reach, proposed, obstacles);

    pose.heading = turned_heading(pose.heading, action.turn, dt);
    if !blocked {
        pose.position.x = proposed.x;
        pose.position.z = proposed.z;
    }
    let target_climb = if action.climb_mode {
        climb_height.times(Scalar::ratio(70, 100))
    } else {
        Scalar::ratio(0, 1)
    };
    pose.climb_offset = smoothed(pose.climb_offset, target_climb, terms.climb_decay);
    pose.position.y = pose.base_height.plus(pose.climb_offset);
    let moved = ground_distance(pose.position, pose.previous_position);
    let instantaneous = moved.over(dt.max(Scalar::ratio(1, 1000)));
    pose.measured_speed = smoothed(pose.measured_speed, instantaneous, terms.speed_decay);
    pose.previous_position = pose.position;
}

/// A frame moves the robot for at most a twentieth of a second.
pub proof fn law_frame_time_is_bounded(delta: Scalar)
    ensures
        frame_time(delta).le(Scalar::ratio(5, 100)),
        delta.le(Scalar::ratio(5, 100)) ==> frame_time(delta) == delta,
{
    law_ratio_order(5, 100, 5, 100);
    law_min_is_at_most(delta, Scalar::ratio(5, 100));
    law_order_is_total(Scalar::ratio(5, 100), delta);
    law_order_is_total(delta, Scalar::ratio(5, 100));
}

/// Whatever is commanded, the robot walks ahead with at most 8.5 cm/s and back with at most
/// 5 cm/s, and in the direction that is commanded.
pub proof fn law_speed_is_bounded(forward: Scalar)
    requires
        !forward.is_nan(),
    ensures
        Scalar::ratio(50, 1000).negated().le(commanded_speed(forward)),
        commanded_speed(forward).le(Scalar::ratio(85, 1000)),
        Scalar::ratio(0, 1).le(forward) ==> Scalar::ratio(0, 1).le(commanded_speed(forward)),
        forward.lt(Scalar::ratio(0, 1)) ==> commanded_speed(forward).le(Scalar::ratio(0, 1)),
{
    let zero = Scalar::ratio(0, 1);
    let one = Scalar::ratio(1, 1);
    law_order_is_total(forward, zero);
    law_order_is_total(zero, forward);
    law_ratio_order(0, 1, 1, 1);
    law_ratio_order(1, 1, 0, 1);
    law_ratio_order(1, 1, 1, 1);
    law_ratio_order(50, 1000, 0, 1);
    law_ratio_order(0, 1, 85, 1000);
    law_ratio_is_finite(85, 1000);
    law_ratio_is_finite(50, 1000);
    if zero.le(forward) {
        let part = forward.clamp(zero, one);
        law_clamp_is_within(forward, zero, one);
        law_lt_is_transitive(one.negated(), zero, part);
        law_product_with_part(Scalar::ratio(85, 1000), part);
        law_lt_is_transitive(
            Scalar::ratio(50, 1000).negated(),
            zero,
            Scalar::ratio(85, 1000).times(part),
        );
    } else {
        let part = forward.clamp(one.negated(), zero);
        law_clamp_is_within(forward, one.negated(), zero);
        law_lt_is_transitive(part, zero, one);
        law_product_with_part(Scalar::ratio(50, 1000), part);
        law_lt_is_transitive(
            Scalar::ratio(50, 1000).times(part),
            zero,
            Scalar::ratio(85, 1000),
        );
    }
}

/// The rate of turning that a command asks for, in radians per second.
pub open spec fn turn_rate(turn: Scalar) -> Scalar {
    let one = Scalar::ratio(1, 1);
    turn.clamp(one.negated(), one).times(Scalar::ratio(62, 100))
}

/// Whatever is commanded, the robot turns with at most 0.62 radians per second.
pub proof fn law_turn_is_bounded(heading: Scalar, turn: Scalar, dt: Scalar)
    requires
        !turn.is_nan(),
    ensures
        turned_heading(heading, turn, dt) == heading.plus(turn_rate(turn).times(dt)),
        Scalar::ratio(62, 100).negated().le(turn_rate(turn)),
        turn_rate(turn).le(Scalar::ratio(62, 100)),
        turn.lt(Scalar::ratio(0, 1)) ==> turn_rate(turn).le(Scalar::ratio(0, 1)),
        Scalar::ratio(0, 1).lt(turn) ==> Scalar::ratio(0, 1).le(turn_rate(turn)),
{
    let zero = Scalar::ratio(0, 1);
    let one = Scalar::ratio(1, 1);
    let part = turn.clamp(one.negated(), one);
    law_ratio_order(1, 1, 1, 1);
    law_ratio_order(1, 1, 0, 1);
    law_ratio_order(0, 1, 1, 1);
    law_ratio_is_finite(62, 100);
    law_clamp_is_within(turn, one.negated(), one);
    law_product_with_part(Scalar::ratio(62, 100), part);
    law_commutes(part, Scalar::ratio(62, 100));
    law_order_is_total(turn, zero);
    law_order_is_total(zero, turn);
    law_lt_is_transitive(turn, zero, one);
    law_lt_is_strict(turn, one);
    law_lt_is_transitive(one.negated(), zero, turn);
    law_lt_is_strict(one.negated(), turn);
}

/// A frame leaves the robot on the ground point where it was, or takes it to one from which every
/// obstacle that it cannot climb is at least the body's radius away.
pub proof fn law_robot_stays_clear(
    pose: RobotPose,
    config: RobotConfig,
    action: Action,
    obstacles: Seq<PlacedObstacle>,
    delta: Scalar,
    terms: MotionTerms,
)
    ensures
        ({
            let after = moved_pose(pose, config, action, obstacles, delta, terms);
            ||| after.position.x == pose.position.x && after.position.z == pose.position.z
            ||| forall|i: int|
                0 <= i < obstacles.len() && !can_climb(config, #[trigger] obstacles[i])
                    ==> !ground_distance(after.position, obstacles[i].position).lt(
                    body_radius(terms).plus(obstacles[i].obstacle.radius),
                )
        }),
{
    let place = proposed_position(pose, action.forward, frame_time(delta), terms);
    let reach = body_radius(terms);
    if !is_blocked(config, reach, place, obstacles) {
        let after = moved_pose(pose, config, action, obstacles, delta, terms);
        assert forall|i: int|
            0 <= i < obstacles.len() && !can_climb(config, #[trigger] obstacles[i]) implies !(
        ground_distance(after.position, obstacles[i].position).lt(
            reach.plus(obstacles[i].obstacle.radius),
        )) by {
            assert(!blocks(config, reach, place, obstacles[i]));
        }
    }
}

/// After a frame, the body is as high as the ground and the climb make it, the place of the
/// previous frame is the present one, and the height on flat ground is what it was.
pub proof fn law_pose_is_consistent(
    pose: RobotPose,
    config: RobotConfig,
    action: Action,
    obstacles: Seq<PlacedObstacle>,
    delta: Scalar,
    terms: MotionTerms,
)
    ensures
        ({
            let after = moved_pose(pose, config, action, obstacles, delta, terms);
            &&& after.position.y == after.base_height.plus(after.climb_offset)
            &&& after.previous_position == after.position
            &&& after.base_height == pose.base_height
        }),
{
}

/// The robot is lifted by the highest obstacle that it stands on, and by none if there is none.
pub proof fn law_lift_is_highest(
    config: RobotConfig,
    reach: Scalar,
    place: Vec3,
    obstacles: Seq<PlacedObstacle>,
)
    ensures
        ({
            let height = lift_height(config, reach, place, obstacles);
            &&& Scalar::ratio(0, 1).le(height)
            &&& forall|i: int|
                0 <= i < obstacles.len() && lifts(config, reach, place, #[trigger] obstacles[i])
                    ==> obstacles[i].obstacle.height.le(height)
            &&& height == Scalar::ratio(0, 1) || exists|i: int|
                0 <= i < obstacles.len() && lifts(config, reach, place, #[trigger] obstacles[i])
                    && obstacles[i].obstacle.height == height
        }),
    decreases obstacles.len(),
{
    law_ratio_order(0, 1, 0, 1);
    if obstacles.len() > 0 {
        let before = obstacles.drop_last();
        let last = obstacles.last();
        law_lift_is_highest(config, reach, place, before);
        let low = lift_height(config, reach, place, before);
        let height = lift_height(config, reach, place, obstacles);
        law_order_is_total(Scalar::ratio(0, 1), low);
        law_order_is_total(last.obstacle.height, config.gait.max_climb_height_m);
        law_order_is_total(low, last.obstacle.height);
        law_order_is_total(last.obstacle.height, low);
        law_order_is_total(last.obstacle.height, last.obstacle.height);
        law_lt_is_strict(last.obstacle.height, last.obstacle.height);
        law_lt_is_strict(low, low);
        law_order_is_total(low, low);
        assert(lifts(config, reach, place, last) ==> low.le(height) && last.obstacle.height.le(
            height,
        ));
        law_lt_is_transitive(Scalar::ratio(0, 1), low, height);
        assert forall|i: int|
            0 <= i < obstacles.len() && lifts(config, reach, place, #[trigger] obstacles[i]) implies
            obstacles[i].obstacle.height.le(height) by {
            if i < before.len() {
                assert(before[i] == obstacles[i]);
                law_lt_is_transitive(obstacles[i].obstacle.height, low, height);
            }
        }
        if height != Scalar::ratio(0, 1) {
            if lifts(config, reach, place, last) && height == last.obstacle.height {
                assert(obstacles[obstacles.len() - 1] == last);
            } else {
                let i = choose|i: int|
                    0 <= i < before.len() && lifts(config, reach, place, #[trigger] before[i])
                        && before[i].obstacle.height == height;
                assert(obstacles[i] == before[i]);
            }
        }
    }
}

/// However the robot has walked, putting it back is putting it back to where it started from.
pub proof fn law_reset_forgets_the_walk(
    pose: RobotPose,
    config: RobotConfig,
    action: Action,
    obstacles: Seq<PlacedObstacle>,
    delta: Scalar,
    terms: MotionTerms,
)
    ensures
        starting_pose(moved_pose(pose, config, action, obstacles, delta, terms).base_height)
            == starting_pose(pose.base_height),
        starting_pose(starting_pose(pose.base_height).base_height) == starting_pose(
            pose.base_height,
        ),
{
}

/// Long frames move the robot alike: every frame of at least a twentieth of a second counts as one
/// of a twentieth.
pub proof fn law_long_frames_move_alike(
    pose: RobotPose,
    config: RobotConfig,
    action: Action,
    obstacles: Seq<PlacedObstacle>,
    delta: Scalar,
    terms: MotionTerms,
)
    requires
        !delta.lt(Scalar::ratio(5, 100)),
    ensures
        frame_time(delta) == Scalar::ratio(5, 100),
        moved_pose(pose, config, action, obstacles, delta, terms) == moved_pose(
            pose,
            config,
            action,
            obstacles,
            Scalar::ratio(5, 100),
            terms,
        ),
{
    let most = Scalar::ratio(5, 100);
    law_ratio_order(5, 100, 5, 100);
    law_ratio_is_finite(5, 100);
    law_lt_is_strict(most, most);
    if !delta.is_nan() && !most.lt(delta) {
        reveal(Scalar::spec_lt);
        law_equal_values(most, delta);
    }
}

/// A frame of no time, for which both exponentials are one, leaves the robot where it is and as it
/// stands.
pub proof fn law_frame_of_no_time_changes_nothing(
    pose: RobotPose,
    config: RobotConfig,
    action: Action,
    obstacles: Seq<PlacedObstacle>,
    delta: Scalar,
    terms: MotionTerms,
)
    requires
        delta.code() == 0,
        terms.climb_decay == Scalar::ratio(1, 1),
        terms.speed_decay == Scalar::ratio(1, 1),
        Scalar::ratio(1, 1).negated().le(terms.sin_heading),
        terms.sin_heading.le(Scalar::ratio(1, 1)),
        Scalar::ratio(1, 1).negated().le(terms.cos_heading),
        terms.cos_heading.le(Scalar::ratio(1, 1)),
        !action.forward.is_nan(),
        !action.turn.is_nan(),
        !pose.heading.is_nan(),
        !pose.position.x.is_nan(),
        !pose.position.z.is_nan(),
        !pose.climb_offset.is_nan(),
        !pose.measured_speed.is_nan(),
        climb_target(pose, config, action, obstacles, delta, terms).minus(
            pose.climb_offset,
        ).is_finite(),
        speed_target(pose, config, action, obstacles, delta, terms).minus(
            pose.measured_speed,
        ).is_finite(),
    ensures
        ({
            let after = moved_pose(pose, config, action, obstacles, delta, terms);
            &&& after.position.x.units() == pose.position.x.units()
            &&& after.position.z.units() == pose.position.z.units()
            &&& after.heading.units() == pose.heading.units()
            &&& after.climb_offset.units() == pose.climb_offset.units()
            &&& after.measured_speed.units() == pose.measured_speed.units()
            &&& after.base_height == pose.base_height
        }),
{
    let zero = Scalar::ratio(0, 1);
    let one = Scalar::ratio(1, 1);
    law_ratio_is_finite(5, 100);
    law_ratio_order(5, 100, 5, 100);
    law_one();
    law_zero();
    let dt = frame_time(delta);
    assert(dt == delta) by {
        reveal(Scalar::spec_lt);
        lemma_magnitude_sign(0);
        lemma_magnitude_sign(Scalar::ratio(5, 100).code() as int);
    }
    law_turn_is_bounded(pose.heading, action.turn, dt);
    law_ratio_is_finite(62, 100);
    law_negation(Scalar::ratio(62, 100), Scalar::ratio(62, 100));
    law_between_is_finite(
        Scalar::ratio(62, 100).negated(),
        turn_rate(action.turn),
        Scalar::ratio(62, 100),
    );
    law_product_with_zero(turn_rate(action.turn), dt);
    law_sum_with_zero(pose.heading, turn_rate(action.turn).times(dt));

    let speed = commanded_speed(action.forward);
    law_speed_is_bounded(action.forward);
    law_ratio_is_finite(50, 1000);
    law_ratio_is_finite(85, 1000);
    law_negation(Scalar::ratio(50, 1000), Scalar::ratio(50, 1000));
    law_between_is_finite(Scalar::ratio(50, 1000).negated(), speed, Scalar::ratio(85, 1000));
    law_product_with_part_is_finite(speed, terms.sin_heading);
    law_product_with_part_is_finite(speed, terms.cos_heading);
    law_commutes(speed, terms.sin_heading);
    law_commutes(speed, terms.cos_heading);
    law_product_with_zero(terms.sin_heading.times(speed), dt);
    law_product_with_zero(terms.cos_heading.times(speed), dt);
    law_sum_with_zero(pose.position.x, terms.sin_heading.times(speed).times(dt));
    law_sum_with_zero(pose.position.z, terms.cos_heading.times(speed).times(dt));

    let climb = climb_target(pose, config, action, obstacles, delta, terms);
    let pace = speed_target(pose, config, action, obstacles, delta, terms);
    law_difference_of_equals(one);
    law_product_with_zero(climb.minus(pose.climb_offset), one.minus(one));
    law_sum_with_zero(
        pose.climb_offset,
        climb.minus(pose.climb_offset).times(one.minus(one)),
    );
    law_product_with_zero(pace.minus(pose.measured_speed), one.minus(one));
    law_sum_with_zero(
        pose.measured_speed,
        pace.minus(pose.measured_speed).times(one.minus(one)),
    );
}

/// The height that a frame lifts the robot towards.
pub open spec fn climb_target(
    pose: RobotPose,
    config: RobotConfig,
    action: Action,
    obstacles: Seq<PlacedObstacle>,
    delta: Scalar,
    terms: MotionTerms,
) -> Scalar {
    if action.climb_mode {
        lift_height(
            config,
            body_radius(terms),
            proposed_position(pose, action.forward, frame_time(delta), terms),
            obstacles,
        ).times(Scalar::ratio(70, 100))
    } else {
        Scalar::ratio(0, 1)
    }
}

/// The speed that the robot has over a frame.
pub open spec fn speed_target(
    pose: RobotPose,
    config: RobotConfig,
    action: Action,
    obstacles: Seq<PlacedObstacle>,
    delta: Scalar,
    terms: MotionTerms,
) -> Scalar {
    let after = moved_pose(pose, config, action, obstacles, delta, terms);
    ground_distance(after.position, pose.previous_position).over(
        frame_time(delta).max(Scalar::ratio(1, 1000)),
    )
}

/// Smoothing goes towards the target and no further down than zero: for a decay between 0 and 1, a
/// value and a target that are not negative, it never makes the value negative, never lifts it away
/// from a lower target, and never lowers it away from a higher one.
pub proof fn law_smoothing_goes_towards_target(value: Scalar, target: Scalar, decay: Scalar)
    requires
        value.is_finite(),
        target.is_finite(),
        Scalar::ratio(0, 1).le(value),
        Scalar::ratio(0, 1).le(target),
        Scalar::ratio(0, 1).le(decay),
        decay.le(Scalar::ratio(1, 1)),
    ensures
        Scalar::ratio(0, 1).le(spec_smoothed(value, target, decay)),
        target.le(value) ==> spec_smoothed(value, target, decay).le(value),
        value.le(target) ==> value.le(spec_smoothed(value, target, decay)),
        value.le(target) ==> spec_smoothed(value, target, decay).le(
            value.plus(target.minus(value)),
        ),
{
    let zero = Scalar::ratio(0, 1);
    let one = Scalar::ratio(1, 1);
    let part = one.minus(decay);
    let gap = target.minus(value);
    let step = gap.times(part);
    law_zero();
    law_one();
    law_ratio_is_finite(0, 1);
    law_ratio_order(0, 1, 1, 1);
    law_ratio_order(1, 1, 0, 1);
    law_between_is_finite(zero, decay, one);
    law_negation(decay, decay);
    law_negation(value, value);
    reveal(Scalar::spec_le);
    // The part lies between 0 and 1.
    lemma_sum_units(one, decay.negated());
    lemma_rounded_units_keeps(one);
    lemma_rounded_units_keeps(zero);
    lemma_rounded_units_order(0, one.units() - decay.units());
    lemma_rounded_units_order(one.units() - decay.units(), one.units());
    law_between_is_finite(zero, part, one);
    // The gap lies between the opposite of the value and the target.
    lemma_sum_units(target, value.negated());
    lemma_rounded_units_keeps(target);
    lemma_rounded_units_keeps(value);
    lemma_rounded_units_order(-value.units(), target.units() - value.units());
    lemma_rounded_units_order(target.units() - value.units(), target.units());
    law_between_is_finite(value.negated(), gap, target);
    law_product_with_part_is_finite(gap, part);
    lemma_magnitude_sign(gap.code() as int);
    lemma_magnitude_sign(0);
    if target.units() >= value.units() {
        lemma_rounded_units_order(0, target.units() - value.units());
        assert(0 <= step.units() <= gap.units()) by {
            if gap.code() == 0 {
                law_product_with_zero(part, gap);
            } else {
                law_product_with_part(gap, part);
            }
        }
    }
    if target.units() <= value.units() {
        lemma_rounded_units_order(target.units() - value.units(), 0);
        assert(gap.units() <= step.units() <= 0) by {
            if gap.code() == 0 {
                law_product_with_zero(part, gap);
            } else {
                law_product_with_part(gap.negated(), part);
                law_negation(gap, gap);
                law_negation_of_product(gap.negated(), part);
                law_negation(gap.negated().times(part), zero);
            }
        }
    }
    law_sum_follows_sign(value, step);
    lemma_sum_units(value, step);
    lemma_rounded_units_order(0, value.units() + step.units());
    lemma_sum_units(value, gap);
    if target.units() >= value.units() {
        lemma_rounded_units_order(
            value.units() + step.units(),
            value.units() + gap.units(),
        );
    }
}

/// Smoothing overshoots a target by rounding at most: the result is finite, and if it was lifted, at
/// most two parts in `2^24` above the target.
pub proof fn law_smoothing_stops_at_target(value: Scalar, target: Scalar, decay: Scalar)
    requires
        value.is_finite(),
        target.is_finite(),
        Scalar::ratio(0, 1).le(value),
        Scalar::ratio(0, 1).le(target),
        Scalar::ratio(0, 1).le(decay),
        decay.le(Scalar::ratio(1, 1)),
        5 * target.units() <= 4 * largest(),
    ensures
        spec_smoothed(value, target, decay).is_finite(),
        value.le(target) ==> 0xff_ffff * spec_smoothed(value, target, decay).units()
            <= 0x100_0001 * target.units(),
{
    let zero = Scalar::ratio(0, 1);
    let gap = target.minus(value);
    let after = spec_smoothed(value, target, decay);
    law_smoothing_goes_towards_target(value, target, decay);
    law_zero();
    law_ratio_is_finite(0, 1);
    law_negation(value, value);
    law_largest(value);
    law_largest(target);
    law_order_is_total(value, target);
    law_order_is_total(target, value);
    reveal(Scalar::spec_le);
    law_sum_is_finite(target, value.negated());
    if value.le(target) {
        law_sum_is_close(target, value.negated());
        lemma_sum_units(target, value.negated());
        lemma_rounded_units_keeps(target);
        lemma_rounded_units_keeps(zero);
        lemma_rounded_units_order(0, target.units() - value.units());
        lemma_rounded_units_order(target.units() - value.units(), target.units());
        law_sum_is_finite(value, gap);
        law_sum_is_close(value, gap);
        law_between_is_finite(zero, after, value.plus(gap));
    } else {
        law_between_is_finite(zero, after, value);
    }
}

/// Whether the robot stands no lower than on flat ground, and no higher than seven tenths of the
/// climb limit above it, up to two parts in `2^24`.
pub open spec fn climb_in_bounds(offset: Scalar, limit: Scalar) -> bool {
    &&& offset.is_finite()
    &&& Scalar::ratio(0, 1).le(offset)
    &&& 0xff_ffff * offset.units() <= 0x100_0001 * limit.times(Scalar::ratio(70, 100)).units()
}

/// Seven tenths of a finite limit are finite, with room to spare.
proof fn lemma_climb_limit(limit: Scalar)
    requires
        limit.is_finite(),
        Scalar::ratio(0, 1).le(limit),
    ensures
        limit.times(Scalar::ratio(70, 100)).is_finite(),
        Scalar::ratio(0, 1).le(limit.times(Scalar::ratio(70, 100))),
        5 * limit.times(Scalar::ratio(70, 100)).units() <= 4 * largest(),
{
    let part = Scalar::ratio(70, 100);
    let height = limit.times(part);
    let u = pow2(149) as int;
    law_ratio_is_finite(70, 100);
    law_ratio_order(70, 100, 1, 1);
    law_ratio_order(1, 1, 70, 100);
    law_ratio_order(0, 1, 70, 100);
    law_product_with_part_is_finite(limit, part);
    law_ratio_order(70, 100, 70, 100);
    law_product_is_monotonic(limit, part, part);
    law_product_is_close(limit, part);
    law_ratio_is_close(70, 100);
    law_largest(limit);
    law_zero();
    reveal(Scalar::spec_le);
    vstd::arithmetic::power2::lemma2_to64();
    vstd::arithmetic::power2::lemma_pow2_strictly_increases(32, 149);
    assert(4 * part.units() <= 3 * u);
    let l = limit.units();
    let h = height.units();
    let product = l * part.units();
    assert(4 * product <= 3 * (l * u)) by (nonlinear_arith)
        requires
            product == l * part.units(),
            4 * part.units() <= 3 * u,
            l >= 0,
    ;
    assert(0x3ff_fffc * (h * u) <= 0x300_0000 * (l * u) + 0x200_0000 * u);
    assert(0x3ff_fffc * h <= 0x300_0000 * l + 0x200_0000) by (nonlinear_arith)
        requires
            0x3ff_fffc * (h * u) <= 0x300_0000 * (l * u) + 0x200_0000 * u,
            u > 0,
    ;
    assert(largest() >= 0x1_0000_0000) by {
        let top = INF_CODE - 1;
        assert(scale(top) == 253 && significand(top) == 0xff_ffff);
        vstd::arithmetic::power2::lemma_pow2_strictly_increases(32, 253);
        assert(0xff_ffff * pow2(253) >= pow2(253)) by (nonlinear_arith);
    }
}

/// A robot that stands where it starts is within its climb bounds.
pub proof fn law_climb_starts_in_bounds(base_height: Scalar, limit: Scalar)
    requires
        limit.is_finite(),
        Scalar::ratio(0, 1).le(limit),
    ensures
        climb_in_bounds(starting_pose(base_height).climb_offset, limit),
{
    law_zero();
    law_ratio_is_finite(0, 1);
    law_ratio_order(0, 1, 0, 1);
    lemma_climb_limit(limit);
    reveal(Scalar::spec_le);
}

/// Every frame keeps the robot within its climb bounds, whatever is commanded and whatever it stands
/// on, and so never below its height on flat ground.
pub proof fn law_climb_stays_in_bounds(
    pose: RobotPose,
    config: RobotConfig,
    action: Action,
    obstacles: Seq<PlacedObstacle>,
    delta: Scalar,
    terms: MotionTerms,
)
    requires
        config.gait.max_climb_height_m.is_finite(),
        Scalar::ratio(0, 1).le(config.gait.max_climb_height_m),
        climb_in_bounds(pose.climb_offset, config.gait.max_climb_height_m),
        Scalar::ratio(0, 1).le(terms.climb_decay),
        terms.climb_decay.le(Scalar::ratio(1, 1)),
    ensures
        ({
            let after = moved_pose(pose, config, action, obstacles, delta, terms);
            let limit = config.gait.max_climb_height_m;
            &&& climb_in_bounds(after.climb_offset, limit)
            &&& pose.base_height.is_finite() ==> pose.base_height.le(after.position.y)
            &&& pose.base_height.is_finite() ==> forall|bound: Scalar|
                bound.is_finite() && after.climb_offset.le(bound) ==> #[trigger] after.position.y.le(
                    pose.base_height.plus(bound),
                )
        }),
{
    let zero = Scalar::ratio(0, 1);
    let part = Scalar::ratio(70, 100);
    let limit = config.gait.max_climb_height_m;
    let after = moved_pose(pose, config, action, obstacles, delta, terms);
    let target = climb_target(pose, config, action, obstacles, delta, terms);
    let place = proposed_position(pose, action.forward, frame_time(delta), terms);
    let height = lift_height(config, body_radius(terms), place, obstacles);
    law_zero();
    law_ratio_is_finite(0, 1);
    law_ratio_is_finite(70, 100);
    law_ratio_order(0, 1, 0, 1);
    law_ratio_order(0, 1, 70, 100);
    lemma_climb_limit(limit);
    law_lift_is_highest(config, body_radius(terms), place, obstacles);
    assert(height.le(limit));
    law_between_is_finite(zero, height, limit);
    law_product_is_monotonic(part, height, limit);
    law_commutes(part, height);
    law_commutes(part, limit);
    law_between_is_finite(zero, height.times(part), limit.times(part));
    assert(zero.le(target) && target.le(limit.times(part)) && target.is_finite());
    assert(5 * target.units() <= 4 * largest()) by {
        reveal(Scalar::spec_le);
    }
    law_smoothing_goes_towards_target(pose.climb_offset, target, terms.climb_decay);
    law_smoothing_stops_at_target(pose.climb_offset, target, terms.climb_decay);
    assert(after.climb_offset == spec_smoothed(pose.climb_offset, target, terms.climb_decay));
    assert(climb_in_bounds(after.climb_offset, limit)) by {
        reveal(Scalar::spec_le);
    }
    if pose.base_height.is_finite() {
        law_sum_follows_sign(pose.base_height, after.climb_offset);
        assert forall|bound: Scalar|
            bound.is_finite() && after.climb_offset.le(
                bound,
            ) implies #[trigger] after.position.y.le(pose.base_height.plus(bound)) by {
            law_sum_is_monotonic(pose.base_height, after.climb_offset, bound);
        }
    }
}

/// A distance along the ground, where it is a number, is not negative.
proof fn lemma_distance_is_not_negative(a: Vec3, b: Vec3)
    ensures
        !ground_distance(a, b).is_nan() ==> !ground_distance(a, b).is_negative(),
{
    let x = a.x.minus(b.x);
    let z = a.z.minus(b.z);
    lemma_square_is_not_negative(x);
    lemma_square_is_not_negative(z);
    let sum = x.times(x).plus(z.times(z));
    assert(!sum.is_negative()) by {
        reveal(Scalar::spec_plus);
        lemma_magnitude_sign(x.times(x).code() as int);
        lemma_magnitude_sign(z.times(z).code() as int);
        let total = x.times(x).units() + z.times(z).units();
        let s = (if total < 0 {
            -total
        } else {
            total
        }) as nat;
        lemma_nearest_exists(2 * s / 1, 2 * s % 1 == 0);
    }
    reveal(Scalar::spec_root);
    let square = (magnitude(sum.code() as int) * pow2(151)) as nat;
    let whole = integral_root(square);
    lemma_nearest_exists(whole, whole * whole == square);
}

/// A square is not negative.
proof fn lemma_square_is_not_negative(x: Scalar)
    ensures
        !x.times(x).is_negative(),
{
    reveal(Scalar::spec_times);
    let num = (magnitude(x.code() as int) * magnitude(x.code() as int)) as nat;
    lemma_nearest_exists(num / pow2(148), num % pow2(148) == 0);
}

/// Every frame keeps the measured speed from being negative, and it goes no higher than the speed
/// that the robot had or has.
pub proof fn law_measured_speed_is_not_negative(
    pose: RobotPose,
    config: RobotConfig,
    action: Action,
    obstacles: Seq<PlacedObstacle>,
    delta: Scalar,
    terms: MotionTerms,
)
    requires
        pose.measured_speed.is_finite(),
        Scalar::ratio(0, 1).le(pose.measured_speed),
        speed_target(pose, config, action, obstacles, delta, terms).is_finite(),
        Scalar::ratio(0, 1).le(terms.speed_decay),
        terms.speed_decay.le(Scalar::ratio(1, 1)),
    ensures
        ({
            let after = moved_pose(pose, config, action, obstacles, delta, terms);
            let pace = speed_target(pose, config, action, obstacles, delta, terms);
            &&& Scalar::ratio(0, 1).le(after.measured_speed)
            &&& pace.le(pose.measured_speed) ==> after.measured_speed.le(pose.measured_speed)
            &&& pace.le(pose.measured_speed) || 5 * pace.units() > 4 * largest() || 0xff_ffff
                * after.measured_speed.units() <= 0x100_0001 * pace.units()
        }),
{
    let zero = Scalar::ratio(0, 1);
    let after = moved_pose(pose, config, action, obstacles, delta, terms);
    let pace = speed_target(pose, config, action, obstacles, delta, terms);
    let distance = ground_distance(after.position, pose.previous_position);
    let time = frame_time(delta).max(Scalar::ratio(1, 1000));
    law_zero();
    lemma_distance_is_not_negative(after.position, pose.previous_position);
    law_ratio_order(1, 1000, 1, 1000);
    law_ratio_is_finite(1, 1000);
    law_max_is_at_least(frame_time(delta), Scalar::ratio(1, 1000));
    assert(zero.le(pace)) by {
        reveal(Scalar::spec_le);
        reveal(Scalar::spec_over);
        lemma_magnitude_sign(time.code() as int);
        lemma_magnitude_sign(Scalar::ratio(1, 1000).code() as int);
        lemma_magnitude_sign(pace.code() as int);
        assert(!time.is_negative());
        let num = (magnitude(distance.code() as int) * pow2(150)) as nat;
        let den = magnitude(time.code() as int) as nat;
        lemma_nearest_exists(num / den, num % den == 0);
        assert(!pace.is_negative());
    }
    law_smoothing_goes_towards_target(pose.measured_speed, pace, terms.speed_decay);
    assert(after.measured_speed == spec_smoothed(pose.measured_speed, pace, terms.speed_decay));
    law_order_is_total(pace, pose.measured_speed);
    law_order_is_total(pose.measured_speed, pace);
    if 5 * pace.units() <= 4 * largest() {
        law_smoothing_stops_at_target(pose.measured_speed, pace, terms.speed_decay);
    }
}

} // verus!
