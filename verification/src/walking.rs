//! What a frame does to the robot, said of its pose, of the chassis and of the obstacles.

use crate::accuracy::{law_equal_values, law_product_is_close, law_product_is_monotonic};
use crate::accuracy::{law_product_with_part_is_finite, law_product_with_zero, law_sum_follows_sign};
use crate::accuracy::{law_sum_is_close, law_sum_is_monotonic, size};
use crate::config::RobotConfig;
use crate::control::Action;
use crate::motion::{body_radius, commanded_speed, frame_time, lift_height, lifts, moved_pose};
use crate::motion::{proposed_position, spec_motion_arguments, starting_pose, turned_heading};
use crate::motion::{blocks, is_blocked, law_lift_is_highest, law_turn_is_bounded, turn_rate};
use crate::motion::{MotionTerms, RobotPose};
use crate::obstacle::PlacedObstacle;
use crate::order::{law_between_is_finite, law_clamp_is_within, law_commutes, law_half};
use crate::order::{law_lt_is_strict, law_lt_is_transitive, law_negation, law_negation_of_product};
use crate::order::{law_one, law_one_is_neutral, law_order_is_total, law_ratio_is_finite};
use crate::order::{law_ratio_order, law_sum_with_ratio, law_zero};
use crate::scalar::Scalar;
use crate::vector::{ground_distance, Vec3};
use vstd::arithmetic::power2::pow2;
use vstd::prelude::*;

verus! {

/// After a frame that moves the robot, every obstacle that it cannot climb is at least half the
/// diagonal of the chassis, 2 cm and its own radius away, whatever the size of the chassis.
pub proof fn law_chassis_stays_clear(
    pose: RobotPose,
    config: RobotConfig,
    action: Action,
    obstacles: Seq<PlacedObstacle>,
    delta: Scalar,
    terms: MotionTerms,
)
    ensures
        ({
            let after = moved_pose(pose, config, action, obstacles, delta, terms);
            ||| after.position.x == pose.position.x && after.position.z == pose.position.z
            ||| forall|i: int|
                0 <= i < obstacles.len() && !((#[trigger] obstacles[i]).obstacle.climbable
                    && obstacles[i].obstacle.height.le(config.gait.max_climb_height_m))
                    ==> !ground_distance(after.position, obstacles[i].position).lt(
                    terms.half_diagonal.plus(Scalar::ratio(2, 100)).plus(
                        obstacles[i].obstacle.radius,
                    ),
                )
        }),
{
    let after = moved_pose(pose, config, action, obstacles, delta, terms);
    let place = proposed_position(pose, action.forward, frame_time(delta), terms);
    let reach = body_radius(terms);
    if !is_blocked(config, reach, place, obstacles) {
        assert forall|i: int|
            0 <= i < obstacles.len() && !((#[trigger] obstacles[i]).obstacle.climbable
                && obstacles[i].obstacle.height.le(
                config.gait.max_climb_height_m,
            )) implies !ground_distance(after.position, obstacles[i].position).lt(
            terms.half_diagonal.plus(Scalar::ratio(2, 100)).plus(obstacles[i].obstacle.radius),
        ) by {
            assert(!blocks(config, reach, place, obstacles[i]));
        }
    }
}

/// The clearance that the body keeps is half the diagonal of the chassis and 2 cm, to `2^-24` of
/// itself, and so it grows with the half diagonal, strictly where that grows by more than rounding.
pub proof fn law_clearance_grows_with_chassis(small: MotionTerms, large: MotionTerms)
    requires
        small.half_diagonal.is_finite(),
        large.half_diagonal.is_finite(),
    ensures
        ({
            let margin = Scalar::ratio(2, 100);
            let near = small.half_diagonal.plus(margin);
            let far = large.half_diagonal.plus(margin);
            &&& body_radius(small) == near
            &&& body_radius(large) == far
            &&& near.is_finite()
            &&& far.is_finite()
            &&& 0x100_0000 * size(near.units() - small.half_diagonal.units() - margin.units())
                <= size(near.units())
            &&& small.half_diagonal.le(large.half_diagonal) ==> near.le(far)
            &&& 0x100_0000 * (large.half_diagonal.units() - small.half_diagonal.units()) > size(
                near.units(),
            ) + size(far.units()) ==> near.lt(far)
        }),
{
    let margin = Scalar::ratio(2, 100);
    law_ratio_is_finite(2, 100);
    lemma_clearance_is_finite(small);
    lemma_clearance_is_finite(large);
    law_sum_is_close(small.half_diagonal, margin);
    law_sum_is_close(large.half_diagonal, margin);
    if small.half_diagonal.le(large.half_diagonal) {
        law_sum_is_monotonic(margin, small.half_diagonal, large.half_diagonal);
    }
    reveal(Scalar::spec_lt);
}

/// Half a finite diagonal and 2 cm are finite.
proof fn lemma_clearance_is_finite(terms: MotionTerms)
    requires
        terms.half_diagonal.is_finite(),
    ensures
        terms.half_diagonal.plus(Scalar::ratio(2, 100)).is_finite(),
{
    law_sum_with_ratio(2, 100, terms.half_diagonal);
    law_commutes(terms.half_diagonal, Scalar::ratio(2, 100));
}

/// Where a large robot gets through, a small one does: the larger the chassis, the fewer places the
/// robot can step to.
pub proof fn law_smaller_robot_gets_through(
    pose: RobotPose,
    config: RobotConfig,
    action: Action,
    obstacles: Seq<PlacedObstacle>,
    delta: Scalar,
    small: MotionTerms,
    large: MotionTerms,
)
    requires
        small.half_diagonal.is_finite(),
        large.half_diagonal.is_finite(),
        small.half_diagonal.le(large.half_diagonal),
        small.sin_heading == large.sin_heading,
        small.cos_heading == large.cos_heading,
        forall|i: int|
            0 <= i < obstacles.len() ==> (#[trigger] obstacles[i]).obstacle.radius.is_finite(),
    ensures
        ({
            let thin = moved_pose(pose, config, action, obstacles, delta, small).position;
            let wide = moved_pose(pose, config, action, obstacles, delta, large).position;
            wide.x != pose.position.x || wide.z != pose.position.z ==> thin.x == wide.x && thin.z
                == wide.z
        }),
{
    let margin = Scalar::ratio(2, 100);
    let place = proposed_position(pose, action.forward, frame_time(delta), small);
    let near = small.half_diagonal.plus(margin);
    let far = large.half_diagonal.plus(margin);
    law_clearance_grows_with_chassis(small, large);
    if !is_blocked(config, far, place, obstacles) {
        assert forall|i: int| 0 <= i < obstacles.len() implies !blocks(
            config,
            near,
            place,
            #[trigger] obstacles[i],
        ) by {
            let radius = obstacles[i].obstacle.radius;
            assert(!blocks(config, far, place, obstacles[i]));
            law_sum_is_monotonic(radius, near, far);
            law_lt_is_transitive(
                ground_distance(place, obstacles[i].position),
                near.plus(radius),
                far.plus(radius),
            );
        }
    }
}

/// The robot steps along its heading, by its speed times the time of the frame, exactly where no
/// obstacle that it cannot climb is closer to the new place than the chassis allows; otherwise it
/// stays on its place.
pub proof fn law_robot_steps_unless_blocked(
    pose: RobotPose,
    config: RobotConfig,
    action: Action,
    obstacles: Seq<PlacedObstacle>,
    delta: Scalar,
    terms: MotionTerms,
    place: Vec3,
)
    requires
        place.x == pose.position.x.plus(
            terms.sin_heading.times(commanded_speed(action.forward)).times(frame_time(delta)),
        ),
        place.z == pose.position.z.plus(
            terms.cos_heading.times(commanded_speed(action.forward)).times(frame_time(delta)),
        ),
    ensures
        ({
            let after = moved_pose(pose, config, action, obstacles, delta, terms);
            let closer = |i: int|
                {
                    &&& !(obstacles[i].obstacle.climbable && obstacles[i].obstacle.height.le(
                        config.gait.max_climb_height_m,
                    ))
                    &&& ground_distance(place, obstacles[i].position).lt(
                        terms.half_diagonal.plus(Scalar::ratio(2, 100)).plus(
                            obstacles[i].obstacle.radius,
                        ),
                    )
                };
            &&& (forall|i: int| 0 <= i < obstacles.len() ==> !#[trigger] closer(i))
                ==> after.position.x == place.x && after.position.z == place.z
            &&& (exists|i: int| 0 <= i < obstacles.len() && #[trigger] closer(i))
                ==> after.position.x == pose.position.x && after.position.z == pose.position.z
        }),
{
    let reach = body_radius(terms);
    let proposed = proposed_position(pose, action.forward, frame_time(delta), terms);
    let closer = |i: int|
        {
            &&& !(obstacles[i].obstacle.climbable && obstacles[i].obstacle.height.le(
                config.gait.max_climb_height_m,
            ))
            &&& ground_distance(place, obstacles[i].position).lt(
                terms.half_diagonal.plus(Scalar::ratio(2, 100)).plus(
                    obstacles[i].obstacle.radius,
                ),
            )
        };
    assert(proposed.x == place.x && proposed.z == place.z);
    if forall|i: int| 0 <= i < obstacles.len() ==> !#[trigger] closer(i) {
        assert forall|i: int| 0 <= i < obstacles.len() implies !blocks(
            config,
            reach,
            proposed,
            #[trigger] obstacles[i],
        ) by {
            assert(!closer(i));
        }
    }
    if exists|i: int| 0 <= i < obstacles.len() && #[trigger] closer(i) {
        let i = choose|i: int| 0 <= i < obstacles.len() && #[trigger] closer(i);
        assert(blocks(config, reach, proposed, obstacles[i]));
    }
}

/// The speed is the part of 8.5 cm/s that is asked for ahead, the part of 5 cm/s that is asked for
/// back, and all of it for whatever is beyond.
pub proof fn law_speed_is_the_part_asked_for(forward: Scalar)
    requires
        !forward.is_nan(),
    ensures
        Scalar::ratio(0, 1).le(forward) && forward.le(Scalar::ratio(1, 1)) ==> commanded_speed(
            forward,
        ) == Scalar::ratio(85, 1000).times(forward),
        Scalar::ratio(1, 1).le(forward) ==> commanded_speed(forward) == Scalar::ratio(85, 1000),
        forward.lt(Scalar::ratio(0, 1)) && Scalar::ratio(1, 1).negated().le(forward)
            ==> commanded_speed(forward) == Scalar::ratio(50, 1000).times(forward),
        forward.le(Scalar::ratio(1, 1).negated()) ==> commanded_speed(forward) == Scalar::ratio(
            50,
            1000,
        ).negated(),
{
    let zero = Scalar::ratio(0, 1);
    let one = Scalar::ratio(1, 1);
    law_zero();
    law_one();
    law_ratio_is_finite(85, 1000);
    law_ratio_is_finite(50, 1000);
    law_one_is_neutral(Scalar::ratio(85, 1000));
    law_one_is_neutral(Scalar::ratio(50, 1000));
    law_negation_of_product(Scalar::ratio(50, 1000), one);
    law_ratio_order(0, 1, 1, 1);
    law_ratio_order(1, 1, 0, 1);
    law_ratio_order(1, 1, 1, 1);
    law_order_is_total(zero, forward);
    law_order_is_total(forward, zero);
    law_order_is_total(one, forward);
    law_order_is_total(forward, one);
    law_order_is_total(forward, one.negated());
    law_order_is_total(one.negated(), forward);
    law_lt_is_transitive(zero, one, forward);
    law_lt_is_transitive(forward, one.negated(), zero);
    law_lt_is_strict(forward, zero);
    reveal(Scalar::spec_lt);
    reveal(Scalar::spec_le);
    law_negation(one, one);
    vstd::arithmetic::power2::lemma_pow2_pos(149);
    if forward.units() == one.units() {
        law_equal_values(one, forward);
    }
    if forward.units() == one.negated().units() {
        law_equal_values(one.negated(), forward);
    }
}

/// The robot turns by the part of 0.62 radians per second that is asked for, and by all of it for
/// whatever is beyond; a command to the left lowers the heading and one to the right raises it.
pub proof fn law_turn_is_the_part_asked_for(
    pose: RobotPose,
    config: RobotConfig,
    action: Action,
    obstacles: Seq<PlacedObstacle>,
    delta: Scalar,
    terms: MotionTerms,
)
    requires
        !action.turn.is_nan(),
    ensures
        ({
            let after = moved_pose(pose, config, action, obstacles, delta, terms).heading;
            let one = Scalar::ratio(1, 1);
            let rate = Scalar::ratio(62, 100);
            let dt = frame_time(delta);
            &&& one.negated().le(action.turn) && action.turn.le(one) ==> after
                == pose.heading.plus(action.turn.times(rate).times(dt))
            &&& one.lt(action.turn) ==> after == pose.heading.plus(rate.times(dt))
            &&& action.turn.lt(one.negated()) ==> after == pose.heading.plus(
                rate.negated().times(dt),
            )
        }),
{
    let one = Scalar::ratio(1, 1);
    let rate = Scalar::ratio(62, 100);
    law_one();
    law_ratio_is_finite(62, 100);
    law_one_is_neutral(rate);
    law_negation_of_product(one, rate);
    law_ratio_order(1, 1, 1, 1);
    law_clamp_is_within(action.turn, one.negated(), one);
    law_order_is_total(action.turn, one.negated());
    law_order_is_total(one, action.turn);
    law_lt_is_transitive(one.negated(), one, action.turn);
    law_lt_is_strict(one.negated(), action.turn);
}

/// A robot that is told to turn to the right over a frame of some time does not turn to the left,
/// and the other way round.
pub proof fn law_turn_goes_the_way_asked_for(heading: Scalar, turn: Scalar, dt: Scalar)
    requires
        heading.is_finite(),
        !turn.is_nan(),
        Scalar::ratio(0, 1).le(dt),
        dt.le(Scalar::ratio(1, 1)),
    ensures
        Scalar::ratio(0, 1).lt(turn) ==> heading.le(turned_heading(heading, turn, dt)),
        turn.lt(Scalar::ratio(0, 1)) ==> turned_heading(heading, turn, dt).le(heading),
{
    let zero = Scalar::ratio(0, 1);
    let one = Scalar::ratio(1, 1);
    let rate = turn_rate(turn);
    law_turn_is_bounded(heading, turn, dt);
    law_zero();
    law_one();
    law_ratio_is_finite(0, 1);
    law_ratio_is_finite(62, 100);
    law_ratio_order(1, 1, 0, 1);
    law_negation(Scalar::ratio(62, 100), Scalar::ratio(62, 100));
    law_between_is_finite(
        Scalar::ratio(62, 100).negated(),
        rate,
        Scalar::ratio(62, 100),
    );
    law_lt_is_transitive(one.negated(), zero, dt);
    law_between_is_finite(zero, dt, one);
    law_product_with_part_is_finite(rate, dt);
    law_sum_follows_sign(heading, rate.times(dt));
    law_ratio_order(0, 1, 0, 1);
    reveal(Scalar::spec_le);
    if zero.lt(turn) {
        law_product_is_monotonic(rate, zero, dt);
        law_product_with_zero(rate, zero);
    }
    if turn.lt(zero) {
        law_negation(rate, rate);
        law_product_is_monotonic(rate.negated(), zero, dt);
        law_product_with_zero(rate.negated(), zero);
        law_negation_of_product(rate, dt);
        law_negation(rate.times(dt), rate);
    }
}

/// What lifts the robot: of the boxes that can be climbed, are not too high and are closer than the
/// reach of the body, the radius and 8 cm, the highest one, or nothing if there is none.
pub proof fn law_low_boxes_lift(
    config: RobotConfig,
    reach: Scalar,
    place: Vec3,
    obstacles: Seq<PlacedObstacle>,
)
    ensures
        ({
            let height = lift_height(config, reach, place, obstacles);
            let lifting = |i: int|
                {
                    &&& obstacles[i].obstacle.climbable
                    &&& obstacles[i].obstacle.height.le(config.gait.max_climb_height_m)
                    &&& ground_distance(place, obstacles[i].position).lt(
                        reach.plus(obstacles[i].obstacle.radius).plus(Scalar::ratio(8, 100)),
                    )
                };
            &&& Scalar::ratio(0, 1).le(height)
            &&& forall|i: int|
                0 <= i < obstacles.len() && #[trigger] lifting(i)
                    ==> obstacles[i].obstacle.height.le(height)
            &&& height == Scalar::ratio(0, 1) || exists|i: int|
                0 <= i < obstacles.len() && #[trigger] lifting(i) && obstacles[i].obstacle.height
                    == height
        }),
{
    let height = lift_height(config, reach, place, obstacles);
    let lifting = |i: int|
        {
            &&& obstacles[i].obstacle.climbable
            &&& obstacles[i].obstacle.height.le(config.gait.max_climb_height_m)
            &&& ground_distance(place, obstacles[i].position).lt(
                reach.plus(obstacles[i].obstacle.radius).plus(Scalar::ratio(8, 100)),
            )
        };
    law_lift_is_highest(config, reach, place, obstacles);
    assert forall|i: int| 0 <= i < obstacles.len() && #[trigger] lifting(i) implies
        obstacles[i].obstacle.height.le(height) by {
        assert(lifts(config, reach, place, obstacles[i]));
    }
    if height != Scalar::ratio(0, 1) {
        let i = choose|i: int|
            0 <= i < obstacles.len() && lifts(config, reach, place, #[trigger] obstacles[i])
                && obstacles[i].obstacle.height == height;
        assert(lifting(i));
    }
}

/// A frame takes the climb offset towards seven tenths of the height that lifts the robot, while it
/// climbs, and towards zero otherwise; and the measured speed towards the way of the frame over its
/// time, which counts as a millisecond at least.  The part of the gap that is left is the decay.
pub proof fn law_frame_smooths_climb_and_speed(
    pose: RobotPose,
    config: RobotConfig,
    action: Action,
    obstacles: Seq<PlacedObstacle>,
    delta: Scalar,
    terms: MotionTerms,
    place: Vec3,
)
    requires
        place.x == pose.position.x.plus(
            terms.sin_heading.times(commanded_speed(action.forward)).times(frame_time(delta)),
        ),
        place.z == pose.position.z.plus(
            terms.cos_heading.times(commanded_speed(action.forward)).times(frame_time(delta)),
        ),
    ensures
        ({
            let after = moved_pose(pose, config, action, obstacles, delta, terms);
            let one = Scalar::ratio(1, 1);
            let lift = lift_height(
                config,
                terms.half_diagonal.plus(Scalar::ratio(2, 100)),
                place,
                obstacles,
            );
            let target = lift.times(Scalar::ratio(70, 100));
            let offset = pose.climb_offset;
            let speed = pose.measured_speed;
            let time = frame_time(delta);
            let way = ground_distance(after.position, pose.previous_position);
            &&& action.climb_mode ==> after.climb_offset == offset.plus(
                target.minus(offset).times(one.minus(terms.climb_decay)),
            )
            &&& !action.climb_mode ==> after.climb_offset == offset.plus(
                Scalar::ratio(0, 1).minus(offset).times(one.minus(terms.climb_decay)),
            )
            &&& Scalar::ratio(1, 1000).le(time) ==> after.measured_speed == speed.plus(
                way.over(time).minus(speed).times(one.minus(terms.speed_decay)),
            )
            &&& !Scalar::ratio(1, 1000).le(time) ==> after.measured_speed == speed.plus(
                way.over(Scalar::ratio(1, 1000)).minus(speed).times(one.minus(terms.speed_decay)),
            )
            &&& after.position.y == pose.base_height.plus(after.climb_offset)
            &&& after.previous_position == after.position
            &&& after.base_height == pose.base_height
        }),
{
    let proposed = proposed_position(pose, action.forward, frame_time(delta), terms);
    let reach = body_radius(terms);
    lemma_lift_ignores_height(config, reach, proposed, place, obstacles);
    let time = frame_time(delta);
    law_ratio_order(1, 1000, 1, 1000);
    law_order_is_total(time, Scalar::ratio(1, 1000));
    law_order_is_total(Scalar::ratio(1, 1000), time);
}

/// What lifts the robot does not depend on the height of its place.
proof fn lemma_lift_ignores_height(
    config: RobotConfig,
    reach: Scalar,
    a: Vec3,
    b: Vec3,
    obstacles: Seq<PlacedObstacle>,
)
    requires
        a.x == b.x,
        a.z == b.z,
    ensures
        lift_height(config, reach, a, obstacles) == lift_height(config, reach, b, obstacles),
    decreases obstacles.len(),
{
    if obstacles.len() > 0 {
        lemma_lift_ignores_height(config, reach, a, b, obstacles.drop_last());
    }
}

/// The terms of a frame are evaluated where the frame needs them: the sine and the cosine at the
/// heading that it ends with, the exponentials at minus six and minus five times its time, and the
/// half diagonal at halves of the chassis.
pub proof fn law_terms_belong_to_the_frame(
    pose: RobotPose,
    config: RobotConfig,
    action: Action,
    obstacles: Seq<PlacedObstacle>,
    delta: Scalar,
    terms: MotionTerms,
)
    ensures
        ({
            let at = spec_motion_arguments(pose, config, action.turn, delta);
            let after = moved_pose(pose, config, action, obstacles, delta, terms);
            &&& at.heading == after.heading
            &&& at.climb_exponent == frame_time(delta).negated().times(Scalar::ratio(6, 1))
            &&& at.speed_exponent == frame_time(delta).negated().times(Scalar::ratio(5, 1))
            &&& at.half_width == config.chassis.width_m.times(Scalar::ratio(5, 10))
            &&& at.half_length == config.chassis.length_m.times(Scalar::ratio(5, 10))
        }),
{
}

/// Two halves of the chassis make the chassis, up to rounding, however wide and long it is.
pub proof fn law_halves_make_the_chassis(
    pose: RobotPose,
    config: RobotConfig,
    turn: Scalar,
    delta: Scalar,
)
    requires
        config.chassis.width_m.is_finite(),
        config.chassis.length_m.is_finite(),
    ensures
        ({
            let at = spec_motion_arguments(pose, config, turn, delta);
            &&& 0x100_0000 * size(2 * at.half_width.units() - config.chassis.width_m.units()) <= 2
                * size(at.half_width.units()) + 0x100_0000
            &&& 0x100_0000 * size(2 * at.half_length.units() - config.chassis.length_m.units())
                <= 2 * size(at.half_length.units()) + 0x100_0000
        }),
{
    lemma_half_is_close(config.chassis.width_m);
    lemma_half_is_close(config.chassis.length_m);
}

/// Two halves of a number make the number, up to rounding.
proof fn lemma_half_is_close(x: Scalar)
    requires
        x.is_finite(),
    ensures
        ({
            let h = x.times(Scalar::ratio(5, 10)).units();
            0x100_0000 * size(2 * h - x.units()) <= 2 * size(h) + 0x100_0000
        }),
{
    let half = Scalar::ratio(5, 10);
    let u = pow2(149) as int;
    law_half();
    law_one();
    law_ratio_order(5, 10, 1, 1);
    law_ratio_order(1, 1, 5, 10);
    law_product_with_part_is_finite(x, half);
    law_product_is_close(x, half);
    vstd::arithmetic::power2::lemma_pow2_unfold(149);
    vstd::arithmetic::power2::lemma_pow2_pos(148);
    let h = x.times(half).units();
    let e = 2 * h - x.units();
    assert(2 * (h * u - x.units() * pow2(148)) == e * u) by (nonlinear_arith)
        requires
            e == 2 * h - x.units(),
            u == 2 * pow2(148),
    ;
    assert(size(e) * u == size(e * u)) by (nonlinear_arith)
        requires
            u > 0,
            size(e) == if e < 0 { -e } else { e },
            size(e * u) == if e * u < 0 { -(e * u) } else { e * u },
    ;
    assert(0x100_0000 * size(e) <= 2 * size(h) + 0x100_0000) by (nonlinear_arith)
        requires
            0x100_0000 * (size(e) * u) <= 2 * (size(h) * u) + 0x100_0000 * u,
            u > 0,
    ;
}

/// A robot that is put back stands at its own height over the starting place, faces ahead, does not
/// climb and does not move; nothing else of where it was is left.
pub proof fn law_start_is_a_place(base_height: Scalar)
    ensures
        ({
            let pose = starting_pose(base_height);
            &&& pose.position.x == Scalar::ratio(0, 1)
            &&& pose.position.y == base_height
            &&& pose.position.z == Scalar::ratio(85, 100).negated()
            &&& pose.previous_position == pose.position
            &&& pose.base_height == base_height
            &&& pose.heading == Scalar::ratio(0, 1)
            &&& pose.climb_offset == Scalar::ratio(0, 1)
            &&& pose.measured_speed == Scalar::ratio(0, 1)
        }),
{
}

/// What is no number as a command makes the speed or the heading no number; it is not taken for a
/// stop.
pub proof fn law_undefined_commands_stay_undefined(heading: Scalar, command: Scalar, dt: Scalar)
    requires
        command.is_nan(),
    ensures
        commanded_speed(command).is_nan(),
        turned_heading(heading, command, dt).is_nan(),
{
    reveal(Scalar::spec_times);
    reveal(Scalar::spec_plus);
    reveal(Scalar::spec_lt);
    reveal(Scalar::spec_le);
}

} // verus!
