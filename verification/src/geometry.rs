//! Laws of the geometry of the legs: what moves what, how long the segments are, and which legs are
//! mirror images of each other.

use crate::accuracy::{law_length_is_stable, law_length_is_stretched, law_product_is_monotonic};
use crate::accuracy::{law_product_of_ratios, law_product_with_zero, law_product_within};
use crate::accuracy::{law_quotient_is_close, law_root_within, law_sum_follows_sign};
use crate::accuracy::{law_sum_with_zero, law_sum_within, size, square, within};
use crate::config::RobotConfig;
use crate::legs::{joint_base, law_upper_segment_is_visible, leg_end, leg_name, leg_side};
use crate::legs::{lemma_leg_names_differ, part_placement, segment_transform, spec_leg_angles};
use crate::legs::{spec_leg_lengths, spec_leg_points, LegPoints, VisualPart};
use crate::order::{law_between_is_finite, law_clamp_is_within, law_commutes, law_half};
use crate::order::{law_lt_is_strict, law_lt_is_transitive, law_max_is_at_least, law_negation};
use crate::order::{law_negation_of_product, law_one, law_one_is_neutral, law_order_is_total};
use crate::order::{law_product_with_part, law_ratio_is_finite, law_ratio_order, law_zero};
use crate::rounding::{lemma_nearest_exists, magnitude};
use crate::scalar::{lemma_magnitude_sign, Scalar};
use crate::symmetry::{law_mirrored, law_mirrored_difference, law_mirrored_product};
use crate::symmetry::{law_mirrored_quotient, law_mirrored_sum, mirrored};
use crate::vector::Vec3;
use vstd::arithmetic::power2::pow2;
use vstd::prelude::*;

verus! {

/// A bar is the same from either end: swapping its ends keeps its centre and its scale, and turns it
/// round.
pub proof fn law_bar_has_no_first_end(start: Vec3, end: Vec3, thickness: Scalar)
    ensures
        ({
            let there = segment_transform(start, end, thickness);
            let back = segment_transform(end, start, thickness);
            &&& there.translation == back.translation
            &&& there.scale == back.scale
            &&& there.rotation is Along && back.rotation is Along
            &&& mirrored(there.rotation->Along_0.x, back.rotation->Along_0.x)
            &&& mirrored(there.rotation->Along_0.y, back.rotation->Along_0.y)
            &&& mirrored(there.rotation->Along_0.z, back.rotation->Along_0.z)
        }),
{
    let dir = end.minus(start);
    let rid = start.minus(end);
    law_commutes(start.x, end.x);
    law_commutes(start.y, end.y);
    law_commutes(start.z, end.z);
    law_mirrored_difference(end.x, start.x);
    law_mirrored_difference(end.y, start.y);
    law_mirrored_difference(end.z, start.z);
    law_mirrored_product(dir.x, rid.x, dir.x);
    law_mirrored_product(dir.y, rid.y, dir.y);
    law_mirrored_product(dir.z, rid.z, dir.z);
    let length = dir.length().max(Scalar::ratio(1, 1000));
    assert(rid.length() == dir.length());
    law_mirrored_quotient(dir.x, rid.x, length);
    law_mirrored_quotient(dir.y, rid.y, length);
    law_mirrored_quotient(dir.z, rid.z, length);
}

/// Whether a leg is on the left and the other one opposite to it on the right.
pub open spec fn are_opposite(left: Seq<char>, right: Seq<char>) -> bool {
    left == leg_name(0) && right == leg_name(1) || left == leg_name(2) && right == leg_name(3)
}

/// Opposite legs with equal joint targets are swung to opposite sides and inclined alike.
pub proof fn law_opposite_legs_swing_alike(
    left: Seq<char>,
    right: Seq<char>,
    joint_targets: Seq<Scalar>,
)
    requires
        are_opposite(left, right),
        forall|j: int|
            0 <= j < 3 ==> #[trigger] joint_targets[joint_base(left) + j]
                == joint_targets[joint_base(right) + j],
    ensures
        mirrored(
            spec_leg_angles(left, joint_targets).yaw,
            spec_leg_angles(right, joint_targets).yaw,
        ),
        spec_leg_angles(left, joint_targets).down == spec_leg_angles(right, joint_targets).down,
{
    lemma_leg_names_differ();
    let one = Scalar::ratio(1, 1);
    assert(joint_targets[joint_base(left) + 0] == joint_targets[joint_base(right) + 0]);
    assert(joint_targets[joint_base(left) + 1] == joint_targets[joint_base(right) + 1]);
    assert(joint_targets[joint_base(left) + 2] == joint_targets[joint_base(right) + 2]);
    law_negation(one, one);
    law_mirrored(one, one);
    law_mirrored_product(one, one.negated(), joint_targets[joint_base(left)]);
}

/// Opposite legs that point in opposite directions and are inclined alike are mirror images of each
/// other: their joints are as far to the left as to the right, as high and as far ahead.
pub proof fn law_opposite_legs_are_mirror_images(
    config: RobotConfig,
    left: Seq<char>,
    right: Seq<char>,
    direction: Vec3,
    opposite: Vec3,
    cos_down: Scalar,
    sin_down: Scalar,
)
    requires
        are_opposite(left, right),
        mirrored(direction.x, opposite.x),
        direction.y == opposite.y,
        direction.z == opposite.z,
    ensures
        ({
            let l = spec_leg_points(config, left, direction, cos_down, sin_down);
            let r = spec_leg_points(config, right, opposite, cos_down, sin_down);
            &&& mirrored(l.a.x, r.a.x) && l.a.y == r.a.y && l.a.z == r.a.z
            &&& mirrored(l.b.x, r.b.x) && l.b.y == r.b.y && l.b.z == r.b.z
            &&& mirrored(l.foot.x, r.foot.x) && l.foot.y == r.foot.y && l.foot.z == r.foot.z
        }),
{
    lemma_leg_names_differ();
    let one = Scalar::ratio(1, 1);
    let zero = Scalar::ratio(0, 1);
    let width = config.chassis.width_m;
    let part = Scalar::ratio(54, 100);
    let lengths = spec_leg_lengths(config);
    let ahead = lengths.bfoot.times(cos_down);
    let drop = lengths.bfoot.times(sin_down);
    let l = spec_leg_points(config, left, direction, cos_down, sin_down);
    let r = spec_leg_points(config, right, opposite, cos_down, sin_down);
    law_mirrored(one, one.negated());
    law_mirrored_product(one.negated(), one, width);
    law_mirrored_product(one.negated().times(width), one.times(width), part);
    law_mirrored_product(direction.x, opposite.x, lengths.ab);
    law_mirrored_sum(
        l.a.x,
        direction.x.times(lengths.ab),
        r.a.x,
        opposite.x.times(lengths.ab),
    );
    law_mirrored_product(direction.x, opposite.x, ahead);
    law_mirrored_sum(l.b.x, direction.x.times(ahead), r.b.x, opposite.x.times(ahead));
    lemma_zero_is_own_mirror(zero, drop);
    law_mirrored_sum(
        l.b.x.plus(direction.x.times(ahead)),
        zero.times(drop),
        r.b.x.plus(opposite.x.times(ahead)),
        zero.times(drop),
    );
}

/// Zero times anything is its own opposite.
proof fn lemma_zero_is_own_mirror(zero: Scalar, x: Scalar)
    requires
        zero == Scalar::ratio(0, 1),
    ensures
        mirrored(zero.times(x), zero.times(x)),
{
    law_zero();
    if x.is_finite() {
        law_product_with_zero(x, zero);
    } else {
        reveal(Scalar::spec_times);
    }
}

/// A leg that points ahead has servo B no further back than servo A.
pub proof fn law_leg_swings_ahead(
    config: RobotConfig,
    leg: Seq<char>,
    direction: Vec3,
    cos_down: Scalar,
    sin_down: Scalar,
)
    requires
        Scalar::ratio(0, 1).le(direction.z),
        direction.z.is_finite(),
        spec_leg_lengths(config).ab.is_finite(),
        direction.z.times(spec_leg_lengths(config).ab).is_finite(),
        spec_leg_points(config, leg, direction, cos_down, sin_down).a.z.is_finite(),
    ensures
        ({
            let points = spec_leg_points(config, leg, direction, cos_down, sin_down);
            points.a.z.le(points.b.z)
        }),
{
    let zero = Scalar::ratio(0, 1);
    let ab = spec_leg_lengths(config).ab;
    law_upper_segment_is_visible(config);
    law_ratio_order(0, 1, 35, 1000);
    law_ratio_order(0, 1, 0, 1);
    law_lt_is_transitive(zero, Scalar::ratio(35, 1000), ab);
    law_zero();
    law_ratio_is_finite(0, 1);
    law_commutes(ab, direction.z);
    law_order_is_total(direction.z, direction.z);
    law_lt_is_strict(direction.z, direction.z);
    law_product_is_monotonic(ab, direction.z, direction.z);
    law_sum_follows_sign(
        spec_leg_points(config, leg, direction, cos_down, sin_down).a.z,
        direction.z.times(ab),
    );
}

/// The first servo swings one leg and nothing else: a change of its target leaves all other legs as
/// they are, and the inclination of its own.
pub proof fn law_yaw_swings_one_leg(
    leg: Seq<char>,
    other: Seq<char>,
    before: Seq<Scalar>,
    after: Seq<Scalar>,
)
    requires
        forall|i: int| 0 <= i < 12 && i != joint_base(leg) ==> #[trigger] before[i] == after[i],
    ensures
        joint_base(other) != joint_base(leg) ==> spec_leg_angles(other, before)
            == spec_leg_angles(other, after),
        spec_leg_angles(leg, before).down == spec_leg_angles(leg, after).down,
{
    let base = joint_base(other);
    assert(base != joint_base(leg) ==> before[base] == after[base]);
    assert(base != joint_base(leg) ==> before[base + 1] == after[base + 1]);
    assert(base != joint_base(leg) ==> before[base + 2] == after[base + 2]);
    assert(before[joint_base(leg) + 1] == after[joint_base(leg) + 1]);
    assert(before[joint_base(leg) + 2] == after[joint_base(leg) + 2]);
}

/// The first servo swings its leg horizontally: wherever in the plane the leg points, servo A is
/// where it was, and servo B and the foot are as high as they were.
pub proof fn law_swing_is_horizontal(
    config: RobotConfig,
    leg: Seq<char>,
    before: Vec3,
    after: Vec3,
    cos_down: Scalar,
    sin_down: Scalar,
)
    requires
        before.y.code() == 0,
        after.y.code() == 0,
    ensures
        ({
            let p = spec_leg_points(config, leg, before, cos_down, sin_down);
            let q = spec_leg_points(config, leg, after, cos_down, sin_down);
            &&& p.a == q.a
            &&& p.b.y == q.b.y
            &&& p.foot.y == q.foot.y
            &&& spec_leg_lengths(config).ab.is_finite() ==> p.b.y == p.a.y
        }),
{
    let lengths = spec_leg_lengths(config);
    let ahead = lengths.bfoot.times(cos_down);
    lemma_level_sum(before.y, after.y, lengths.ab);
    lemma_level_sum(before.y, after.y, ahead);
    if !lengths.ab.is_finite() {
        reveal(Scalar::spec_plus);
    }
}

/// A level step, added to a height of zero, is zero or no number, whatever the sign of its zero is.
proof fn lemma_level_sum(x: Scalar, y: Scalar, length: Scalar)
    requires
        x.code() == 0,
        y.code() == 0,
    ensures
        ({
            let zero = Scalar::ratio(0, 1);
            &&& zero.plus(x.times(length)) == zero.plus(y.times(length))
            &&& length.is_finite() ==> zero.plus(x.times(length)) == zero
            &&& !length.is_finite() ==> zero.plus(x.times(length)) == Scalar::nan()
        }),
{
    law_zero();
    reveal(Scalar::spec_plus);
    if length.is_finite() {
        law_product_with_zero(length, x);
        law_product_with_zero(length, y);
        lemma_magnitude_sign(0);
    } else {
        reveal(Scalar::spec_times);
    }
}

/// The second servo moves the lower segment of one leg and nothing else: a change of its target and
/// of the knee's leaves all other legs as they are, and the swing of its own.
pub proof fn law_pitch_lifts_one_leg(
    leg: Seq<char>,
    other: Seq<char>,
    before: Seq<Scalar>,
    after: Seq<Scalar>,
)
    requires
        forall|i: int|
            0 <= i < 12 && i != joint_base(leg) + 1 && i != joint_base(leg) + 2
                ==> #[trigger] before[i] == after[i],
    ensures
        joint_base(other) != joint_base(leg) ==> spec_leg_angles(other, before)
            == spec_leg_angles(other, after),
        spec_leg_angles(leg, before).yaw == spec_leg_angles(leg, after).yaw,
{
    let base = joint_base(other);
    assert(base != joint_base(leg) ==> before[base] == after[base]);
    assert(base != joint_base(leg) ==> before[base + 1] == after[base + 1]);
    assert(base != joint_base(leg) ==> before[base + 2] == after[base + 2]);
    assert(before[joint_base(leg)] == after[joint_base(leg)]);
}

/// However the lower segment is inclined, the servos are where they were, and only the lower
/// segment and the foot are drawn elsewhere.
pub proof fn law_inclination_moves_the_foot_alone(
    config: RobotConfig,
    leg: Seq<char>,
    direction: Vec3,
    before: (Scalar, Scalar),
    after: (Scalar, Scalar),
    part: VisualPart,
    origin: Vec3,
    turned: LegPoints,
    foot: Vec3,
)
    requires
        part != VisualPart::LinkBFoot,
        part != VisualPart::Foot,
    ensures
        ({
            let p = spec_leg_points(config, leg, direction, before.0, before.1);
            let q = spec_leg_points(config, leg, direction, after.0, after.1);
            p.a == q.a && p.b == q.b
        }),
        ({
            let thickness = spec_leg_lengths(config).thickness;
            part_placement(part, origin, turned, thickness) == part_placement(
                part,
                origin,
                LegPoints { foot, ..turned },
                thickness,
            )
        }),
{
}

/// The foot of a leg that points in the plane hangs below servo B, by the length of the lower
/// segment times the sine of the inclination.
pub proof fn law_foot_hangs_below(
    config: RobotConfig,
    leg: Seq<char>,
    direction: Vec3,
    cos_down: Scalar,
    sin_down: Scalar,
    low: Scalar,
    high: Scalar,
)
    requires
        direction.y.code() == 0,
        spec_leg_lengths(config).ab.is_finite(),
        !spec_leg_lengths(config).bfoot.is_nan(),
        spec_leg_lengths(config).bfoot.times(cos_down).is_finite(),
        Scalar::ratio(0, 1).le(low),
        low.le(sin_down),
        sin_down.le(high),
        high.le(Scalar::ratio(1, 1)),
    ensures
        ({
            let points = spec_leg_points(config, leg, direction, cos_down, sin_down);
            let bfoot = spec_leg_lengths(config).bfoot;
            let height = points.b.y.minus(points.foot.y);
            &&& height.units() == bfoot.times(sin_down).units()
            &&& bfoot.times(low).le(height)
            &&& height.le(bfoot.times(high))
            &&& Scalar::ratio(3, 10).le(low) ==> points.foot.y.lt(points.b.y)
        }),
{
    let zero = Scalar::ratio(0, 1);
    let one = Scalar::ratio(1, 1);
    let lengths = spec_leg_lengths(config);
    let bfoot = lengths.bfoot;
    let drop = bfoot.times(sin_down);
    let points = spec_leg_points(config, leg, direction, cos_down, sin_down);
    law_zero();
    law_one();
    law_ratio_order(75, 1000, 190, 1000);
    law_ratio_is_finite(75, 1000);
    law_ratio_is_finite(190, 1000);
    law_ratio_is_finite(0, 1);
    law_ratio_order(0, 1, 75, 1000);
    let raw = config.links.femur_length_m.plus(
        config.links.tibia_length_m.times(Scalar::ratio(35, 100)),
    );
    law_clamp_is_within(raw, Scalar::ratio(75, 1000), Scalar::ratio(190, 1000));
    law_between_is_finite(Scalar::ratio(75, 1000), bfoot, Scalar::ratio(190, 1000));
    law_lt_is_transitive(zero, Scalar::ratio(75, 1000), bfoot);
    law_lt_is_transitive(zero, low, sin_down);
    law_lt_is_transitive(low, sin_down, high);
    law_lt_is_transitive(low, high, one);
    law_lt_is_transitive(sin_down, high, one);
    law_lt_is_transitive(zero, low, high);
    law_between_is_finite(zero, low, one);
    law_between_is_finite(zero, sin_down, one);
    law_between_is_finite(zero, high, one);
    law_product_is_monotonic(bfoot, low, sin_down);
    law_product_is_monotonic(bfoot, sin_down, high);
    law_lt_is_transitive(one.negated(), zero, sin_down);
    law_ratio_order(1, 1, 0, 1);
    law_order_is_total(bfoot, bfoot);
    reveal(Scalar::spec_le);
    lemma_magnitude_sign(bfoot.code() as int);
    lemma_magnitude_sign(Scalar::ratio(75, 1000).code() as int);
    law_product_with_part(bfoot, sin_down);
    law_negation(bfoot, bfoot);
    law_between_is_finite(bfoot.negated(), drop, bfoot);
    law_one_is_neutral(drop);
    law_negation_of_product(one, drop);
    lemma_level_sum(direction.y, direction.y, lengths.ab);
    lemma_level_sum(direction.y, direction.y, bfoot.times(cos_down));
    assert(points.b.y == zero);
    assert(points.foot.y == zero.plus(drop.negated()));
    law_sum_with_zero(drop.negated(), zero);
    law_negation(drop, drop);
    law_negation(points.foot.y, points.foot.y);
    law_sum_with_zero(points.foot.y.negated(), zero);
    if Scalar::ratio(3, 10).le(low) {
        law_ratio_is_finite(3, 10);
        law_ratio_order(0, 1, 3, 10);
        law_product_is_monotonic(bfoot, Scalar::ratio(3, 10), low);
        law_commutes(bfoot, Scalar::ratio(3, 10));
        law_commutes(Scalar::ratio(75, 1000), Scalar::ratio(3, 10));
        law_product_is_monotonic(Scalar::ratio(3, 10), Scalar::ratio(75, 1000), bfoot);
        law_product_of_ratios(3, 10, 75, 1000);
        law_lt_is_transitive(zero, Scalar::ratio(3, 10).times(Scalar::ratio(75, 1000)), drop);
        reveal(Scalar::spec_lt);
    }
}

/// The square of the distance of two points, in units of `2^-149`.
pub open spec fn square_distance(a: Vec3, b: Vec3) -> int {
    square(b.x.units() - a.x.units(), b.y.units() - a.y.units(), b.z.units() - a.z.units())
}

/// The square of the length of a direction, in units of `2^-149`.
pub open spec fn square_length(d: Vec3) -> int {
    square(d.x.units(), d.y.units(), d.z.units())
}

/// Whether the components of a vector are finite and at most `k` times `2^24` units large.
pub open spec fn all_within(v: Vec3, k: nat) -> bool {
    within(v.x, k) && within(v.y, k) && within(v.z, k)
}

/// Whether the components of a vector are finite.
pub open spec fn all_finite(v: Vec3) -> bool {
    v.x.is_finite() && v.y.is_finite() && v.z.is_finite()
}

/// A step along one axis is the product of direction and length, up to three roundings.
proof fn lemma_step(a: Scalar, d: Scalar, length: Scalar, k: nat)
    requires
        k >= 1,
        a.is_finite(),
        d.is_finite(),
        length.is_finite(),
        within(d.times(length), k),
        within(a.plus(d.times(length)), k),
    ensures
        size(
            pow2(149) * (a.plus(d.times(length)).units() - a.units()) - length.units() * d.units(),
        ) <= 3 * k * pow2(149),
{
    let u = pow2(149) as int;
    let p = d.times(length);
    let b = a.plus(p);
    law_product_within(d, length, k);
    law_sum_within(a, p, k);
    let e = b.units() - (a.units() + p.units());
    assert(-(k * u) <= u * e <= k * u) by (nonlinear_arith)
        requires
            -k <= e <= k,
            u >= 0,
    ;
    assert(u * (b.units() - a.units()) == u * e + p.units() * u) by (nonlinear_arith)
        requires
            e == b.units() - (a.units() + p.units()),
    ;
    assert(length.units() * d.units() == d.units() * length.units()) by (nonlinear_arith);
    assert(2 * k * u + k * u == 3 * k * u) by (nonlinear_arith);
}

/// The square of a stretched vector.
proof fn lemma_stretched(l: int, x: int, y: int, z: int, low: int, high: int)
    requires
        0 <= l,
        0 <= low,
        0 <= high,
        low * low <= square(x, y, z) <= high * high,
    ensures
        (l * low) * (l * low) <= square(l * x, l * y, l * z) <= (l * high) * (l * high),
        0 <= l * low,
        0 <= l * high,
{
    let q = square(x, y, z);
    law_length_is_stretched(l, x, y, z);
    assert((l * low) * (l * low) == (l * l) * (low * low) && (l * high) * (l * high) == (l * l) * (
    high * high)) by (nonlinear_arith);
    assert(l * l >= 0) by (nonlinear_arith);
    assert((l * l) * (low * low) <= (l * l) * q <= (l * l) * (high * high)) by (nonlinear_arith)
        requires
            l * l >= 0,
            low * low <= q <= high * high,
    ;
    assert(0 <= l * low && 0 <= l * high) by (nonlinear_arith)
        requires
            0 <= l,
            0 <= low,
            0 <= high,
    ;
}

/// Servo B is as far from servo A as the configuration says, up to rounding: for a direction whose
/// length lies between `low` and `high` units, their distance lies between these parts of the
/// length of the upper segment, give or take `6 * k` units, where `k` is `2^-24` of the largest
/// coordinate.
pub proof fn law_upper_segment_has_its_length(
    config: RobotConfig,
    leg: Seq<char>,
    direction: Vec3,
    cos_down: Scalar,
    sin_down: Scalar,
    k: nat,
    low: nat,
    high: nat,
)
    requires
        k >= 1,
        spec_leg_lengths(config).ab.is_finite(),
        all_finite(direction),
        all_within(direction.times(spec_leg_lengths(config).ab), k),
        all_finite(spec_leg_points(config, leg, direction, cos_down, sin_down).a),
        all_within(spec_leg_points(config, leg, direction, cos_down, sin_down).b, k),
        low * low <= square_length(direction) <= high * high,
    ensures
        ({
            let points = spec_leg_points(config, leg, direction, cos_down, sin_down);
            let ab = spec_leg_lengths(config).ab.units();
            let one = pow2(149) as int;
            let slack = 6 * k * one;
            let scaled = one * one * square_distance(points.a, points.b);
            &&& scaled <= (ab * high + slack) * (ab * high + slack)
            &&& ab * low >= slack ==> (ab * low - slack) * (ab * low - slack) <= scaled
        }),
{
    let points = spec_leg_points(config, leg, direction, cos_down, sin_down);
    let length = spec_leg_lengths(config).ab;
    let l = length.units();
    let u = pow2(149) as int;
    lemma_length_is_positive(config);
    lemma_step(points.a.x, direction.x, length, k);
    lemma_step(points.a.y, direction.y, length, k);
    lemma_step(points.a.z, direction.z, length, k);
    let d = (direction.x.units(), direction.y.units(), direction.z.units());
    lemma_stretched(l, d.0, d.1, d.2, low as int, high as int);
    let x = points.b.x.units() - points.a.x.units();
    let y = points.b.y.units() - points.a.y.units();
    let z = points.b.z.units() - points.a.z.units();
    let t = 3 * k * u;
    law_length_is_stable(
        (l * d.0, l * d.1, l * d.2),
        (u * x, u * y, u * z),
        l * low,
        l * high,
        t,
    );
    law_length_is_stretched(u, x, y, z);
    assert(2 * t == 6 * k * u) by (nonlinear_arith)
        requires
            t == 3 * k * u,
    ;
}

/// The length of the upper segment is positive.
proof fn lemma_length_is_positive(config: RobotConfig)
    ensures
        spec_leg_lengths(config).ab.units() > 0,
{
    law_upper_segment_is_visible(config);
    law_ratio_is_finite(35, 1000);
    reveal(Scalar::spec_le);
    lemma_magnitude_sign(Scalar::ratio(35, 1000).code() as int);
}

/// Servo B of a leg that is not swung is beside servo A, by the length of the upper segment, rounded
/// once; it is as high and as far ahead.
pub proof fn law_unswung_leg_points_sideways(
    config: RobotConfig,
    leg: Seq<char>,
    cos_down: Scalar,
    sin_down: Scalar,
)
    requires
        spec_leg_lengths(config).ab.is_finite(),
        !(leg_end(leg).times(config.chassis.length_m).times(Scalar::ratio(36, 100)).is_nan()),
    ensures
        ({
            let zero = Scalar::ratio(0, 1);
            let ab = spec_leg_lengths(config).ab;
            let points = spec_leg_points(
                config,
                leg,
                Vec3::new(leg_side(leg), zero, zero),
                cos_down,
                sin_down,
            );
            &&& leg_side(leg) == Scalar::ratio(1, 1) ==> points.b.x == points.a.x.plus(ab)
            &&& leg_side(leg) != Scalar::ratio(1, 1) ==> points.b.x == points.a.x.minus(ab)
            &&& points.b.y == points.a.y
            &&& points.b.z.units() == points.a.z.units()
        }),
{
    let zero = Scalar::ratio(0, 1);
    let one = Scalar::ratio(1, 1);
    let ab = spec_leg_lengths(config).ab;
    law_zero();
    law_one_is_neutral(ab);
    law_negation_of_product(one, ab);
    law_product_with_zero(ab, zero);
    lemma_level_sum(zero, zero, ab);
    law_sum_with_zero(
        leg_end(leg).times(config.chassis.length_m).times(Scalar::ratio(36, 100)),
        zero.times(ab),
    );
}

/// A step of the foot along one axis, up to its roundings; `q` is added last.
proof fn lemma_far_step(b: Scalar, d: Scalar, length: Scalar, cos: Scalar, q: Scalar, k: nat)
    requires
        k >= 1,
        b.is_finite(),
        d.is_finite(),
        length.is_finite(),
        cos.is_finite(),
        q.is_finite(),
        size(d.units()) <= 2 * pow2(149),
        within(length.times(cos), k),
        within(d.times(length.times(cos)), k),
        within(b.plus(d.times(length.times(cos))), k),
        within(b.plus(d.times(length.times(cos))).plus(q), k),
    ensures
        ({
            let u = pow2(149) as int;
            let foot = b.plus(d.times(length.times(cos))).plus(q);
            size(
                u * u * (foot.units() - b.units()) - length.units() * (d.units() * cos.units()) - u
                    * u * q.units(),
            ) <= 8 * (u * u * k)
        }),
{
    let u = pow2(149) as int;
    let h = length.times(cos);
    let p = d.times(h);
    let c = b.plus(p);
    let f = c.plus(q);
    law_product_within(length, cos, k);
    law_product_within(d, h, k);
    law_sum_within(b, p, k);
    law_sum_within(c, q, k);
    let e1 = f.units() - (c.units() + q.units());
    let e2 = c.units() - (b.units() + p.units());
    let e3 = p.units() * u - d.units() * h.units();
    let e4 = h.units() * u - length.units() * cos.units();
    let uu = u * u;
    let n = uu * k;
    assert(uu >= 0) by (nonlinear_arith)
        requires
            uu == u * u,
    ;
    assert(-n <= uu * e1 <= n) by (nonlinear_arith)
        requires
            n == uu * k,
            -k <= e1 <= k,
            uu >= 0,
    ;
    assert(-n <= uu * e2 <= n) by (nonlinear_arith)
        requires
            n == uu * k,
            -k <= e2 <= k,
            uu >= 0,
    ;
    assert(-2 * n <= u * e3 <= 2 * n) by (nonlinear_arith)
        requires
            n == (u * u) * k,
            -(2 * k * u) <= e3 <= 2 * k * u,
            u >= 0,
    ;
    let dd = d.units();
    let ee = 2 * k * u;
    assert(-(4 * n) <= dd * e4 <= 4 * n) by {
        assert(size(dd * e4) <= (2 * u) * ee) by (nonlinear_arith)
            requires
                -(2 * u) <= dd <= 2 * u,
                -ee <= e4 <= ee,
                size(dd * e4) == dd * e4 || size(dd * e4) == -(dd * e4),
        ;
        assert((2 * u) * ee == 4 * n) by (nonlinear_arith)
            requires
                ee == 2 * k * u,
                n == (u * u) * k,
        ;
    }
    let fc = length.units() * (dd * cos.units());
    assert(u * e3 == uu * p.units() - dd * (h.units() * u)) by (nonlinear_arith)
        requires
            e3 == p.units() * u - dd * h.units(),
            uu == u * u,
    ;
    assert(dd * e4 == dd * (h.units() * u) - fc) by (nonlinear_arith)
        requires
            e4 == h.units() * u - length.units() * cos.units(),
            fc == length.units() * (dd * cos.units()),
    ;
    assert(uu * (f.units() - b.units()) == uu * e1 + uu * e2 + uu * p.units() + uu * q.units())
        by (nonlinear_arith)
        requires
            e1 == f.units() - (c.units() + q.units()),
            e2 == c.units() - (b.units() + p.units()),
    ;
}

/// The foot is as far from servo B as the configuration says, up to rounding: for a direction in the
/// plane, and a cosine and a sine which make a vector whose length lies between `low` and `high`
/// square units, their distance lies between these parts of the length of the lower segment, give
/// or take `20 * k` units, where `k` is `2^-24` of the largest coordinate.
pub proof fn law_lower_segment_has_its_length(
    config: RobotConfig,
    leg: Seq<char>,
    direction: Vec3,
    cos_down: Scalar,
    sin_down: Scalar,
    k: nat,
    low: nat,
    high: nat,
)
    requires
        k >= 1,
        !spec_leg_lengths(config).bfoot.is_nan(),
        all_finite(direction),
        direction.y.code() == 0,
        size(direction.x.units()) <= 2 * pow2(149),
        size(direction.z.units()) <= 2 * pow2(149),
        cos_down.is_finite(),
        sin_down.is_finite(),
        ({
            let points = spec_leg_points(config, leg, direction, cos_down, sin_down);
            let bfoot = spec_leg_lengths(config).bfoot;
            let ahead = direction.times(bfoot.times(cos_down));
            &&& within(bfoot.times(cos_down), k)
            &&& within(bfoot.times(sin_down), k)
            &&& all_finite(points.b)
            &&& all_within(ahead, k)
            &&& all_within(points.b.plus(ahead), k)
            &&& all_within(points.foot, k)
        }),
        low * low <= square(
            direction.x.units() * cos_down.units(),
            pow2(149) * sin_down.units(),
            direction.z.units() * cos_down.units(),
        ) <= high * high,
    ensures
        ({
            let points = spec_leg_points(config, leg, direction, cos_down, sin_down);
            let bfoot = spec_leg_lengths(config).bfoot.units();
            let one = pow2(149) as int;
            let slack = 20 * (one * one * k);
            let scaled = (one * one) * (one * one) * square_distance(points.b, points.foot);
            &&& scaled <= (bfoot * high + slack) * (bfoot * high + slack)
            &&& bfoot * low >= slack ==> (bfoot * low - slack) * (bfoot * low - slack) <= scaled
        }),
{
    let zero = Scalar::ratio(0, 1);
    let one = Scalar::ratio(1, 1);
    let points = spec_leg_points(config, leg, direction, cos_down, sin_down);
    let length = spec_leg_lengths(config).bfoot;
    let drop = length.times(sin_down);
    let u = pow2(149) as int;
    let uu = u * u;
    let n = uu * k;
    law_zero();
    law_one();
    lemma_lower_length(config);
    law_product_with_zero(drop, zero);
    law_one_is_neutral(drop);
    law_negation_of_product(one, drop);
    law_negation(drop, drop);
    lemma_magnitude_sign(0);
    vstd::arithmetic::power2::lemma_pow2_pos(149);
    let side = zero.times(drop);
    let down = one.negated().times(drop);
    lemma_far_step(points.b.x, direction.x, length, cos_down, side, k);
    lemma_far_step(points.b.y, direction.y, length, cos_down, down, k);
    lemma_far_step(points.b.z, direction.z, length, cos_down, side, k);
    law_product_within(length, sin_down, k);
    let f = length.units();
    let x = direction.x.units() * cos_down.units();
    let y = u * sin_down.units();
    let z = direction.z.units() * cos_down.units();
    let e = drop.units() * u - f * sin_down.units();
    assert(-(2 * n) <= u * e <= 2 * n) by (nonlinear_arith)
        requires
            n == (u * u) * k,
            -(2 * k * u) <= e <= 2 * k * u,
            u >= 0,
    ;
    assert(uu * drop.units() == u * e + f * y) by (nonlinear_arith)
        requires
            e == drop.units() * u - f * sin_down.units(),
            y == u * sin_down.units(),
            uu == u * u,
    ;
    assert(direction.y.units() * cos_down.units() == 0) by (nonlinear_arith)
        requires
            direction.y.units() == 0,
    ;
    assert(f * 0 == 0 && uu * 0 == 0);
    assert(uu * -drop.units() == -(uu * drop.units())) by (nonlinear_arith);
    let dx = points.foot.x.units() - points.b.x.units();
    let dy = points.foot.y.units() - points.b.y.units();
    let dz = points.foot.z.units() - points.b.z.units();
    assert(f * -y == -(f * y)) by (nonlinear_arith);
    assert((-y) * (-y) == y * y) by (nonlinear_arith);
    assert(n >= 0) by (nonlinear_arith)
        requires
            n == (u * u) * k,
            k >= 0,
    ;
    lemma_stretched(f, x, -y, z, low as int, high as int);
    law_length_is_stable(
        (f * x, f * -y, f * z),
        (uu * dx, uu * dy, uu * dz),
        f * low,
        f * high,
        10 * n,
    );
    law_length_is_stretched(uu, dx, dy, dz);
}

/// The length of the lower segment, where it is a number, is finite and positive.
proof fn lemma_lower_length(config: RobotConfig)
    requires
        !spec_leg_lengths(config).bfoot.is_nan(),
    ensures
        spec_leg_lengths(config).bfoot.is_finite(),
        spec_leg_lengths(config).bfoot.units() > 0,
        Scalar::ratio(75, 1000).le(spec_leg_lengths(config).bfoot),
{
    let bfoot = spec_leg_lengths(config).bfoot;
    law_ratio_order(75, 1000, 190, 1000);
    law_ratio_is_finite(75, 1000);
    law_ratio_is_finite(190, 1000);
    let raw = config.links.femur_length_m.plus(
        config.links.tibia_length_m.times(Scalar::ratio(35, 100)),
    );
    law_clamp_is_within(raw, Scalar::ratio(75, 1000), Scalar::ratio(190, 1000));
    law_between_is_finite(Scalar::ratio(75, 1000), bfoot, Scalar::ratio(190, 1000));
    reveal(Scalar::spec_le);
    lemma_magnitude_sign(Scalar::ratio(75, 1000).code() as int);
}

/// The middle of a bar and half of its way along one axis lead to its ends, up to rounding.
proof fn lemma_ends(start: Scalar, end: Scalar, length: Scalar, k: nat)
    requires
        k >= 1,
        start.is_finite(),
        end.is_finite(),
        within(start.plus(end), k),
        within(start.plus(end).times(Scalar::ratio(5, 10)), k),
        within(end.minus(start), k),
        within(length, k),
        length.code() != 0,
        end.minus(start).over(length).is_finite(),
        size(end.minus(start).over(length).units()) <= 2 * pow2(149),
    ensures
        ({
            let one = pow2(149) as int;
            let middle = start.plus(end).times(Scalar::ratio(5, 10)).units();
            let way = end.minus(start).over(length).units() * length.units();
            &&& size(2 * (one * middle) + way - 2 * (one * end.units())) <= 9 * (one * k)
            &&& size(2 * (one * middle) - way - 2 * (one * start.units())) <= 9 * (one * k)
        }),
{
    let u = pow2(149) as int;
    let half = Scalar::ratio(5, 10);
    let w = start.plus(end);
    let middle = w.times(half);
    let d = end.minus(start);
    let q = d.over(length);
    let n = u * k;
    law_half();
    law_negation(start, start);
    law_sum_within(start, end, k);
    law_sum_within(end, start.negated(), k);
    law_product_within(w, half, k);
    law_quotient_is_close(d, length);
    vstd::arithmetic::power2::lemma_pow2_unfold(149);
    vstd::arithmetic::power2::lemma2_to64();
    vstd::arithmetic::power2::lemma_pow2_adds(24, 125);
    vstd::arithmetic::power2::lemma_pow2_pos(125);
    let e1 = w.units() - (start.units() + end.units());
    let e2 = d.units() - (end.units() - start.units());
    assert(2 * (w.units() * pow2(148)) == w.units() * u) by (nonlinear_arith)
        requires
            u == 2 * pow2(148),
    ;
    assert(2 * k * u == 2 * n) by (nonlinear_arith)
        requires
            n == u * k,
    ;
    assert(middle.units() * u == u * middle.units()) by (nonlinear_arith);
    assert(size(2 * (u * middle.units()) - w.units() * u) <= 4 * n);
    assert(-n <= u * e1 <= n) by (nonlinear_arith)
        requires
            n == u * k,
            -k <= e1 <= k,
            u >= 0,
    ;
    assert(-n <= u * e2 <= n) by (nonlinear_arith)
        requires
            n == u * k,
            -k <= e2 <= k,
            u >= 0,
    ;
    assert(w.units() * u == u * e1 + u * start.units() + u * end.units()) by (nonlinear_arith)
        requires
            e1 == w.units() - (start.units() + end.units()),
    ;
    assert(d.units() * u == u * e2 + u * end.units() - u * start.units()) by (nonlinear_arith)
        requires
            e2 == d.units() - (end.units() - start.units()),
    ;
    let e3 = size(q.units() * length.units() - d.units() * u);
    let l = size(length.units());
    let s = size(q.units());
    assert(l * (s + 0x80_0000) <= (0x100_0000 * k) * (3 * u)) by (nonlinear_arith)
        requires
            0 <= l <= 0x100_0000 * k,
            0 <= s <= 2 * u,
            0x80_0000 <= u,
    ;
    assert((0x100_0000 * k) * (3 * u) == 0x100_0000 * (3 * n)) by (nonlinear_arith)
        requires
            n == u * k,
    ;
    assert(e3 <= 3 * n);
}

/// A bar joins its ends, up to rounding: from its middle, half its length along its direction leads
/// to the one end, and half its length the other way to the other end.
///
/// Twice the places are given, in square units; `k` is `2^-24` of the largest coordinate.
pub proof fn law_bar_joins_its_ends(start: Vec3, end: Vec3, thickness: Scalar, k: nat)
    requires
        k >= 1,
        all_finite(start),
        all_finite(end),
        all_within(start.plus(end), k),
        all_within(end.minus(start), k),
        ({
            let bar = segment_transform(start, end, thickness);
            let along = bar.rotation->Along_0;
            &&& all_within(bar.translation, k)
            &&& within(bar.scale.z, k)
            &&& all_finite(along)
            &&& size(along.x.units()) <= 2 * pow2(149)
            &&& size(along.y.units()) <= 2 * pow2(149)
            &&& size(along.z.units()) <= 2 * pow2(149)
        }),
    ensures
        ({
            let bar = segment_transform(start, end, thickness);
            let along = bar.rotation->Along_0;
            let mid = bar.translation;
            let length = bar.scale.z.units();
            let one = pow2(149) as int;
            let slack = 9 * (one * k);
            &&& size(
                2 * (one * mid.x.units()) + along.x.units() * length - 2 * (one * end.x.units()),
            ) <= slack
            &&& size(
                2 * (one * mid.y.units()) + along.y.units() * length - 2 * (one * end.y.units()),
            ) <= slack
            &&& size(
                2 * (one * mid.z.units()) + along.z.units() * length - 2 * (one * end.z.units()),
            ) <= slack
            &&& size(
                2 * (one * mid.x.units()) - along.x.units() * length - 2 * (one * start.x.units()),
            ) <= slack
            &&& size(
                2 * (one * mid.y.units()) - along.y.units() * length - 2 * (one * start.y.units()),
            ) <= slack
            &&& size(
                2 * (one * mid.z.units()) - along.z.units() * length - 2 * (one * start.z.units()),
            ) <= slack
        }),
{
    let length = segment_transform(start, end, thickness).scale.z;
    law_ratio_order(1, 1000, 1, 1000);
    law_ratio_is_finite(1, 1000);
    law_max_is_at_least(end.minus(start).length(), Scalar::ratio(1, 1000));
    crate::order::law_above_positive_is_not_zero(Scalar::ratio(1, 1000), length);
    lemma_ends(start.x, end.x, length, k);
    lemma_ends(start.y, end.y, length, k);
    lemma_ends(start.z, end.z, length, k);
}

/// The square of a component of a way, up to its rounding.
proof fn lemma_square_within(d: Scalar, j: nat)
    requires
        j >= 1,
        d.is_finite(),
        within(d.times(d), j),
    ensures
        size(d.times(d).units() * pow2(149) - d.units() * d.units()) <= 2 * (j * pow2(149)),
        d.times(d).units() >= 0,
{
    law_product_within(d, d, j);
    assert(2 * j * pow2(149) == 2 * (j * pow2(149))) by (nonlinear_arith);
    reveal(Scalar::spec_times);
    let num = (magnitude(d.code() as int) * magnitude(d.code() as int)) as nat;
    lemma_nearest_exists(num / pow2(148), num % pow2(148) == 0);
    lemma_magnitude_sign(d.times(d).code() as int);
}

/// A bar of at least a millimetre is as long as the way between its ends, up to rounding: where
/// that lies between `low` and `high` units, the length of the bar, give or take `k` units, has a
/// square that lies between the squares of these, give or take `2 * k` units and eight times the
/// rounding of the square, which `j` stands for: `2^-24` of the square.
pub proof fn law_bar_has_its_length(
    start: Vec3,
    end: Vec3,
    thickness: Scalar,
    k: nat,
    j: nat,
    low: nat,
    high: nat,
)
    requires
        k >= 1,
        j >= 1,
        all_finite(start),
        all_finite(end),
        all_within(end.minus(start), k),
        ({
            let d = end.minus(start);
            &&& within(d.x.times(d.x), j)
            &&& within(d.y.times(d.y), j)
            &&& within(d.z.times(d.z), j)
            &&& within(d.x.times(d.x).plus(d.y.times(d.y)), j)
            &&& within(d.dot(d), j)
            &&& within(d.length(), k)
            &&& Scalar::ratio(1, 1000).le(d.length())
        }),
        low * low <= square_distance(start, end) <= high * high,
    ensures
        ({
            let length = segment_transform(start, end, thickness).scale.z.units();
            let slack = 8 * (j * pow2(149));
            &&& length >= k ==> (length - k) * (length - k) <= (high + 2 * k) * (high + 2 * k)
                + slack
            &&& low >= 2 * k ==> (low - 2 * k) * (low - 2 * k) <= (length + k) * (length + k)
                + slack
        }),
{
    let u = pow2(149) as int;
    let d = end.minus(start);
    let bar = segment_transform(start, end, thickness);
    law_order_is_total(d.length(), Scalar::ratio(1, 1000));
    law_order_is_total(Scalar::ratio(1, 1000), d.length());
    assert(bar.scale.z == d.length());
    law_negation(start.x, start.x);
    law_negation(start.y, start.y);
    law_negation(start.z, start.z);
    law_sum_within(end.x, start.x.negated(), k);
    law_sum_within(end.y, start.y.negated(), k);
    law_sum_within(end.z, start.z.negated(), k);
    let x = d.x.units();
    let y = d.y.units();
    let z = d.z.units();
    law_length_is_stable(
        (
            end.x.units() - start.x.units(),
            end.y.units() - start.y.units(),
            end.z.units() - start.z.units(),
        ),
        (x, y, z),
        low as int,
        high as int,
        k as int,
    );
    lemma_square_within(d.x, j);
    lemma_square_within(d.y, j);
    lemma_square_within(d.z, j);
    let p = d.x.times(d.x);
    let q = d.y.times(d.y);
    let r = d.z.times(d.z);
    let first = p.plus(q);
    let sum = first.plus(r);
    let n = j * u;
    law_sum_within(p, q, j);
    law_sum_within(first, r, j);
    let e1 = first.units() - (p.units() + q.units());
    let e2 = sum.units() - (first.units() + r.units());
    assert(-n <= e1 * u <= n && -n <= e2 * u <= n) by (nonlinear_arith)
        requires
            n == j * u,
            -j <= e1 <= j,
            -j <= e2 <= j,
            u >= 0,
    ;
    assert(sum.units() * u == e1 * u + e2 * u + p.units() * u + q.units() * u + r.units() * u)
        by (nonlinear_arith)
        requires
            e1 == first.units() - (p.units() + q.units()),
            e2 == sum.units() - (first.units() + r.units()),
    ;
    assert(size(sum.units() * u - square(x, y, z)) <= 8 * n);
    crate::accuracy::lemma_sum_units(p, q);
    crate::accuracy::lemma_sum_units(first, r);
    crate::accuracy::lemma_rounded_units_order(0, p.units() + q.units());
    crate::accuracy::lemma_rounded_units_order(0, first.units() + r.units());
    law_zero();
    law_ratio_is_finite(0, 1);
    crate::accuracy::lemma_rounded_units_keeps(Scalar::ratio(0, 1));
    law_root_within(sum, k);
}

/// Opposite steps from one place lead to opposite sides of it, up to rounding.
proof fn lemma_opposite_places(place: Scalar, left: Scalar, right: Scalar, k: nat)
    requires
        place.is_finite(),
        left.is_finite(),
        mirrored(left, right),
        within(place.plus(left), k),
        within(place.plus(right), k),
    ensures
        size(place.plus(left).units() + place.plus(right).units() - 2 * place.units()) <= 2 * k,
{
    law_mirrored(left, right);
    law_sum_within(place, left, k);
    law_sum_within(place, right, k);
}

/// The middles of two bars whose ends are on opposite sides of a place are so too, up to rounding.
proof fn lemma_opposite_middles(
    place: Scalar,
    left: (Scalar, Scalar),
    right: (Scalar, Scalar),
    k: nat,
)
    requires
        k >= 1,
        left.0.is_finite() && left.1.is_finite() && right.0.is_finite() && right.1.is_finite(),
        within(left.0.plus(left.1), k),
        within(right.0.plus(right.1), k),
        within(left.0.plus(left.1).times(Scalar::ratio(5, 10)), k),
        within(right.0.plus(right.1).times(Scalar::ratio(5, 10)), k),
        size(left.0.units() + right.0.units() - 2 * place.units()) <= 2 * k,
        size(left.1.units() + right.1.units() - 2 * place.units()) <= 2 * k,
    ensures
        size(
            left.0.plus(left.1).times(Scalar::ratio(5, 10)).units() + right.0.plus(right.1).times(
                Scalar::ratio(5, 10),
            ).units() - 2 * place.units(),
        ) <= 7 * k,
{
    law_sum_within(left.0, left.1, k);
    law_sum_within(right.0, right.1, k);
    lemma_half_within(left.0.plus(left.1), k);
    lemma_half_within(right.0.plus(right.1), k);
}

/// Half a number, up to rounding.
proof fn lemma_half_within(x: Scalar, k: nat)
    requires
        k >= 1,
        x.is_finite(),
        within(x.times(Scalar::ratio(5, 10)), k),
    ensures
        size(2 * x.times(Scalar::ratio(5, 10)).units() - x.units()) <= 4 * k,
{
    let u = pow2(149) as int;
    let h = x.times(Scalar::ratio(5, 10)).units();
    law_half();
    law_product_within(x, Scalar::ratio(5, 10), k);
    vstd::arithmetic::power2::lemma_pow2_unfold(149);
    vstd::arithmetic::power2::lemma_pow2_pos(148);
    let e = 2 * h - x.units();
    assert(e * u == 2 * (h * u) - 2 * (x.units() * pow2(148))) by (nonlinear_arith)
        requires
            e == 2 * h - x.units(),
            u == 2 * pow2(148),
    ;
    assert(2 * (2 * k * u) == 4 * k * u) by (nonlinear_arith);
    assert(-(4 * k) <= e <= 4 * k) by (nonlinear_arith)
        requires
            -(4 * k * u) <= e * u <= 4 * k * u,
            u > 0,
    ;
}

/// Whether the sums that place a part along the `x` axis are finite and at most `k` times `2^24`
/// units large.
pub open spec fn placed_within(part: VisualPart, origin: Vec3, turned: LegPoints, k: nat) -> bool {
    let a = origin.x.plus(turned.a.x);
    let b = origin.x.plus(turned.b.x);
    let foot = origin.x.plus(turned.foot.x);
    &&& turned.a.x.is_finite() && turned.b.x.is_finite() && turned.foot.x.is_finite()
    &&& within(a, k) && within(b, k) && within(foot, k)
    &&& part == VisualPart::LinkAB ==> within(a.plus(b), k) && within(
        a.plus(b).times(Scalar::ratio(5, 10)),
        k,
    )
    &&& part == VisualPart::LinkBFoot ==> within(b.plus(foot), k) && within(
        b.plus(foot).times(Scalar::ratio(5, 10)),
        k,
    )
}

/// The parts of legs whose joints are mirror images are drawn on opposite sides of the body, as high
/// and as far ahead as each other; `x` is so up to rounding, `k` being `2^-24` of the largest
/// coordinate.
pub proof fn law_opposite_parts_are_drawn_opposite(
    part: VisualPart,
    origin: Vec3,
    left: LegPoints,
    right: LegPoints,
    thickness: Scalar,
    k: nat,
)
    requires
        k >= 1,
        origin.x.is_finite(),
        mirrored(left.a.x, right.a.x) && left.a.y == right.a.y && left.a.z == right.a.z,
        mirrored(left.b.x, right.b.x) && left.b.y == right.b.y && left.b.z == right.b.z,
        mirrored(left.foot.x, right.foot.x) && left.foot.y == right.foot.y && left.foot.z
            == right.foot.z,
        placed_within(part, origin, left, k),
        placed_within(part, origin, right, k),
    ensures
        ({
            let l = part_placement(part, origin, left, thickness).translation;
            let r = part_placement(part, origin, right, thickness).translation;
            &&& l.y == r.y
            &&& l.z == r.z
            &&& size(l.x.units() + r.x.units() - 2 * origin.x.units()) <= 7 * k
        }),
{
    lemma_opposite_places(origin.x, left.a.x, right.a.x, k);
    lemma_opposite_places(origin.x, left.b.x, right.b.x, k);
    lemma_opposite_places(origin.x, left.foot.x, right.foot.x, k);
    let la = origin.x.plus(left.a.x);
    let ra = origin.x.plus(right.a.x);
    let lb = origin.x.plus(left.b.x);
    let rb = origin.x.plus(right.b.x);
    let lf = origin.x.plus(left.foot.x);
    let rf = origin.x.plus(right.foot.x);
    if part == VisualPart::LinkAB {
        lemma_opposite_middles(origin.x, (la, lb), (ra, rb), k);
    }
    if part == VisualPart::LinkBFoot {
        lemma_opposite_middles(origin.x, (lb, lf), (rb, rf), k);
    }
}

} // verus!
