//! The legs: their parts, their geometry and how they are drawn.
//!
//! Rotations are not computed here.  The direction of a leg, the sine and the cosine of its
//! inclination and the points turned with the body are handed in, evaluated at the angles that
//! [`leg_angles`] gives.

use crate::accuracy::law_product_with_part_is_finite;
use crate::config::RobotConfig;
use crate::control::ActionState;
use crate::order::{law_clamp_is_within, law_lt_is_transitive, law_max_is_at_least, law_negation};
use crate::order::{law_negation_of_product, law_one, law_one_is_neutral, law_order_is_total};
use crate::order::{law_product_of_infinity, law_ratio_is_finite, law_ratio_order};
use crate::order::{law_sum_is_number, law_sum_with_ratio};
use crate::scalar::Scalar;
use crate::vector::Vec3;
use vstd::prelude::*;

verus! {

/// A visible part of a leg.
#[derive(Clone, Copy, Debug, PartialEq, Eq, Structural)]
pub enum VisualPart {
    /// The servo that swings the leg.
    ServoA,
    /// The servo that lifts it.
    ServoB,
    /// The segment between the servos.
    LinkAB,
    /// The segment from the second servo to the foot.
    LinkBFoot,
    /// The foot.
    Foot,
}

/// A part of one of the legs.
#[derive(Clone, Copy, Debug)]
pub struct LegVisual {
    /// The leg's name.
    pub leg: &'static str,
    /// The part.
    pub part: VisualPart,
}

/// The name of a leg, in the order in which the legs are listed.
pub open spec fn leg_name(i: int) -> Seq<char> {
    if i == 0 {
        "FL"@
    } else if i == 1 {
        "FR"@
    } else if i == 2 {
        "BL"@
    } else {
        "BR"@
    }
}

/// The parts of a leg, in the order in which they are listed.
pub open spec fn leg_part(i: int) -> VisualPart {
    if i == 0 {
        VisualPart::ServoA
    } else if i == 1 {
        VisualPart::ServoB
    } else if i == 2 {
        VisualPart::LinkAB
    } else if i == 3 {
        VisualPart::LinkBFoot
    } else {
        VisualPart::Foot
    }
}

/// The names of the legs.
pub fn leg_names() -> (r: [&'static str; 4])
    ensures
        forall|i: int| 0 <= i < 4 ==> (#[trigger] r@[i])@ == leg_name(i),
{
    ["FL", "FR", "BL", "BR"]
}

/// The names of the joints, in the order of their targets.
pub fn joint_order() -> (r: [&'static str; 12])
    ensures
        forall|i: int|
            0 <= i < 12 ==> (#[trigger] r@[i])@ == leg_name(i / 3) + (if i % 3 == 0 {
                "_hip_yaw"@
            } else if i % 3 == 1 {
                "_hip_pitch"@
            } else {
                "_knee"@
            }),
{
    let r = [
        "FL_hip_yaw",
        "FL_hip_pitch",
        "FL_knee",
        "FR_hip_yaw",
        "FR_hip_pitch",
        "FR_knee",
        "BL_hip_yaw",
        "BL_hip_pitch",
        "BL_knee",
        "BR_hip_yaw",
        "BR_hip_pitch",
        "BR_knee",
    ];
    proof {
        reveal_strlit("FL");
        reveal_strlit("FR");
        reveal_strlit("BL");
        reveal_strlit("BR");
        reveal_strlit("_hip_yaw");
        reveal_strlit("_hip_pitch");
        reveal_strlit("_knee");
        reveal_strlit("FL_hip_yaw");
        reveal_strlit("FL_hip_pitch");
        reveal_strlit("FL_knee");
        reveal_strlit("FR_hip_yaw");
        reveal_strlit("FR_hip_pitch");
        reveal_strlit("FR_knee");
        reveal_strlit("BL_hip_yaw");
        reveal_strlit("BL_hip_pitch");
        reveal_strlit("BL_knee");
        reveal_strlit("BR_hip_yaw");
        reveal_strlit("BR_hip_pitch");
        reveal_strlit("BR_knee");
        assert("FL_hip_yaw"@ =~= "FL"@ + "_hip_yaw"@);
        assert("FL_hip_pitch"@ =~= "FL"@ + "_hip_pitch"@);
        assert("FL_knee"@ =~= "FL"@ + "_knee"@);
        assert("FR_hip_yaw"@ =~= "FR"@ + "_hip_yaw"@);
        assert("FR_hip_pitch"@ =~= "FR"@ + "_hip_pitch"@);
        assert("FR_knee"@ =~= "FR"@ + "_knee"@);
        assert("BL_hip_yaw"@ =~= "BL"@ + "_hip_yaw"@);
        assert("BL_hip_pitch"@ =~= "BL"@ + "_hip_pitch"@);
        assert("BL_knee"@ =~= "BL"@ + "_knee"@);
        assert("BR_hip_yaw"@ =~= "BR"@ + "_hip_yaw"@);
        assert("BR_hip_pitch"@ =~= "BR"@ + "_hip_pitch"@);
        assert("BR_knee"@ =~= "BR"@ + "_knee"@);
    }
    r
}

/// Whether two texts are the same.
fn same_text(a: &str, b: &str) -> (r: bool)
    ensures
        r == (a@ == b@),
{
    let n: usize = a.unicode_len();
    if n != b.unicode_len() {
        return false;
    }
    let mut i: usize = 0;
    while i < n
        invariant
            i <= n,
            n == a@.len(),
            n == b@.len(),
            forall|j: int| 0 <= j < i ==> a@[j] == b@[j],
        decreases n - i,
    {
        if a.get_char(i) != b.get_char(i) {
            return false;
        }
        i = i + 1;
    }
    assert(a@ =~= b@);
    true
}

/// On which side of the body a leg is: -1 is left, 1 is right.
pub open spec fn leg_side(leg: Seq<char>) -> Scalar {
    if leg == "FL"@ || leg == "BL"@ {
        Scalar::ratio(1, 1).negated()
    } else {
        Scalar::ratio(1, 1)
    }
}

/// At which end of the body a leg is: 1 is front, -1 is back.
pub open spec fn leg_end(leg: Seq<char>) -> Scalar {
    if leg == "FL"@ || leg == "FR"@ {
        Scalar::ratio(1, 1)
    } else {
        Scalar::ratio(1, 1).negated()
    }
}

/// The side and the end of the body where a leg is; any other name stands for the last leg.
pub fn leg_signs(leg: &str) -> (r: (Scalar, Scalar))
    ensures
        r.0 == leg_side(leg@),
        r.1 == leg_end(leg@),
{
    let one = Scalar::ratio(1, 1);
    proof {
        lemma_leg_names_differ();
    }
    if same_text(leg, "FL") {
        (one.negated(), one)
    } else if same_text(leg, "FR") {
        (one, one)
    } else if same_text(leg, "BL") {
        (one.negated(), one.negated())
    } else {
        (one, one.negated())
    }
}

/// The index of a leg's first joint target.
pub open spec fn joint_base(leg: Seq<char>) -> int {
    if leg == "FL"@ {
        0
    } else if leg == "FR"@ {
        3
    } else if leg == "BL"@ {
        6
    } else {
        9
    }
}

/// The index of a leg's first joint target; any other name stands for the last leg.
pub fn joint_base_index(leg: &str) -> (r: usize)
    ensures
        r == joint_base(leg@),
        r <= 9,
{
    if same_text(leg, "FL") {
        0
    } else if same_text(leg, "FR") {
        3
    } else if same_text(leg, "BL") {
        6
    } else {
        9
    }
}

/// No two legs have the same name.
pub proof fn lemma_leg_names_differ()
    ensures
        "FL"@ != "FR"@,
        "FL"@ != "BL"@,
        "FL"@ != "BR"@,
        "FR"@ != "BL"@,
        "FR"@ != "BR"@,
        "BL"@ != "BR"@,
{
    reveal_strlit("FL");
    reveal_strlit("FR");
    reveal_strlit("BL");
    reveal_strlit("BR");
    assert("FL"@[0] != "BL"@[0]);
    assert("FL"@[1] != "FR"@[1]);
    assert("FL"@[0] != "BR"@[0]);
    assert("FR"@[0] != "BL"@[0]);
    assert("FR"@[0] != "BR"@[0]);
    assert("BL"@[1] != "BR"@[1]);
}

/// The legs are told apart by their sides and ends, and no two legs share a joint target.
pub proof fn law_legs_are_distinct(i: int, j: int)
    requires
        0 <= i < 4,
        0 <= j < 4,
        i != j,
    ensures
        joint_base(leg_name(i)) == 3 * i,
        joint_base(leg_name(i)) != joint_base(leg_name(j)),
        leg_side(leg_name(i)) != leg_side(leg_name(j)) || leg_end(leg_name(i)) != leg_end(
            leg_name(j),
        ),
{
    lemma_leg_names_differ();
}

/// The parts of all legs: leg by leg, and part by part within a leg.
pub fn leg_visuals() -> (r: Vec<LegVisual>)
    ensures
        r@.len() == 20,
        forall|i: int|
            0 <= i < 20 ==> {
                &&& (#[trigger] r@[i]).leg@ == leg_name(i / 5)
                &&& r@[i].part == leg_part(i % 5)
            },
{
    let names = leg_names();
    let mut visuals: Vec<LegVisual> = Vec::new();
    let mut n: usize = 0;
    while n < 4
        invariant
            n <= 4,
            visuals@.len() == 5 * n,
            forall|i: int| 0 <= i < 4 ==> (#[trigger] names@[i])@ == leg_name(i),
            forall|i: int|
                0 <= i < 5 * n ==> {
                    &&& (#[trigger] visuals@[i]).leg@ == leg_name(i / 5)
                    &&& visuals@[i].part == leg_part(i % 5)
                },
        decreases 4 - n,
    {
        let leg = names[n];
        assert(leg@ == leg_name(n as int));
        visuals.push(LegVisual { leg, part: VisualPart::ServoA });
        visuals.push(LegVisual { leg, part: VisualPart::ServoB });
        visuals.push(LegVisual { leg, part: VisualPart::LinkAB });
        visuals.push(LegVisual { leg, part: VisualPart::LinkBFoot });
        visuals.push(LegVisual { leg, part: VisualPart::Foot });
        n = n + 1;
    }
    visuals
}

/// The sizes that the robot's body is drawn and collides with.
#[derive(Clone, Copy, Debug, PartialEq, Eq, Structural)]
pub struct BodyShape {
    /// The lengths of the edges of the chassis.
    pub size: Vec3,
    /// The half lengths of the edges, for collisions.
    pub half_extents: Vec3,
    /// The edge of a servo cube.
    pub servo_side: Scalar,
    /// The radius of a foot.
    pub foot_radius: Scalar,
}

/// The sizes that the robot's body is drawn and collides with.
pub open spec fn spec_body_shape(config: RobotConfig) -> BodyShape {
    let size = Vec3::new(
        config.chassis.width_m,
        config.chassis.height_m,
        config.chassis.length_m,
    );
    BodyShape {
        size,
        half_extents: size.over(Scalar::ratio(2, 1)),
        servo_side: Scalar::ratio(30, 1000),
        foot_radius: config.links.foot_radius_m,
    }
}

/// The sizes that the robot's body is drawn and collides with.
pub fn body_shape(config: &RobotConfig) -> (r: BodyShape)
    ensures
        r.size == Vec3::new(
            config.chassis.width_m,
            config.chassis.height_m,
            config.chassis.length_m,
        ),
        r.half_extents == r.size.over(Scalar::ratio(2, 1)),
        r.servo_side == Scalar::ratio(30, 1000),
        r.foot_radius == config.links.foot_radius_m,
        r == spec_body_shape(*config),
{
    let size = Vec3::new(
        config.chassis.width_m,
        config.chassis.height_m,
        config.chassis.length_m,
    );
    BodyShape {
        size,
        half_extents: size.over(Scalar::ratio(2, 1)),
        servo_side: Scalar::ratio(30, 1000),
        foot_radius: config.links.foot_radius_m,
    }
}

/// The lengths that a leg is drawn with.
#[derive(Clone, Copy, Debug, PartialEq, Eq, Structural)]
pub struct LegLengths {
    /// From servo A to servo B.
    pub ab: Scalar,
    /// From servo B to the foot.
    pub bfoot: Scalar,
    /// The thickness of a segment.
    pub thickness: Scalar,
}

/// The lengths that a leg is drawn with.
pub open spec fn spec_leg_lengths(config: RobotConfig) -> LegLengths {
    let links = config.links;
    LegLengths {
        ab: links.coxa_length_m.max(Scalar::ratio(35, 1000)),
        bfoot: links.femur_length_m.plus(links.tibia_length_m.times(Scalar::ratio(35, 100))).clamp(
            Scalar::ratio(75, 1000),
            Scalar::ratio(190, 1000),
        ),
        thickness: links.link_radius_m.times(Scalar::ratio(18, 10)).clamp(
            Scalar::ratio(12, 1000),
            Scalar::ratio(45, 1000),
        ),
    }
}

/// The lengths that a leg is drawn with.
pub fn leg_lengths(config: &RobotConfig) -> (r: LegLengths)
    ensures
        r == spec_leg_lengths(*config),
{
    proof {
        law_ratio_order(75, 1000, 190, 1000);
        law_ratio_order(12, 1000, 45, 1000);
    }
    let links = config.links;
    LegLengths {
        ab: links.coxa_length_m.max(Scalar::ratio(35, 1000)),
        bfoot: links.femur_length_m.plus(links.tibia_length_m.times(Scalar::ratio(35, 100))).clamp(
            Scalar::ratio(75, 1000),
            Scalar::ratio(190, 1000),
        ),
        thickness: links.link_radius_m.times(Scalar::ratio(18, 10)).clamp(
            Scalar::ratio(12, 1000),
            Scalar::ratio(45, 1000),
        ),
    }
}

/// The angles of a leg, in radians.
#[derive(Clone, Copy, Debug, PartialEq, Eq, Structural)]
pub struct LegAngles {
    /// How far the leg is swung about the vertical axis.
    pub yaw: Scalar,
    /// How far the lower segment points down from the horizontal.
    pub down: Scalar,
}

/// The angles of a leg: the first servo swings it, the second one lifts it from an inclination of
/// 58 degrees, which the knee adds to, between 18 and 78 degrees.
pub open spec fn spec_leg_angles(leg: Seq<char>, joint_targets: Seq<Scalar>) -> LegAngles {
    let base = joint_base(leg);
    LegAngles {
        yaw: leg_side(leg).negated().times(joint_targets[base]),
        down: Scalar::ratio(101_229_095, 100_000_000).plus(joint_targets[base + 1]).minus(
            joint_targets[base + 2].times(Scalar::ratio(55, 100)),
        ).clamp(Scalar::ratio(31_415_927, 100_000_000), Scalar::ratio(136_135_685, 100_000_000)),
    }
}

/// The angles of a leg: the first servo swings it, the second one lifts it from an inclination of
/// 58 degrees, which the knee adds to, between 18 and 78 degrees.
pub fn leg_angles(leg: &str, action: &ActionState) -> (r: LegAngles)
    ensures
        r == spec_leg_angles(leg@, action.joint_targets@),
{
    proof {
        law_ratio_order(31_415_927, 100_000_000, 136_135_685, 100_000_000);
    }
    let (side, _front) = leg_signs(leg);
    let base: usize = joint_base_index(leg);
    let hip_yaw = action.joint_targets[base];
    let hip_pitch = action.joint_targets[base + 1];
    let knee = action.joint_targets[base + 2];
    LegAngles {
        yaw: side.negated().times(hip_yaw),
        down: Scalar::ratio(101_229_095, 100_000_000).plus(hip_pitch).minus(
            knee.times(Scalar::ratio(55, 100)),
        ).clamp(Scalar::ratio(31_415_927, 100_000_000), Scalar::ratio(136_135_685, 100_000_000)),
    }
}

/// The direction in which an unswung leg points away from the body.
pub open spec fn spec_leg_outward(leg: Seq<char>) -> Vec3 {
    Vec3::new(leg_side(leg), Scalar::ratio(0, 1), Scalar::ratio(0, 1))
}

/// The direction in which an unswung leg points away from the body.
pub fn leg_outward(leg: &str) -> (r: Vec3)
    ensures
        r == Vec3::new(leg_side(leg@), Scalar::ratio(0, 1), Scalar::ratio(0, 1)),
        r == spec_leg_outward(leg@),
{
    let (side, _front) = leg_signs(leg);
    Vec3::new(side, Scalar::ratio(0, 1), Scalar::ratio(0, 1))
}

/// The joints of a leg.
#[derive(Clone, Copy, Debug, PartialEq, Eq, Structural)]
pub struct LegPoints {
    /// Servo A, at the hip.
    pub a: Vec3,
    /// Servo B.
    pub b: Vec3,
    /// The foot.
    pub foot: Vec3,
}

/// The joints of a leg that points in the given direction, as seen from the body.
pub open spec fn spec_leg_points(
    config: RobotConfig,
    leg: Seq<char>,
    direction: Vec3,
    cos_down: Scalar,
    sin_down: Scalar,
) -> LegPoints {
    let zero = Scalar::ratio(0, 1);
    let lengths = spec_leg_lengths(config);
    let a = Vec3::new(
        leg_side(leg).times(config.chassis.width_m).times(Scalar::ratio(54, 100)),
        zero,
        leg_end(leg).times(config.chassis.length_m).times(Scalar::ratio(36, 100)),
    );
    let b = a.plus(direction.times(lengths.ab));
    let horizontal = direction.times(lengths.bfoot.times(cos_down));
    let vertical = Vec3::new(zero, Scalar::ratio(1, 1).negated(), zero).times(
        lengths.bfoot.times(sin_down),
    );
    LegPoints { a, b, foot: b.plus(horizontal).plus(vertical) }
}

/// The joints of a leg that points in the given direction, as seen from the body.
pub fn leg_points(
    config: &RobotConfig,
    leg: &str,
    direction: Vec3,
    cos_down: Scalar,
    sin_down: Scalar,
) -> (r: LegPoints)
    ensures
        r == spec_leg_points(*config, leg@, direction, cos_down, sin_down),
{
    let (side, front) = leg_signs(leg);
    let lengths = leg_lengths(config);
    let zero = Scalar::ratio(0, 1);
    let a = Vec3::new(
        side.times(config.chassis.width_m).times(Scalar::ratio(54, 100)),
        zero,
        front.times(config.chassis.length_m).times(Scalar::ratio(36, 100)),
    );
    let b = a.plus(direction.times(lengths.ab));
    let horizontal = direction.times(lengths.bfoot.times(cos_down));
    let vertical = Vec3::new(zero, Scalar::ratio(1, 1).negated(), zero).times(
        lengths.bfoot.times(sin_down),
    );
    LegPoints { a, b, foot: b.plus(horizontal).plus(vertical) }
}

/// How a part is turned.
#[derive(Clone, Copy, Debug, PartialEq, Eq, Structural)]
pub enum PartRotation {
    /// With the body.
    WithBody,
    /// Not at all.
    Upright,
    /// So that its `z` axis points along a direction.
    Along(Vec3),
}

/// Where a part is drawn, how it is turned and how it is stretched.
#[derive(Clone, Copy, Debug, PartialEq, Eq, Structural)]
pub struct PartPlacement {
    /// The centre.
    pub translation: Vec3,
    /// The rotation.
    pub rotation: PartRotation,
    /// The factors along the axes.
    pub scale: Vec3,
}

/// The placement of a bar of the given thickness between two points.
pub open spec fn spec_segment_transform(
    start: Vec3,
    end: Vec3,
    thickness: Scalar,
) -> PartPlacement {
    let dir = end.minus(start);
    let length = dir.length().max(Scalar::ratio(1, 1000));
    PartPlacement {
        translation: start.plus(end).times(Scalar::ratio(5, 10)),
        rotation: PartRotation::Along(dir.over(length)),
        scale: Vec3::new(thickness, thickness, length),
    }
}

/// The placement of a bar of the given thickness between two points.
#[verifier::when_used_as_spec(spec_segment_transform)]
pub fn segment_transform(start: Vec3, end: Vec3, thickness: Scalar) -> (r: PartPlacement)
    ensures
        r == segment_transform(start, end, thickness),
{
    let dir = end.minus(start);
    let length = dir.length().max(Scalar::ratio(1, 1000));
    PartPlacement {
        translation: start.plus(end).times(Scalar::ratio(5, 10)),
        rotation: PartRotation::Along(dir.over(length)),
        scale: Vec3::new(thickness, thickness, length),
    }
}

/// The placement of a cube or a ball at a point.
pub open spec fn at_point(point: Vec3, rotation: PartRotation) -> PartPlacement {
    let one = Scalar::ratio(1, 1);
    PartPlacement { translation: point, rotation, scale: Vec3::new(one, one, one) }
}

/// The placement of a part of a leg whose joints, turned with the body, are `turned`.
pub open spec fn part_placement(
    part: VisualPart,
    origin: Vec3,
    turned: LegPoints,
    thickness: Scalar,
) -> PartPlacement {
    let a = origin.plus(turned.a);
    let b = origin.plus(turned.b);
    let foot = origin.plus(turned.foot);
    match part {
        VisualPart::ServoA => at_point(a, PartRotation::WithBody),
        VisualPart::ServoB => at_point(b, PartRotation::WithBody),
        VisualPart::LinkAB => spec_segment_transform(a, b, thickness),
        VisualPart::LinkBFoot => spec_segment_transform(
            b,
            foot,
            thickness.times(Scalar::ratio(85, 100)),
        ),
        VisualPart::Foot => at_point(foot, PartRotation::Upright),
    }
}

/// Where a part of a leg is drawn, as thick as the configuration says.
pub open spec fn placed_part(
    config: RobotConfig,
    part: VisualPart,
    origin: Vec3,
    turned: LegPoints,
) -> PartPlacement {
    part_placement(part, origin, turned, spec_leg_lengths(config).thickness)
}

/// Where a part of a leg is drawn, for a body at `origin` and joints that were turned with it.
pub fn place_part(
    config: &RobotConfig,
    part: VisualPart,
    origin: Vec3,
    turned: LegPoints,
) -> (r: PartPlacement)
    ensures
        r == part_placement(part, origin, turned, spec_leg_lengths(*config).thickness),
        r == placed_part(*config, part, origin, turned),
{
    let thickness = leg_lengths(config).thickness;
    let a = origin.plus(turned.a);
    let b = origin.plus(turned.b);
    let foot = origin.plus(turned.foot);
    let one = Scalar::ratio(1, 1);
    let unit = Vec3::new(one, one, one);
    match part {
        VisualPart::ServoA => PartPlacement {
            translation: a,
            rotation: PartRotation::WithBody,
            scale: unit,
        },
        VisualPart::ServoB => PartPlacement {
            translation: b,
            rotation: PartRotation::WithBody,
            scale: unit,
        },
        VisualPart::LinkAB => segment_transform(a, b, thickness),
        VisualPart::LinkBFoot => segment_transform(
            b,
            foot,
            thickness.times(Scalar::ratio(85, 100)),
        ),
        VisualPart::Foot => PartPlacement {
            translation: foot,
            rotation: PartRotation::Upright,
            scale: unit,
        },
    }
}

/// Whatever numbers the joint targets are, the lower segment of a leg points down by between 18
/// and 78 degrees; only targets of the hip and the knee that are infinite alike leave its
/// inclination undefined.
pub proof fn law_leg_points_down(leg: Seq<char>, joint_targets: Seq<Scalar>)
    requires
        ({
            let pitch = joint_targets[joint_base(leg) + 1];
            let knee = joint_targets[joint_base(leg) + 2];
            &&& !pitch.is_nan()
            &&& !knee.is_nan()
            &&& pitch.is_finite() || knee.is_finite() || pitch.is_negative() != knee.is_negative()
        }),
    ensures
        Scalar::ratio(31_415_927, 100_000_000).le(spec_leg_angles(leg, joint_targets).down),
        spec_leg_angles(leg, joint_targets).down.le(Scalar::ratio(136_135_685, 100_000_000)),
{
    let base = joint_base(leg);
    let neutral = Scalar::ratio(101_229_095, 100_000_000);
    let pitch = joint_targets[base + 1];
    let knee = joint_targets[base + 2];
    let part = Scalar::ratio(55, 100);
    law_ratio_order(31_415_927, 100_000_000, 136_135_685, 100_000_000);
    law_sum_with_ratio(101_229_095, 100_000_000, pitch);
    if knee.is_finite() {
        law_ratio_order(55, 100, 1, 1);
        law_ratio_order(1, 1, 55, 100);
        law_product_with_part_is_finite(knee, part);
    } else {
        law_ratio_is_finite(55, 100);
        law_product_of_infinity(knee, part);
    }
    law_sum_is_number(neutral.plus(pitch), knee.times(part));
    law_clamp_is_within(
        neutral.plus(pitch).minus(knee.times(part)),
        Scalar::ratio(31_415_927, 100_000_000),
        Scalar::ratio(136_135_685, 100_000_000),
    );
}

/// A leg is drawn at least 35 mm long from A to B.
pub proof fn law_upper_segment_is_visible(config: RobotConfig)
    ensures
        Scalar::ratio(35, 1000).le(spec_leg_lengths(config).ab),
{
    law_ratio_order(35, 1000, 35, 1000);
    law_max_is_at_least(config.links.coxa_length_m, Scalar::ratio(35, 1000));
}

/// No bar is drawn shorter than a millimetre.
pub proof fn law_bars_have_length(start: Vec3, end: Vec3, thickness: Scalar)
    ensures
        Scalar::ratio(1, 1000).le(segment_transform(start, end, thickness).scale.z),
{
    law_ratio_order(1, 1000, 1, 1000);
    law_max_is_at_least(end.minus(start).length(), Scalar::ratio(1, 1000));
}

/// Each leg has its corner of the body and its three joint targets; the left side is negative, and
/// so is the back.
pub proof fn law_legs_have_their_corners()
    ensures
        ({
            let one = Scalar::ratio(1, 1);
            &&& leg_side("FL"@) == one.negated() && leg_end("FL"@) == one && joint_base("FL"@) == 0
            &&& leg_side("FR"@) == one && leg_end("FR"@) == one && joint_base("FR"@) == 3
            &&& leg_side("BL"@) == one.negated() && leg_end("BL"@) == one.negated() && joint_base(
                "BL"@,
            ) == 6
            &&& leg_side("BR"@) == one && leg_end("BR"@) == one.negated() && joint_base("BR"@) == 9
            &&& leg_name(0) == "FL"@ && leg_name(1) == "FR"@ && leg_name(2) == "BL"@ && leg_name(3)
                == "BR"@
        }),
{
    lemma_leg_names_differ();
}

/// A leg's first target swings it, a leg on the left by the angle itself and one on the right by
/// its opposite.  Its inclination is 58 degrees and the second target, less 0.55 of the third one,
/// and stops at 18 and 78 degrees.
pub proof fn law_targets_turn_the_leg(leg: Seq<char>, joint_targets: Seq<Scalar>)
    requires
        leg == "FL"@ || leg == "FR"@ || leg == "BL"@ || leg == "BR"@,
        forall|i: int| 0 <= i < 12 ==> !(#[trigger] joint_targets[i]).is_nan(),
    ensures
        ({
            let angles = spec_leg_angles(leg, joint_targets);
            let base: int = if leg == "FL"@ {
                0
            } else if leg == "FR"@ {
                3
            } else if leg == "BL"@ {
                6
            } else {
                9
            };
            let low = Scalar::ratio(31_415_927, 100_000_000);
            let high = Scalar::ratio(136_135_685, 100_000_000);
            let down = Scalar::ratio(101_229_095, 100_000_000).plus(joint_targets[base + 1]).minus(
                joint_targets[base + 2].times(Scalar::ratio(55, 100)),
            );
            &&& leg == "FL"@ || leg == "BL"@ ==> angles.yaw == joint_targets[base]
            &&& leg == "FR"@ || leg == "BR"@ ==> angles.yaw == joint_targets[base].negated()
            &&& low.le(down) && down.le(high) ==> angles.down == down
            &&& down.lt(low) ==> angles.down == low
            &&& high.lt(down) ==> angles.down == high
        }),
{
    lemma_leg_names_differ();
    let base = joint_base(leg);
    let low = Scalar::ratio(31_415_927, 100_000_000);
    let high = Scalar::ratio(136_135_685, 100_000_000);
    let down = Scalar::ratio(101_229_095, 100_000_000).plus(joint_targets[base + 1]).minus(
        joint_targets[base + 2].times(Scalar::ratio(55, 100)),
    );
    law_one();
    law_negation(Scalar::ratio(1, 1), low);
    law_one_is_neutral(joint_targets[base]);
    law_negation_of_product(Scalar::ratio(1, 1), joint_targets[base]);
    law_ratio_order(31_415_927, 100_000_000, 136_135_685, 100_000_000);
    law_clamp_is_within(down, low, high);
    law_lt_is_transitive(low, high, down);
    law_order_is_total(down, low);
    law_order_is_total(low, down);
}

/// A leg is drawn with the lengths that are configured, within what can be seen: from A to B the
/// coxa, at least 35 mm; from B to the foot the femur and 0.35 of the tibia, between 75 and 190 mm;
/// 1.8 times the radius thick, between 12 and 45 mm.
pub proof fn law_legs_have_their_lengths(config: RobotConfig)
    ensures
        ({
            let lengths = spec_leg_lengths(config);
            let links = config.links;
            let least = Scalar::ratio(35, 1000);
            let short = Scalar::ratio(75, 1000);
            let long = Scalar::ratio(190, 1000);
            let thin = Scalar::ratio(12, 1000);
            let thick = Scalar::ratio(45, 1000);
            let lower = links.femur_length_m.plus(
                links.tibia_length_m.times(Scalar::ratio(35, 100)),
            );
            let width = links.link_radius_m.times(Scalar::ratio(18, 10));
            &&& least.le(links.coxa_length_m) ==> lengths.ab == links.coxa_length_m
            &&& !least.le(links.coxa_length_m) ==> lengths.ab == least
            &&& short.le(lower) && lower.le(long) ==> lengths.bfoot == lower
            &&& lower.lt(short) ==> lengths.bfoot == short
            &&& long.lt(lower) ==> lengths.bfoot == long
            &&& thin.le(width) && width.le(thick) ==> lengths.thickness == width
            &&& width.lt(thin) ==> lengths.thickness == thin
            &&& thick.lt(width) ==> lengths.thickness == thick
        }),
{
    let links = config.links;
    let least = Scalar::ratio(35, 1000);
    let short = Scalar::ratio(75, 1000);
    let long = Scalar::ratio(190, 1000);
    let thin = Scalar::ratio(12, 1000);
    let thick = Scalar::ratio(45, 1000);
    let lower = links.femur_length_m.plus(links.tibia_length_m.times(Scalar::ratio(35, 100)));
    let width = links.link_radius_m.times(Scalar::ratio(18, 10));
    law_ratio_order(35, 1000, 35, 1000);
    law_ratio_order(75, 1000, 190, 1000);
    law_ratio_order(12, 1000, 45, 1000);
    law_order_is_total(links.coxa_length_m, least);
    law_order_is_total(least, links.coxa_length_m);
    law_clamp_is_within(lower, short, long);
    law_lt_is_transitive(short, long, lower);
    law_order_is_total(lower, short);
    law_order_is_total(short, lower);
    law_clamp_is_within(width, thin, thick);
    law_lt_is_transitive(thin, thick, width);
    law_order_is_total(width, thin);
    law_order_is_total(thin, width);
}

/// The hip is at its corner of the chassis, 0.54 of the width aside and 0.36 of the length ahead or
/// back; B is the upper length along the leg's direction from it, and the foot is from there the
/// lower length along the direction and down, by its inclination.
pub proof fn law_leg_hangs_on_the_chassis(
    config: RobotConfig,
    leg: Seq<char>,
    direction: Vec3,
    cos_down: Scalar,
    sin_down: Scalar,
)
    ensures
        ({
            let points = spec_leg_points(config, leg, direction, cos_down, sin_down);
            let lengths = spec_leg_lengths(config);
            let zero = Scalar::ratio(0, 1);
            let away = lengths.bfoot.times(cos_down);
            let down = lengths.bfoot.times(sin_down);
            &&& points.a.x == leg_side(leg).times(config.chassis.width_m).times(
                Scalar::ratio(54, 100),
            )
            &&& points.a.y == zero
            &&& points.a.z == leg_end(leg).times(config.chassis.length_m).times(
                Scalar::ratio(36, 100),
            )
            &&& points.b.x == points.a.x.plus(direction.x.times(lengths.ab))
            &&& points.b.y == points.a.y.plus(direction.y.times(lengths.ab))
            &&& points.b.z == points.a.z.plus(direction.z.times(lengths.ab))
            &&& points.foot.x == points.b.x.plus(direction.x.times(away)).plus(zero.times(down))
            &&& points.foot.y == points.b.y.plus(direction.y.times(away)).plus(
                Scalar::ratio(1, 1).negated().times(down),
            )
            &&& points.foot.z == points.b.z.plus(direction.z.times(away)).plus(zero.times(down))
        }),
{
}

/// A bar lies in the middle between its ends, points from the first to the second, and is as long
/// as they are apart, a millimetre at least.
pub proof fn law_bar_lies_between_its_ends(start: Vec3, end: Vec3, thickness: Scalar)
    ensures
        ({
            let bar = segment_transform(start, end, thickness);
            let half = Scalar::ratio(5, 10);
            let x = end.x.minus(start.x);
            let y = end.y.minus(start.y);
            let z = end.z.minus(start.z);
            let length = x.times(x).plus(y.times(y)).plus(z.times(z)).root();
            let least = Scalar::ratio(1, 1000);
            &&& bar.translation.x == start.x.plus(end.x).times(half)
            &&& bar.translation.y == start.y.plus(end.y).times(half)
            &&& bar.translation.z == start.z.plus(end.z).times(half)
            &&& bar.scale.x == thickness && bar.scale.y == thickness
            &&& least.le(length) ==> bar.scale.z == length
            &&& !least.le(length) ==> bar.scale.z == least
            &&& bar.rotation matches PartRotation::Along(direction) && direction.x == x.over(
                bar.scale.z,
            ) && direction.y == y.over(bar.scale.z) && direction.z == z.over(bar.scale.z)
        }),
{
    let x = end.x.minus(start.x);
    let y = end.y.minus(start.y);
    let z = end.z.minus(start.z);
    let length = x.times(x).plus(y.times(y)).plus(z.times(z)).root();
    let least = Scalar::ratio(1, 1000);
    law_ratio_order(1, 1000, 1, 1000);
    law_order_is_total(length, least);
    law_order_is_total(least, length);
}

/// The servos and the foot are drawn at the joints of the leg, where the body is, unstretched; the
/// segments are bars between them, the lower one 0.85 as thick as the upper one.
pub proof fn law_parts_are_at_their_joints(origin: Vec3, turned: LegPoints, thickness: Scalar)
    ensures
        ({
            let place = |part: VisualPart| part_placement(part, origin, turned, thickness);
            let one = Scalar::ratio(1, 1);
            let a = Vec3 {
                x: origin.x.plus(turned.a.x),
                y: origin.y.plus(turned.a.y),
                z: origin.z.plus(turned.a.z),
            };
            let b = Vec3 {
                x: origin.x.plus(turned.b.x),
                y: origin.y.plus(turned.b.y),
                z: origin.z.plus(turned.b.z),
            };
            let foot = Vec3 {
                x: origin.x.plus(turned.foot.x),
                y: origin.y.plus(turned.foot.y),
                z: origin.z.plus(turned.foot.z),
            };
            let unit = Vec3 { x: one, y: one, z: one };
            &&& place(VisualPart::ServoA).translation == a
            &&& place(VisualPart::ServoA).rotation is WithBody
            &&& place(VisualPart::ServoA).scale == unit
            &&& place(VisualPart::ServoB).translation == b
            &&& place(VisualPart::ServoB).rotation is WithBody
            &&& place(VisualPart::ServoB).scale == unit
            &&& place(VisualPart::Foot).translation == foot
            &&& place(VisualPart::Foot).rotation is Upright
            &&& place(VisualPart::Foot).scale == unit
            &&& place(VisualPart::LinkAB) == segment_transform(a, b, thickness)
            &&& place(VisualPart::LinkBFoot) == segment_transform(
                b,
                foot,
                thickness.times(Scalar::ratio(85, 100)),
            )
        }),
{
}

/// The body is drawn, and collides, with the size that is configured.
pub proof fn law_body_has_its_size(config: RobotConfig)
    ensures
        ({
            let shape = spec_body_shape(config);
            let two = Scalar::ratio(2, 1);
            &&& shape.size.x == config.chassis.width_m
            &&& shape.size.y == config.chassis.height_m
            &&& shape.size.z == config.chassis.length_m
            &&& shape.half_extents.x == config.chassis.width_m.over(two)
            &&& shape.half_extents.y == config.chassis.height_m.over(two)
            &&& shape.half_extents.z == config.chassis.length_m.over(two)
            &&& shape.servo_side == Scalar::ratio(30, 1000)
            &&& shape.foot_radius == config.links.foot_radius_m
        }),
{
}

/// An unswung leg points straight away from its side of the body.
pub proof fn law_leg_points_away(leg: Seq<char>)
    ensures
        spec_leg_outward(leg).x == leg_side(leg),
        spec_leg_outward(leg).y == Scalar::ratio(0, 1),
        spec_leg_outward(leg).z == Scalar::ratio(0, 1),
{
}

/// The upper segment is drawn as thick as the configuration says, and the lower one 0.85 of that.
pub proof fn law_bars_are_as_thick_as_configured(
    config: RobotConfig,
    origin: Vec3,
    turned: LegPoints,
)
    ensures
        ({
            let thickness = spec_leg_lengths(config).thickness;
            let upper = placed_part(config, VisualPart::LinkAB, origin, turned);
            let lower = placed_part(config, VisualPart::LinkBFoot, origin, turned);
            let part = thickness.times(Scalar::ratio(85, 100));
            &&& upper.scale.x == thickness && upper.scale.y == thickness
            &&& lower.scale.x == part && lower.scale.y == part
            &&& placed_part(config, VisualPart::ServoA, origin, turned).translation.x
                == origin.x.plus(turned.a.x)
        }),
{
}

} // verus!
