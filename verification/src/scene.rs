//! What the world holds when the simulation starts.

use crate::legs::VisualPart;
use crate::obstacle::{obstacle_body, Obstacle, ObstacleBody};
use crate::paint::{Colour, Paint};
use crate::scalar::Scalar;
use crate::vector::Vec3;
use vstd::prelude::*;

verus! {

/// The ground: a flat box.
#[derive(Clone, Copy, Debug, PartialEq, Eq, Structural)]
pub struct Ground {
    /// The lengths of its edges.
    pub size: Vec3,
    /// Its centre.
    pub translation: Vec3,
    /// The half lengths of its edges, for collisions.
    pub half_extents: Vec3,
}

/// The light of the sky.
#[derive(Clone, Copy, Debug, PartialEq, Eq, Structural)]
pub struct Sky {
    /// Its colour.
    pub colour: Colour,
    /// How strong the sun is.
    pub illuminance: Scalar,
    /// The angles of the sun's rays about the axes, in radians.
    pub angles: Vec3,
}

/// A lamp.
#[derive(Clone, Copy, Debug, PartialEq, Eq, Structural)]
pub struct Lamp {
    /// How strong it is.
    pub intensity: Scalar,
    /// How far it reaches.
    pub range: Scalar,
    /// Where it hangs.
    pub position: Vec3,
}

/// Where the camera stands before the mouse has moved it.
#[derive(Clone, Copy, Debug, PartialEq, Eq, Structural)]
pub struct Viewpoint {
    /// Its place.
    pub position: Vec3,
    /// What it looks at.
    pub target: Vec3,
}

/// The disc that marks the destination.
#[derive(Clone, Copy, Debug, PartialEq, Eq, Structural)]
pub struct GoalMarker {
    /// The radius of the disc.
    pub radius: Scalar,
    /// Its height.
    pub height: Scalar,
}

/// The parts of the world that do not depend on the configuration, but for the obstacles.
#[derive(Clone, Copy, Debug, PartialEq, Eq, Structural)]
pub struct Scene {
    /// The ground.
    pub ground: Ground,
    /// The sky.
    pub sky: Sky,
    /// The lamp.
    pub lamp: Lamp,
    /// The camera.
    pub viewpoint: Viewpoint,
    /// The marker of the destination.
    pub goal: GoalMarker,
}

/// The scene at the start.
pub open spec fn spec_scene() -> Scene {
    let zero = Scalar::ratio(0, 1);
    Scene {
        ground: Ground {
            size: Vec3::new(
                Scalar::ratio(55, 10),
                Scalar::ratio(5, 100),
                Scalar::ratio(55, 10),
            ),
            translation: Vec3::new(zero, Scalar::ratio(25, 1000).negated(), zero),
            half_extents: Vec3::new(
                Scalar::ratio(275, 100),
                Scalar::ratio(25, 1000),
                Scalar::ratio(275, 100),
            ),
        },
        sky: Sky {
            colour: Colour::percent(72, 80, 88, 100),
            illuminance: Scalar::ratio(15_000, 1),
            angles: Vec3::new(
                Scalar::ratio(85, 100).negated(),
                Scalar::ratio(55, 100).negated(),
                zero,
            ),
        },
        lamp: Lamp {
            intensity: Scalar::ratio(1200, 1),
            range: Scalar::ratio(8, 1),
            position: Vec3::new(
                Scalar::ratio(1, 1).negated(),
                Scalar::ratio(2, 1),
                Scalar::ratio(14, 10).negated(),
            ),
        },
        viewpoint: Viewpoint {
            position: Vec3::new(
                Scalar::ratio(130, 100),
                Scalar::ratio(150, 100),
                Scalar::ratio(150, 100).negated(),
            ),
            target: Vec3::new(zero, Scalar::ratio(12, 100), Scalar::ratio(35, 100)),
        },
        goal: GoalMarker { radius: Scalar::ratio(6, 100), height: Scalar::ratio(4, 100) },
    }
}

/// The scene at the start.
#[verifier::when_used_as_spec(spec_scene)]
pub fn scene() -> (r: Scene)
    ensures
        r == scene(),
{
    let zero = Scalar::ratio(0, 1);
    Scene {
        ground: Ground {
            size: Vec3::new(
                Scalar::ratio(55, 10),
                Scalar::ratio(5, 100),
                Scalar::ratio(55, 10),
            ),
            translation: Vec3::new(zero, Scalar::ratio(25, 1000).negated(), zero),
            half_extents: Vec3::new(
                Scalar::ratio(275, 100),
                Scalar::ratio(25, 1000),
                Scalar::ratio(275, 100),
            ),
        },
        sky: Sky {
            colour: Colour::percent(72, 80, 88, 100),
            illuminance: Scalar::ratio(15_000, 1),
            angles: Vec3::new(
                Scalar::ratio(85, 100).negated(),
                Scalar::ratio(55, 100).negated(),
                zero,
            ),
        },
        lamp: Lamp {
            intensity: Scalar::ratio(1200, 1),
            range: Scalar::ratio(8, 1),
            position: Vec3::new(
                Scalar::ratio(1, 1).negated(),
                Scalar::ratio(2, 1),
                Scalar::ratio(14, 10).negated(),
            ),
        },
        viewpoint: Viewpoint {
            position: Vec3::new(
                Scalar::ratio(130, 100),
                Scalar::ratio(150, 100),
                Scalar::ratio(150, 100).negated(),
            ),
            target: Vec3::new(zero, Scalar::ratio(12, 100), Scalar::ratio(35, 100)),
        },
        goal: GoalMarker { radius: Scalar::ratio(6, 100), height: Scalar::ratio(4, 100) },
    }
}

/// The obstacles at the start: three to walk around and a low box to climb.
pub fn demo_obstacles() -> (r: Vec<ObstacleBody>)
    ensures
        r@ == seq![
            obstacle_body(
                Vec3::new(
                    Scalar::ratio(25, 100).negated(),
                    Scalar::ratio(0, 1),
                    Scalar::ratio(0, 1),
                ),
                (Obstacle {
                    radius: Scalar::ratio(12, 100),
                    height: Scalar::ratio(18, 100),
                    climbable: false,
                }),
            ),
            obstacle_body(
                Vec3::new(Scalar::ratio(24, 100), Scalar::ratio(0, 1), Scalar::ratio(48, 100)),
                (Obstacle {
                    radius: Scalar::ratio(12, 100),
                    height: Scalar::ratio(20, 100),
                    climbable: false,
                }),
            ),
            obstacle_body(
                Vec3::new(
                    Scalar::ratio(20, 100).negated(),
                    Scalar::ratio(0, 1),
                    Scalar::ratio(92, 100),
                ),
                (Obstacle {
                    radius: Scalar::ratio(10, 100),
                    height: Scalar::ratio(16, 100),
                    climbable: false,
                }),
            ),
            obstacle_body(
                Vec3::new(Scalar::ratio(10, 100), Scalar::ratio(0, 1), Scalar::ratio(128, 100)),
                (Obstacle {
                    radius: Scalar::ratio(14, 100),
                    height: Scalar::ratio(65, 1000),
                    climbable: true,
                }),
            ),
        ],
{
    let zero = Scalar::ratio(0, 1);
    let first = obstacle_body(
        Vec3::new(Scalar::ratio(25, 100).negated(), zero, zero),
        Obstacle {
            radius: Scalar::ratio(12, 100),
            height: Scalar::ratio(18, 100),
            climbable: false,
        },
    );
    let second = obstacle_body(
        Vec3::new(Scalar::ratio(24, 100), zero, Scalar::ratio(48, 100)),
        Obstacle {
            radius: Scalar::ratio(12, 100),
            height: Scalar::ratio(20, 100),
            climbable: false,
        },
    );
    let third = obstacle_body(
        Vec3::new(Scalar::ratio(20, 100).negated(), zero, Scalar::ratio(92, 100)),
        Obstacle {
            radius: Scalar::ratio(10, 100),
            height: Scalar::ratio(16, 100),
            climbable: false,
        },
    );
    let low_box = obstacle_body(
        Vec3::new(Scalar::ratio(10, 100), zero, Scalar::ratio(128, 100)),
        Obstacle {
            radius: Scalar::ratio(14, 100),
            height: Scalar::ratio(65, 1000),
            climbable: true,
        },
    );
    vec![first, second, third, low_box]
}

/// What a part of a leg is painted with.
pub fn part_paint(part: VisualPart) -> (r: Paint)
    ensures
        r == match part {
            VisualPart::ServoA => Paint::ServoA,
            VisualPart::ServoB => Paint::ServoB,
            VisualPart::LinkAB => Paint::Link,
            VisualPart::LinkBFoot => Paint::Link,
            VisualPart::Foot => Paint::Foot,
        },
{
    match part {
        VisualPart::ServoA => Paint::ServoA,
        VisualPart::ServoB => Paint::ServoB,
        VisualPart::LinkAB => Paint::Link,
        VisualPart::LinkBFoot => Paint::Link,
        VisualPart::Foot => Paint::Foot,
    }
}

/// The ground is level with the world: its centre is as far below zero as its half height, so that
/// robots and obstacles stand on zero.
pub proof fn law_ground_is_at_zero()
    ensures
        scene().ground.translation.y == scene().ground.half_extents.y.negated(),
        scene().ground.translation.x == Scalar::ratio(0, 1),
        scene().ground.translation.z == Scalar::ratio(0, 1),
        scene().ground.size.x == scene().ground.size.z,
        scene().ground.half_extents.x == scene().ground.half_extents.z,
{
}

} // verus!
