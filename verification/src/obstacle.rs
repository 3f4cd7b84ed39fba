//! Obstacles: what stands in the robot's way.

use crate::paint::Paint;
use crate::scalar::Scalar;
use crate::vector::Vec3;
use vstd::prelude::*;

verus! {

/// What matters of an obstacle to a robot that walks into it.
#[derive(Clone, Copy, Debug, PartialEq, Eq, Structural)]
pub struct Obstacle {
    /// Half the side of its square base, in metres.
    pub radius: Scalar,
    /// The height, in metres.
    pub height: Scalar,
    /// Whether the robot may try to climb it.
    pub climbable: bool,
}

/// An obstacle in the world.
#[derive(Clone, Copy, Debug, PartialEq, Eq, Structural)]
pub struct PlacedObstacle {
    /// The number by which the world knows it.
    pub id: u64,
    /// Its centre.
    pub position: Vec3,
    /// What it is.
    pub obstacle: Obstacle,
}

/// All that is needed to put an obstacle into the world.
#[derive(Clone, Copy, Debug, PartialEq, Eq, Structural)]
pub struct ObstacleBody {
    /// The lengths of the edges of the box.
    pub size: Vec3,
    /// The centre of the box.
    pub translation: Vec3,
    /// The half lengths of the edges, for collisions.
    pub half_extents: Vec3,
    /// What it is painted with.
    pub paint: Paint,
    /// What the robot sees of it.
    pub obstacle: Obstacle,
}

/// The box that stands on the ground at `ground_pos`.
pub open spec fn spec_obstacle_body(ground_pos: Vec3, obstacle: Obstacle) -> ObstacleBody {
    let two = Scalar::ratio(2, 1);
    let side = obstacle.radius.times(two);
    let half_height = obstacle.height.over(two);
    ObstacleBody {
        size: Vec3::new(side, obstacle.height, side),
        translation: Vec3::new(ground_pos.x, half_height, ground_pos.z),
        half_extents: Vec3::new(obstacle.radius, half_height, obstacle.radius),
        paint: if obstacle.climbable {
            Paint::Climb
        } else {
            Paint::Obstacle
        },
        obstacle,
    }
}

/// The box that stands on the ground at `ground_pos`.
#[verifier::when_used_as_spec(spec_obstacle_body)]
pub fn obstacle_body(ground_pos: Vec3, obstacle: Obstacle) -> (r: ObstacleBody)
    ensures
        r == obstacle_body(ground_pos, obstacle),
{
    let two = Scalar::ratio(2, 1);
    let side = obstacle.radius.times(two);
    let half_height = obstacle.height.over(two);
    ObstacleBody {
        size: Vec3::new(side, obstacle.height, side),
        translation: Vec3::new(ground_pos.x, half_height, ground_pos.z),
        half_extents: Vec3::new(obstacle.radius, half_height, obstacle.radius),
        paint: if obstacle.climbable {
            Paint::Climb
        } else {
            Paint::Obstacle
        },
        obstacle,
    }
}

/// A box is as wide as it is long, and its centre is half its height above the ground.
pub proof fn law_box_stands_on_ground(ground_pos: Vec3, obstacle: Obstacle)
    ensures
        ({
            let body = obstacle_body(ground_pos, obstacle);
            &&& body.translation.y == body.half_extents.y
            &&& body.size.x == body.size.z
            &&& body.half_extents.x == body.half_extents.z
            &&& body.obstacle == obstacle
            &&& body.paint == Paint::Climb <==> obstacle.climbable
        }),
{
}

/// A box stands where it is put, with the radius and the height that it has: its edges are twice
/// the radius and the height, and its centre is half the height up.
pub proof fn law_box_has_its_size(ground_pos: Vec3, obstacle: Obstacle)
    ensures
        ({
            let body = obstacle_body(ground_pos, obstacle);
            &&& body.translation.x == ground_pos.x
            &&& body.translation.z == ground_pos.z
            &&& body.translation.y == obstacle.height.over(Scalar::ratio(2, 1))
            &&& body.size.x == obstacle.radius.times(Scalar::ratio(2, 1))
            &&& body.size.y == obstacle.height
            &&& body.half_extents.x == obstacle.radius
            &&& body.half_extents.y == obstacle.height.over(Scalar::ratio(2, 1))
            &&& !obstacle.climbable ==> body.paint == Paint::Obstacle
        }),
{
}

} // verus!
