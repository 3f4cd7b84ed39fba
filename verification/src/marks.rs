//! The marks that are drawn over the map: the grid, where the robot faces and is told to go, the
//! destination and what the mouse holds.

use crate::bridge::{ahead, rightward};
use crate::control::{Action, ActionState};
use crate::motion::RobotPose;
use crate::obstacle::PlacedObstacle;
use crate::order::{law_negation_of_product, law_product_is_number, law_ratio_is_finite};
use crate::paint::Colour;
use crate::scalar::Scalar;
use crate::vector::Vec3;
use crate::world::{find_obstacle, law_obstacle_is_found, obstacle_with, DragState, WorldState};
use vstd::prelude::*;

verus! {

/// Something drawn over the map.
#[derive(Clone, Copy, Debug, PartialEq, Eq, Structural)]
pub enum Mark {
    /// A line.
    Line {
        /// One end.
        from: Vec3,
        /// The other end.
        to: Vec3,
        /// The colour.
        colour: Colour,
    },
    /// An arrow.
    Arrow {
        /// The tail.
        from: Vec3,
        /// The tip.
        to: Vec3,
        /// The colour.
        colour: Colour,
    },
    /// A circle that lies flat.
    Circle {
        /// The centre.
        centre: Vec3,
        /// The radius.
        radius: Scalar,
        /// The colour.
        colour: Colour,
    },
}

/// The place of a grid line: a quarter of a metre per line from the middle one, number 10.
pub open spec fn spec_grid_offset(i: u32) -> Scalar {
    let steps = if i < 10 {
        Scalar::ratio((10 - i) as u32, 1).negated()
    } else {
        Scalar::ratio((i - 10) as u32, 1)
    };
    steps.times(Scalar::ratio(25, 100))
}

/// The place of a grid line: a quarter of a metre per line from the middle one, number 10.
#[verifier::when_used_as_spec(spec_grid_offset)]
fn grid_offset(i: u32) -> (r: Scalar)
    ensures
        r == spec_grid_offset(i),
{
    let steps = if i < 10 {
        Scalar::ratio(10 - i, 1).negated()
    } else {
        Scalar::ratio(i - 10, 1)
    };
    steps.times(Scalar::ratio(25, 100))
}

/// The colour of a grid line: every metre is marked more strongly.
pub open spec fn grid_colour(i: u32) -> Colour {
    if (i - 10) % 4 == 0 {
        Colour::percent(20, 28, 35, 55)
    } else {
        Colour::percent(25, 31, 37, 28)
    }
}

/// A line of the grid across the map.
pub open spec fn grid_across(i: u32) -> Mark {
    let edge = Scalar::ratio(25, 10);
    let height = Scalar::ratio(4, 1000);
    let p = spec_grid_offset(i);
    Mark::Line {
        from: Vec3::new(edge.negated(), height, p),
        to: Vec3::new(edge, height, p),
        colour: grid_colour(i),
    }
}

/// A line of the grid along the map.
pub open spec fn grid_along(i: u32) -> Mark {
    let edge = Scalar::ratio(25, 10);
    let height = Scalar::ratio(4, 1000);
    let p = spec_grid_offset(i);
    Mark::Line {
        from: Vec3::new(p, height, edge.negated()),
        to: Vec3::new(p, height, edge),
        colour: grid_colour(i),
    }
}

/// The first lines of the grid, in pairs.
pub open spec fn grid(n: nat) -> Seq<Mark> {
    Seq::new(
        2 * n,
        |k: int|
            if k % 2 == 0 {
                grid_across((k / 2) as u32)
            } else {
                grid_along((k / 2) as u32)
            },
    )
}

/// A vector that points up.
pub open spec fn spec_up(height: Scalar) -> Vec3 {
    let zero = Scalar::ratio(0, 1);
    Vec3::new(zero, Scalar::ratio(1, 1), zero).times(height)
}

/// A vector that points up.
#[verifier::when_used_as_spec(spec_up)]
fn up(height: Scalar) -> (r: Vec3)
    ensures
        r == spec_up(height),
{
    let zero = Scalar::ratio(0, 1);
    Vec3::new(zero, Scalar::ratio(1, 1), zero).times(height)
}

/// The arrows: white is where the robot faces, yellow where it is told to go.
pub open spec fn arrows(pose: RobotPose, action: Action, sin: Scalar, cos: Scalar) -> Seq<Mark> {
    let origin = pose.position.plus(spec_up(Scalar::ratio(12, 100)));
    let tail = origin.plus(spec_up(Scalar::ratio(4, 100)));
    let forward = ahead(sin, cos);
    let told = forward.times(action.forward).plus(rightward(sin, cos).times(action.turn));
    let facing = Mark::Arrow {
        from: origin,
        to: origin.plus(forward.times(Scalar::ratio(26, 100))),
        colour: Colour::percent(100, 100, 100, 100),
    };
    if Scalar::ratio(1, 1000).lt(told.dot(told)) {
        seq![
            facing,
            Mark::Arrow {
                from: tail,
                to: tail.plus(told.normalized().times(Scalar::ratio(34, 100))),
                colour: Colour::percent(100, 78, 6, 100),
            },
        ]
    } else {
        seq![facing]
    }
}

/// The marks of the destination: the way to it, a circle and a beacon.
pub open spec fn goal_marks(pose: RobotPose, goal: Vec3) -> Seq<Mark> {
    seq![
        Mark::Line {
            from: Vec3::new(pose.position.x, Scalar::ratio(15, 1000), pose.position.z),
            to: Vec3::new(goal.x, Scalar::ratio(15, 1000), goal.z),
            colour: Colour::percent(8, 85, 20, 100),
        },
        Mark::Circle {
            centre: Vec3::new(goal.x, Scalar::ratio(16, 1000), goal.z),
            radius: Scalar::ratio(13, 100),
            colour: Colour::percent(8, 95, 22, 100),
        },
        Mark::Line {
            from: Vec3::new(goal.x, Scalar::ratio(2, 100), goal.z),
            to: Vec3::new(goal.x, Scalar::ratio(36, 100), goal.z),
            colour: Colour::percent(8, 95, 22, 100),
        },
    ]
}

/// The circle around what the mouse holds.
pub open spec fn held_marks(held: Option<u64>, obstacles: Seq<PlacedObstacle>) -> Seq<Mark> {
    match held {
        Some(id) => match obstacle_with(obstacles, id) {
            Some(placed) => seq![
                Mark::Circle {
                    centre: Vec3::new(
                        placed.position.x,
                        Scalar::ratio(12, 1000),
                        placed.position.z,
                    ),
                    radius: placed.obstacle.radius.plus(Scalar::ratio(4, 100)),
                    colour: Colour::percent(100, 85, 10, 100),
                },
            ],
            None => seq![],
        },
        None => seq![],
    }
}

/// Lists the lines of the grid.
fn draw_grid() -> (marks: Vec<Mark>)
    ensures
        marks@ == grid(21),
{
    let edge = Scalar::ratio(25, 10);
    let height = Scalar::ratio(4, 1000);
    let mut marks: Vec<Mark> = Vec::new();
    let mut i: u32 = 0;
    while i < 21
        invariant
            i <= 21,
            edge == Scalar::ratio(25, 10),
            height == Scalar::ratio(4, 1000),
            marks@ == grid(i as nat),
        decreases 21 - i,
    {
        let p = grid_offset(i);
        let colour = if (i + 2) % 4 == 0 {
            Colour::percent(20, 28, 35, 55)
        } else {
            Colour::percent(25, 31, 37, 28)
        };
        marks.push(
            Mark::Line {
                from: Vec3::new(edge.negated(), height, p),
                to: Vec3::new(edge, height, p),
                colour,
            },
        );
        marks.push(
            Mark::Line {
                from: Vec3::new(p, height, edge.negated()),
                to: Vec3::new(p, height, edge),
                colour,
            },
        );
        assert(marks@ =~= grid((i + 1) as nat));
        i = i + 1;
    }
    marks
}

/// The marks that are drawn over the map.
pub open spec fn world_marks(
    pose: RobotPose,
    action: Action,
    goal: Vec3,
    held: Option<u64>,
    obstacles: Seq<PlacedObstacle>,
    sin: Scalar,
    cos: Scalar,
) -> Seq<Mark> {
    grid(21) + arrows(pose, action, sin, cos) + goal_marks(pose, goal) + held_marks(held, obstacles)
}

/// Lists the marks that are drawn over the map, for the sine and the cosine of the heading.
pub fn draw_world_debug(
    pose: &RobotPose,
    action: &ActionState,
    world: &WorldState,
    drag: &DragState,
    obstacles: &Vec<PlacedObstacle>,
    sin: Scalar,
    cos: Scalar,
) -> (marks: Vec<Mark>)
    ensures
        marks@ == grid(21) + arrows(*pose, action@, sin, cos) + goal_marks(*pose, world.goal)
            + held_marks(drag.obstacle, obstacles@),
        marks@ == world_marks(*pose, action@, world.goal, drag.obstacle, obstacles@, sin, cos),
{
    let mut marks = draw_grid();
    let origin = pose.position.plus(up(Scalar::ratio(12, 100)));
    let forward = ahead(sin, cos);
    let right = rightward(sin, cos);
    marks.push(
        Mark::Arrow {
            from: origin,
            to: origin.plus(forward.times(Scalar::ratio(26, 100))),
            colour: Colour::percent(100, 100, 100, 100),
        },
    );
    let told = forward.times(action.forward).plus(right.times(action.turn));
    if Scalar::ratio(1, 1000).lt(told.dot(told)) {
        let tail = origin.plus(up(Scalar::ratio(4, 100)));
        marks.push(
            Mark::Arrow {
                from: tail,
                to: tail.plus(told.normalized().times(Scalar::ratio(34, 100))),
                colour: Colour::percent(100, 78, 6, 100),
            },
        );
    }
    assert(marks@ =~= grid(21) + arrows(*pose, action@, sin, cos));
    let goal = world.goal;
    marks.push(
        Mark::Line {
            from: Vec3::new(pose.position.x, Scalar::ratio(15, 1000), pose.position.z),
            to: Vec3::new(goal.x, Scalar::ratio(15, 1000), goal.z),
            colour: Colour::percent(8, 85, 20, 100),
        },
    );
    marks.push(
        Mark::Circle {
            centre: Vec3::new(goal.x, Scalar::ratio(16, 1000), goal.z),
            radius: Scalar::ratio(13, 100),
            colour: Colour::percent(8, 95, 22, 100),
        },
    );
    marks.push(
        Mark::Line {
            from: Vec3::new(goal.x, Scalar::ratio(2, 100), goal.z),
            to: Vec3::new(goal.x, Scalar::ratio(36, 100), goal.z),
            colour: Colour::percent(8, 95, 22, 100),
        },
    );
    assert(marks@ =~= grid(21) + arrows(*pose, action@, sin, cos) + goal_marks(*pose, goal));
    if let Some(id) = drag.obstacle {
        if let Some(placed) = find_obstacle(obstacles, id) {
            marks.push(
                Mark::Circle {
                    centre: Vec3::new(
                        placed.position.x,
                        Scalar::ratio(12, 1000),
                        placed.position.z,
                    ),
                    radius: placed.obstacle.radius.plus(Scalar::ratio(4, 100)),
                    colour: Colour::percent(100, 85, 10, 100),
                },
            );
        }
    }
    assert(marks@ =~= grid(21) + arrows(*pose, action@, sin, cos) + goal_marks(*pose, goal)
        + held_marks(drag.obstacle, obstacles@));
    marks
}

/// The grid has 21 lines across the map and 21 along it, at the same places: each reaches from edge
/// to edge, 2.5 metres from the middle, just above the ground.
pub proof fn law_grid_covers_the_map(i: int)
    requires
        0 <= i < 21,
    ensures
        ({
            let marks = grid(21);
            let edge = Scalar::ratio(25, 10);
            let height = Scalar::ratio(4, 1000);
            let p = spec_grid_offset(i as u32);
            let strong = i == 2 || i == 6 || i == 10 || i == 14 || i == 18;
            let colour = if strong {
                Colour::percent(20, 28, 35, 55)
            } else {
                Colour::percent(25, 31, 37, 28)
            };
            &&& marks.len() == 42
            &&& marks[2 * i] == (Mark::Line {
                from: Vec3 { x: edge.negated(), y: height, z: p },
                to: Vec3 { x: edge, y: height, z: p },
                colour,
            })
            &&& marks[2 * i + 1] == (Mark::Line {
                from: Vec3 { x: p, y: height, z: edge.negated() },
                to: Vec3 { x: p, y: height, z: edge },
                colour,
            })
        }),
{
}

/// The lines of the grid lie a quarter of a metre apart: line `10 + k` is at `k` quarters, and line
/// `10 - k` opposite to it.
pub proof fn law_grid_lines_are_even(k: u32)
    requires
        k <= 10,
    ensures
        spec_grid_offset((10 + k) as u32) == Scalar::ratio(k, 1).times(Scalar::ratio(25, 100)),
        k > 0 ==> spec_grid_offset((10 - k) as u32) == spec_grid_offset((10 + k) as u32).negated(),
{
    let part = Scalar::ratio(25, 100);
    law_ratio_is_finite(k, 1);
    law_ratio_is_finite(25, 100);
    law_product_is_number(Scalar::ratio(k, 1), part);
    law_negation_of_product(Scalar::ratio(k, 1), part);
}

/// A white arrow shows where the robot faces: from 12 cm above it, 26 cm along its heading.  A
/// yellow one, 4 cm higher and 34 cm long, shows where it is told to go, ahead by its speed and to
/// the right by its turn, where that is not next to nothing.
pub proof fn law_arrows_show_heading_and_command(
    pose: RobotPose,
    action: Action,
    sin: Scalar,
    cos: Scalar,
)
    ensures
        ({
            let marks = arrows(pose, action, sin, cos);
            let zero = Scalar::ratio(0, 1);
            let one = Scalar::ratio(1, 1);
            let low = Scalar::ratio(12, 100);
            let more = Scalar::ratio(4, 100);
            let reach = Scalar::ratio(26, 100);
            let far = Scalar::ratio(34, 100);
            let x = pose.position.x.plus(zero.times(low));
            let y = pose.position.y.plus(one.times(low));
            let z = pose.position.z.plus(zero.times(low));
            let tail = Vec3 {
                x: x.plus(zero.times(more)),
                y: y.plus(one.times(more)),
                z: z.plus(zero.times(more)),
            };
            let told_x = sin.times(action.forward).plus(cos.times(action.turn));
            let told_y = zero.times(action.forward).plus(zero.times(action.turn));
            let told_z = cos.times(action.forward).plus(sin.negated().times(action.turn));
            let square = told_x.times(told_x).plus(told_y.times(told_y)).plus(told_z.times(told_z));
            let unit = one.over(square.root());
            &&& marks[0] == (Mark::Arrow {
                from: Vec3 { x, y, z },
                to: Vec3 {
                    x: x.plus(sin.times(reach)),
                    y: y.plus(zero.times(reach)),
                    z: z.plus(cos.times(reach)),
                },
                colour: Colour::percent(100, 100, 100, 100),
            })
            &&& Scalar::ratio(1, 1000).lt(square) ==> marks.len() == 2 && marks[1] == (Mark::Arrow {
                from: tail,
                to: Vec3 {
                    x: tail.x.plus(told_x.times(unit).times(far)),
                    y: tail.y.plus(told_y.times(unit).times(far)),
                    z: tail.z.plus(told_z.times(unit).times(far)),
                },
                colour: Colour::percent(100, 78, 6, 100),
            })
            &&& !Scalar::ratio(1, 1000).lt(square) ==> marks.len() == 1
        }),
{
}

/// A green line along the ground leads from the robot to the destination, a circle lies around it,
/// and a beacon stands on it.
pub proof fn law_goal_is_marked(pose: RobotPose, goal: Vec3)
    ensures
        ({
            let marks = goal_marks(pose, goal);
            let low = Scalar::ratio(15, 1000);
            &&& marks.len() == 3
            &&& marks[0] == (Mark::Line {
                from: Vec3 { x: pose.position.x, y: low, z: pose.position.z },
                to: Vec3 { x: goal.x, y: low, z: goal.z },
                colour: Colour::percent(8, 85, 20, 100),
            })
            &&& marks[1] == (Mark::Circle {
                centre: Vec3 { x: goal.x, y: Scalar::ratio(16, 1000), z: goal.z },
                radius: Scalar::ratio(13, 100),
                colour: Colour::percent(8, 95, 22, 100),
            })
            &&& marks[2] == (Mark::Line {
                from: Vec3 { x: goal.x, y: Scalar::ratio(2, 100), z: goal.z },
                to: Vec3 { x: goal.x, y: Scalar::ratio(36, 100), z: goal.z },
                colour: Colour::percent(8, 95, 22, 100),
            })
        }),
{
}

/// What the mouse holds has a circle around it, 4 cm wider than it is; nothing else has one.
pub proof fn law_held_obstacle_is_marked(held: Option<u64>, obstacles: Seq<PlacedObstacle>)
    ensures
        ({
            let marks = held_marks(held, obstacles);
            let stands = exists|i: int|
                0 <= i < obstacles.len() && Some((#[trigger] obstacles[i]).id) == held;
            &&& !stands ==> marks.len() == 0
            &&& stands ==> marks.len() == 1 && exists|i: int|
                0 <= i < obstacles.len() && Some((#[trigger] obstacles[i]).id) == held && marks[0]
                    == (Mark::Circle {
                    centre: Vec3 {
                        x: obstacles[i].position.x,
                        y: Scalar::ratio(12, 1000),
                        z: obstacles[i].position.z,
                    },
                    radius: obstacles[i].obstacle.radius.plus(Scalar::ratio(4, 100)),
                    colour: Colour::percent(100, 85, 10, 100),
                })
        }),
{
    if let Some(id) = held {
        law_obstacle_is_found(obstacles, id);
        if obstacle_with(obstacles, id) is Some {
            let placed = obstacle_with(obstacles, id)->0;
            let i = choose|i: int|
                0 <= i < obstacles.len() && #[trigger] obstacles[i] == placed && placed.id == id;
            assert(Some(obstacles[i].id) == held);
        }
    }
}

/// All marks are drawn: first the grid, then the arrows, then the destination, then what is held.
pub proof fn law_all_marks_are_drawn(
    pose: RobotPose,
    action: Action,
    goal: Vec3,
    held: Option<u64>,
    obstacles: Seq<PlacedObstacle>,
    sin: Scalar,
    cos: Scalar,
)
    ensures
        ({
            let marks = world_marks(pose, action, goal, held, obstacles, sin, cos);
            let n = arrows(pose, action, sin, cos).len() as int;
            &&& marks.len() == 45 + n + held_marks(held, obstacles).len()
            &&& marks.take(42) == grid(21)
            &&& marks.subrange(42, 42 + n) == arrows(pose, action, sin, cos)
            &&& marks.subrange(42 + n, 45 + n) == goal_marks(pose, goal)
            &&& marks.skip(45 + n) == held_marks(held, obstacles)
        }),
{
    let marks = world_marks(pose, action, goal, held, obstacles, sin, cos);
    let n = arrows(pose, action, sin, cos).len() as int;
    assert(marks.take(42) =~= grid(21));
    assert(marks.subrange(42, 42 + n) =~= arrows(pose, action, sin, cos));
    assert(marks.subrange(42 + n, 45 + n) =~= goal_marks(pose, goal));
    assert(marks.skip(45 + n) =~= held_marks(held, obstacles));
}

} // verus!
