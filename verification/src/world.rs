//! The map: the destination, and what the mouse places and moves on it.

use crate::obstacle::{obstacle_body, Obstacle, ObstacleBody, PlacedObstacle};
use crate::order::{law_lt_is_strict, law_lt_is_transitive, law_order_is_total};
use crate::scalar::Scalar;
use crate::vector::{ground_distance, Vec3};
use vstd::prelude::*;

verus! {

/// What the robot walks to.
#[derive(Clone, Copy, Debug, PartialEq, Eq, Structural)]
pub struct WorldState {
    /// The destination.
    pub goal: Vec3,
}

impl Default for WorldState {
    fn default() -> (r: WorldState)
        ensures
            r.goal == Vec3::new(
                Scalar::ratio(55, 100),
                Scalar::ratio(2, 100),
                Scalar::ratio(170, 100),
            ),
    {
        WorldState {
            goal: Vec3::new(
                Scalar::ratio(55, 100),
                Scalar::ratio(2, 100),
                Scalar::ratio(170, 100),
            ),
        }
    }
}

/// What the next click on the map does.
#[derive(Clone, Copy, Debug, PartialEq, Eq, Structural)]
pub enum PlacementMode {
    /// It takes hold of an obstacle.
    Idle,
    /// It places an obstacle.
    Obstacle,
    /// It places a box that can be climbed.
    ClimbStep,
    /// It sets the destination.
    Goal,
}

/// What the next click on the map does.
#[derive(Clone, Copy, Debug, PartialEq, Eq, Structural)]
pub struct PlacementState {
    /// The mode.
    pub mode: PlacementMode,
}

impl Default for PlacementState {
    fn default() -> (r: PlacementState)
        ensures
            r.mode == PlacementMode::Idle,
    {
        PlacementState { mode: PlacementMode::Idle }
    }
}

/// Which obstacle the mouse holds.
#[derive(Clone, Copy, Debug, PartialEq, Eq, Structural)]
pub struct DragState {
    /// Its number.
    pub obstacle: Option<u64>,
}

impl Default for DragState {
    fn default() -> (r: DragState)
        ensures
            r.obstacle is None,
    {
        DragState { obstacle: None }
    }
}

/// The width of the left panel, in pixels.
pub open spec fn spec_left_panel_width() -> Scalar {
    Scalar::ratio(250, 1)
}

/// The width of the left panel, in pixels.
#[verifier::when_used_as_spec(spec_left_panel_width)]
pub fn left_panel_width() -> (r: Scalar)
    ensures
        r == left_panel_width(),
{
    Scalar::ratio(250, 1)
}

/// The width of the right panel, in pixels.
pub open spec fn spec_right_panel_width() -> Scalar {
    Scalar::ratio(300, 1)
}

/// The width of the right panel, in pixels.
#[verifier::when_used_as_spec(spec_right_panel_width)]
pub fn right_panel_width() -> (r: Scalar)
    ensures
        r == right_panel_width(),
{
    Scalar::ratio(300, 1)
}

/// Whether the cursor is over the map, between the panels.
pub open spec fn is_over_map(cursor_x: Scalar, window_width: Scalar) -> bool {
    !(cursor_x.lt(left_panel_width()) || window_width.minus(right_panel_width()).lt(cursor_x))
}

/// Whether the cursor is over the map, between the panels.
pub fn over_map(cursor_x: Scalar, window_width: Scalar) -> (r: bool)
    ensures
        r == !(cursor_x.lt(left_panel_width()) || window_width.minus(right_panel_width()).lt(
            cursor_x,
        )),
        r == is_over_map(cursor_x, window_width),
{
    !(cursor_x.lt(left_panel_width()) || window_width.minus(right_panel_width()).lt(cursor_x))
}

/// Where the mouse points.
#[derive(Clone, Copy, Debug, PartialEq, Eq, Structural)]
pub enum Pointer {
    /// There is no window or no camera to point with.
    Missing,
    /// Not at the ground.
    OffMap,
    /// At a point of the ground.
    OnMap(Vec3),
}

/// The left mouse button.
#[derive(Clone, Copy, Debug, PartialEq, Eq, Structural)]
pub struct LeftButton {
    /// Whether it went down in this frame.
    pub just_pressed: bool,
    /// Whether it is down.
    pub pressed: bool,
    /// Whether it went up in this frame.
    pub just_released: bool,
}

/// What the mouse changed on the map.
#[derive(Clone, Copy, Debug, PartialEq, Eq, Structural)]
pub enum MapChange {
    /// Nothing.
    Nothing,
    /// The destination is here now.
    GoalMoved(Vec3),
    /// A new obstacle stands there.
    Placed(ObstacleBody),
    /// An obstacle was moved.
    Dragged {
        /// Its number.
        id: u64,
        /// Its new centre.
        translation: Vec3,
    },
}

/// The obstacle that a click places.
pub open spec fn spec_new_obstacle() -> Obstacle {
    Obstacle { radius: Scalar::ratio(12, 100), height: Scalar::ratio(18, 100), climbable: false }
}

/// The box that can be climbed that a click places.
pub open spec fn spec_new_climb_step() -> Obstacle {
    Obstacle { radius: Scalar::ratio(14, 100), height: Scalar::ratio(65, 1000), climbable: true }
}

/// The obstacle that a click places.
#[verifier::when_used_as_spec(spec_new_obstacle)]
pub fn new_obstacle() -> (r: Obstacle)
    ensures
        r == new_obstacle(),
{
    Obstacle { radius: Scalar::ratio(12, 100), height: Scalar::ratio(18, 100), climbable: false }
}

/// The box that can be climbed that a click places.
#[verifier::when_used_as_spec(spec_new_climb_step)]
pub fn new_climb_step() -> (r: Obstacle)
    ensures
        r == new_climb_step(),
{
    Obstacle { radius: Scalar::ratio(14, 100), height: Scalar::ratio(65, 1000), climbable: true }
}

/// Whether a click at a point is close enough to take hold of an obstacle.
pub open spec fn grabs(placed: PlacedObstacle, point: Vec3) -> bool {
    ground_distance(point, placed.position).le(
        placed.obstacle.radius.plus(Scalar::ratio(10, 100)),
    )
}

/// Whether a click takes hold of the obstacle at index `i`: the nearest one within reach, and the
/// first of those that are equally near.
pub open spec fn is_grabbed(obstacles: Seq<PlacedObstacle>, point: Vec3, i: int) -> bool {
    &&& 0 <= i < obstacles.len()
    &&& grabs(obstacles[i], point)
    &&& forall|j: int|
        0 <= j < obstacles.len() && grabs(#[trigger] obstacles[j], point) ==> !ground_distance(
            point,
            obstacles[j].position,
        ).lt(ground_distance(point, obstacles[i].position))
    &&& forall|j: int|
        0 <= j < i && grabs(#[trigger] obstacles[j], point) ==> ground_distance(
            point,
            obstacles[i].position,
        ).lt(ground_distance(point, obstacles[j].position))
}

/// The obstacle that a click takes hold of.
pub open spec fn grabbed(obstacles: Seq<PlacedObstacle>, point: Vec3) -> Option<u64> {
    if exists|i: int| is_grabbed(obstacles, point, i) {
        Some(obstacles[choose|i: int| is_grabbed(obstacles, point, i)].id)
    } else {
        None
    }
}

/// At most one obstacle is the nearest and first.
pub proof fn law_grabbed_is_unique(
    obstacles: Seq<PlacedObstacle>,
    point: Vec3,
    i: int,
    j: int,
)
    requires
        is_grabbed(obstacles, point, i),
        is_grabbed(obstacles, point, j),
    ensures
        i == j,
{
    assert(grabs(obstacles[i], point) && grabs(obstacles[j], point));
}

/// Finds the obstacle that a click takes hold of.
pub fn grab(obstacles: &Vec<PlacedObstacle>, point: Vec3) -> (r: Option<u64>)
    ensures
        r == grabbed(obstacles@, point),
        r is None <==> forall|i: int|
            0 <= i < obstacles@.len() ==> !grabs(#[trigger] obstacles@[i], point),
        r is Some <==> exists|i: int|
            0 <= i < obstacles@.len() && ground_distance(
                point,
                (#[trigger] obstacles@[i]).position,
            ).le(obstacles@[i].obstacle.radius.plus(Scalar::ratio(10, 100))),
{
    proof {
        law_click_takes_hold_when_near(obstacles@, point);
    }
    let mut best: Option<(usize, Scalar)> = None;
    let mut i: usize = 0;
    while i < obstacles.len()
        invariant
            i <= obstacles.len(),
            best matches Some(b) ==> {
                &&& is_grabbed(obstacles@.take(i as int), point, b.0 as int)
                &&& b.1 == ground_distance(point, obstacles@[b.0 as int].position)
            },
            best is None ==> forall|j: int|
                0 <= j < i ==> !grabs(#[trigger] obstacles@[j], point),
        decreases obstacles.len() - i,
    {
        let placed = obstacles[i];
        let d = ground_distance(point, placed.position);
        let near = d.le(placed.obstacle.radius.plus(Scalar::ratio(10, 100)));
        let nearer = match best {
            Some((_, old)) => d.lt(old),
            None => true,
        };
        let ghost before = obstacles@.take(i as int);
        let ghost after = obstacles@.take(i + 1);
        assert(forall|j: int| 0 <= j < i ==> after[j] == before[j]);
        assert(after[i as int] == placed);
        if near && nearer {
            proof {
                law_lt_is_strict(d, d);
                if let Some(b) = best {
                    assert forall|j: int|
                        0 <= j < i && grabs(#[trigger] after[j], point) implies d.lt(
                        ground_distance(point, after[j].position),
                    ) by {
                        let e = ground_distance(point, after[j].position);
                        assert(before[j] == after[j]);
                        law_order_is_total(e, b.1);
                        law_order_is_total(
                            e,
                            after[j].obstacle.radius.plus(Scalar::ratio(10, 100)),
                        );
                        law_order_is_total(b.1, b.1);
                        law_order_is_total(d, b.1);
                        law_lt_is_transitive(d, b.1, e);
                        law_lt_is_strict(d, e);
                    }
                    assert forall|j: int|
                        0 <= j < after.len() && grabs(#[trigger] after[j], point) implies !(
                    ground_distance(point, after[j].position).lt(d)) by {
                        if j < i {
                            law_lt_is_strict(d, ground_distance(point, after[j].position));
                        }
                    }
                } else {
                    assert forall|j: int| 0 <= j < i implies !grabs(#[trigger] after[j], point) by {
                        assert(after[j] == obstacles@[j]);
                    }
                }
                assert(is_grabbed(after, point, i as int));
            }
            best = Some((i, d));
        } else {
            proof {
                if let Some(b) = best {
                    assert(is_grabbed(after, point, b.0 as int)) by {
                        assert(after[b.0 as int] == before[b.0 as int]);
                        assert forall|j: int|
                            0 <= j < after.len() && grabs(#[trigger] after[j], point) implies !(
                        ground_distance(point, after[j].position).lt(b.1)) by {
                            if j < i {
                                assert(after[j] == before[j]);
                            }
                        }
                        assert forall|j: int|
                            0 <= j < b.0 && grabs(#[trigger] after[j], point) implies b.1.lt(
                            ground_distance(point, after[j].position),
                        ) by {
                            assert(after[j] == before[j]);
                        }
                    }
                }
            }
        }
        i = i + 1;
    }
    assert(obstacles@.take(i as int) =~= obstacles@);
    match best {
        Some((index, _)) => {
            proof {
                let chosen = choose|k: int| is_grabbed(obstacles@, point, k);
                law_grabbed_is_unique(obstacles@, point, chosen, index as int);
            }
            Some(obstacles[index].id)
        },
        None => None,
    }
}

/// The obstacle with a given number.
pub open spec fn obstacle_with(obstacles: Seq<PlacedObstacle>, id: u64) -> Option<PlacedObstacle>
    decreases obstacles.len(),
{
    if obstacles.len() == 0 {
        None
    } else if obstacles[0].id == id {
        Some(obstacles[0])
    } else {
        obstacle_with(obstacles.drop_first(), id)
    }
}

/// Finds the obstacle with a given number.
pub fn find_obstacle(obstacles: &Vec<PlacedObstacle>, id: u64) -> (r: Option<PlacedObstacle>)
    ensures
        r == obstacle_with(obstacles@, id),
{
    let mut i: usize = 0;
    assert(obstacles@.skip(0) =~= obstacles@);
    while i < obstacles.len()
        invariant
            i <= obstacles.len(),
            obstacle_with(obstacles@, id) == obstacle_with(obstacles@.skip(i as int), id),
        decreases obstacles.len() - i,
    {
        let ghost rest = obstacles@.skip(i as int);
        assert(rest[0] == obstacles@[i as int]);
        assert(rest.drop_first() =~= obstacles@.skip(i + 1));
        if obstacles[i].id == id {
            return Some(obstacles[i]);
        }
        i = i + 1;
    }
    None
}

/// The state of the map after a frame, and what changed.
pub struct MouseOutcome {
    /// What the next click does.
    pub mode: PlacementMode,
    /// The obstacle that the mouse holds.
    pub held: Option<u64>,
    /// The destination.
    pub goal: Vec3,
    /// What changed on the map.
    pub change: MapChange,
}

/// The change that a held obstacle makes when the mouse points somewhere.
pub open spec fn drag_change(
    held: Option<u64>,
    point: Vec3,
    obstacles: Seq<PlacedObstacle>,
) -> MapChange {
    match held {
        Some(id) => match obstacle_with(obstacles, id) {
            Some(placed) => MapChange::Dragged {
                id,
                translation: Vec3::new(
                    point.x,
                    placed.obstacle.height.over(Scalar::ratio(2, 1)),
                    point.z,
                ),
            },
            None => MapChange::Nothing,
        },
        None => MapChange::Nothing,
    }
}

/// What the mouse does in a frame.
///
/// A click places what is to be placed, or takes hold of the nearest obstacle within reach.  What
/// is held follows the mouse until the button goes up.
pub open spec fn mouse_outcome(
    mode: PlacementMode,
    held: Option<u64>,
    goal: Vec3,
    button: LeftButton,
    pointer: Pointer,
    obstacles: Seq<PlacedObstacle>,
) -> MouseOutcome {
    let unchanged = MouseOutcome { mode, held, goal, change: MapChange::Nothing };
    match pointer {
        Pointer::Missing => unchanged,
        Pointer::OffMap => if button.just_released {
            MouseOutcome { held: None, ..unchanged }
        } else {
            unchanged
        },
        Pointer::OnMap(point) => {
            if button.just_pressed && mode == PlacementMode::Goal {
                let place = Vec3::new(point.x, Scalar::ratio(2, 100), point.z);
                MouseOutcome {
                    mode: PlacementMode::Idle,
                    held,
                    goal: place,
                    change: MapChange::GoalMoved(place),
                }
            } else if button.just_pressed && mode == PlacementMode::Obstacle {
                MouseOutcome {
                    mode: PlacementMode::Idle,
                    held,
                    goal,
                    change: MapChange::Placed(obstacle_body(point, new_obstacle())),
                }
            } else if button.just_pressed && mode == PlacementMode::ClimbStep {
                MouseOutcome {
                    mode: PlacementMode::Idle,
                    held,
                    goal,
                    change: MapChange::Placed(obstacle_body(point, new_climb_step())),
                }
            } else {
                let holds = if button.just_pressed {
                    grabbed(obstacles, point)
                } else {
                    held
                };
                MouseOutcome {
                    mode,
                    held: if button.just_released {
                        None
                    } else {
                        holds
                    },
                    goal,
                    change: if button.pressed {
                        drag_change(holds, point, obstacles)
                    } else {
                        MapChange::Nothing
                    },
                }
            }
        },
    }
}

/// Lets the mouse act on the map for a frame.
pub fn world_mouse(
    placement: &mut PlacementState,
    drag: &mut DragState,
    world: &mut WorldState,
    button: LeftButton,
    pointer: Pointer,
    obstacles: &Vec<PlacedObstacle>,
) -> (change: MapChange)
    ensures
        (MouseOutcome {
            mode: final(placement).mode,
            held: final(drag).obstacle,
            goal: final(world).goal,
            change,
        }) == mouse_outcome(
            old(placement).mode,
            old(drag).obstacle,
            old(world).goal,
            button,
            pointer,
            obstacles@,
        ),
{
    let point = match pointer {
        Pointer::Missing => {
            return MapChange::Nothing;
        },
        Pointer::OffMap => {
            if button.just_released {
                drag.obstacle = None;
            }
            return MapChange::Nothing;
        },
        Pointer::OnMap(point) => point,
    };
    if button.just_pressed {
        match placement.mode {
            PlacementMode::Goal => {
                world.goal = Vec3::new(point.x, Scalar::ratio(2, 100), point.z);
                placement.mode = PlacementMode::Idle;
                return MapChange::GoalMoved(world.goal);
            },
            PlacementMode::Obstacle => {
                placement.mode = PlacementMode::Idle;
                return MapChange::Placed(obstacle_body(point, new_obstacle()));
            },
            PlacementMode::ClimbStep => {
                placement.mode = PlacementMode::Idle;
                return MapChange::Placed(obstacle_body(point, new_climb_step()));
            },
            PlacementMode::Idle => {},
        }
        drag.obstacle = grab(obstacles, point);
    }
    let mut change = MapChange::Nothing;
    if button.pressed {
        if let Some(id) = drag.obstacle {
            if let Some(placed) = find_obstacle(obstacles, id) {
                let translation = Vec3::new(
                    point.x,
                    placed.obstacle.height.over(Scalar::ratio(2, 1)),
                    point.z,
                );
                change = MapChange::Dragged { id, translation };
            }
        }
    }
    if button.just_released {
        drag.obstacle = None;
    }
    change
}

/// A click places one thing, and the next click takes hold of things again.
pub proof fn law_placing_ends_placement(
    mode: PlacementMode,
    held: Option<u64>,
    goal: Vec3,
    button: LeftButton,
    pointer: Pointer,
    obstacles: Seq<PlacedObstacle>,
)
    ensures
        ({
            let after = mouse_outcome(mode, held, goal, button, pointer, obstacles);
            let placing = button.just_pressed && pointer is OnMap && mode != PlacementMode::Idle;
            &&& placing <==> after.change is Placed || after.change is GoalMoved
            &&& placing ==> after.mode == PlacementMode::Idle && after.held == held
            &&& !placing ==> after.mode == mode
        }),
{
}

/// The destination changes when it is placed, to the point of the map that was clicked, and at no
/// other time.
pub proof fn law_goal_moves_when_placed(
    mode: PlacementMode,
    held: Option<u64>,
    goal: Vec3,
    button: LeftButton,
    pointer: Pointer,
    obstacles: Seq<PlacedObstacle>,
)
    ensures
        ({
            let after = mouse_outcome(mode, held, goal, button, pointer, obstacles);
            match after.change {
                MapChange::GoalMoved(place) => {
                    &&& after.goal == place
                    &&& pointer is OnMap
                    &&& place.x == pointer->OnMap_0.x
                    &&& place.z == pointer->OnMap_0.z
                    &&& place.y == Scalar::ratio(2, 100)
                },
                _ => after.goal == goal,
            }
        }),
{
}

/// Letting the button go lets the obstacle go.
pub proof fn law_release_lets_go(
    mode: PlacementMode,
    held: Option<u64>,
    goal: Vec3,
    button: LeftButton,
    pointer: Pointer,
    obstacles: Seq<PlacedObstacle>,
)
    requires
        button.just_released,
        !button.just_pressed || mode == PlacementMode::Idle,
        pointer !is Missing,
    ensures
        mouse_outcome(mode, held, goal, button, pointer, obstacles).held is None,
{
}

/// A dragged obstacle stands as if it had been placed where the mouse points.
pub proof fn law_dragged_obstacle_stands(
    held: Option<u64>,
    point: Vec3,
    obstacles: Seq<PlacedObstacle>,
)
    ensures
        match drag_change(held, point, obstacles) {
            MapChange::Dragged { id, translation } => {
                &&& held == Some(id)
                &&& obstacle_with(obstacles, id) matches Some(placed) && translation
                    == obstacle_body(point, placed.obstacle).translation
            },
            change => change is Nothing,
        },
{
}

/// Where an obstacle is within reach of a point, one of those is the nearest and first.
proof fn lemma_nearest_exists_within_reach(
    obstacles: Seq<PlacedObstacle>,
    point: Vec3,
    k: int,
) -> (i: int)
    requires
        0 <= k < obstacles.len(),
        grabs(obstacles[k], point),
    ensures
        is_grabbed(obstacles, point, i),
    decreases obstacles.len(),
{
    let rest = obstacles.drop_last();
    let last = obstacles.len() - 1;
    let d = ground_distance(point, obstacles[last].position);
    law_lt_is_strict(d, d);
    if exists|j: int| 0 <= j < rest.len() && grabs(#[trigger] rest[j], point) {
        let j = choose|j: int| 0 <= j < rest.len() && grabs(#[trigger] rest[j], point);
        let b = lemma_nearest_exists_within_reach(rest, point, j);
        let best = ground_distance(point, obstacles[b].position);
        assert(rest[b] == obstacles[b]);
        if grabs(obstacles[last], point) && d.lt(best) {
            assert forall|j: int|
                0 <= j < last && grabs(#[trigger] obstacles[j], point) implies d.lt(
                ground_distance(point, obstacles[j].position),
            ) by {
                let e = ground_distance(point, obstacles[j].position);
                assert(rest[j] == obstacles[j]);
                law_order_is_total(e, best);
                law_order_is_total(d, best);
                law_order_is_total(e, obstacles[j].obstacle.radius.plus(Scalar::ratio(10, 100)));
                law_lt_is_transitive(d, best, e);
            }
            assert forall|j: int|
                0 <= j < obstacles.len() && grabs(
                    #[trigger] obstacles[j],
                    point,
                ) implies !ground_distance(point, obstacles[j].position).lt(d) by {
                law_lt_is_strict(d, ground_distance(point, obstacles[j].position));
            }
            last
        } else {
            assert forall|j: int|
                0 <= j < obstacles.len() && grabs(
                    #[trigger] obstacles[j],
                    point,
                ) implies !ground_distance(point, obstacles[j].position).lt(best) by {
                if j < last {
                    assert(rest[j] == obstacles[j]);
                }
            }
            assert forall|j: int|
                0 <= j < b && grabs(#[trigger] obstacles[j], point) implies best.lt(
                ground_distance(point, obstacles[j].position),
            ) by {
                assert(rest[j] == obstacles[j]);
            }
            b
        }
    } else {
        assert forall|j: int| 0 <= j < last implies !grabs(#[trigger] obstacles[j], point) by {
            assert(rest[j] == obstacles[j]);
        }
        last
    }
}

/// A click takes hold of an obstacle exactly when there is one, climbable or not, that is as far
/// from the point as its radius and 10 cm, or closer.
pub proof fn law_click_takes_hold_when_near(obstacles: Seq<PlacedObstacle>, point: Vec3)
    ensures
        grabbed(obstacles, point) is Some <==> exists|i: int|
            0 <= i < obstacles.len() && ground_distance(
                point,
                (#[trigger] obstacles[i]).position,
            ).le(obstacles[i].obstacle.radius.plus(Scalar::ratio(10, 100))),
{
    if exists|i: int|
        0 <= i < obstacles.len() && ground_distance(point, (#[trigger] obstacles[i]).position).le(
            obstacles[i].obstacle.radius.plus(Scalar::ratio(10, 100)),
        ) {
        let i = choose|i: int|
            0 <= i < obstacles.len() && ground_distance(
                point,
                (#[trigger] obstacles[i]).position,
            ).le(obstacles[i].obstacle.radius.plus(Scalar::ratio(10, 100)));
        assert(grabs(obstacles[i], point));
        let found = lemma_nearest_exists_within_reach(obstacles, point, i);
        assert(is_grabbed(obstacles, point, found));
    }
    if grabbed(obstacles, point) is Some {
        let i = choose|i: int| is_grabbed(obstacles, point, i);
        assert(ground_distance(point, obstacles[i].position).le(
            obstacles[i].obstacle.radius.plus(Scalar::ratio(10, 100)),
        ));
    }
}

/// The obstacle that a click takes hold of is within reach, no other one within reach is nearer to
/// the point, and those that are as near come after it.
pub proof fn law_click_takes_the_nearest(obstacles: Seq<PlacedObstacle>, point: Vec3)
    ensures
        grabbed(obstacles, point) matches Some(id) ==> exists|i: int|
            {
                let d = ground_distance(point, obstacles[i].position);
                &&& 0 <= i < obstacles.len()
                &&& (#[trigger] obstacles[i]).id == id
                &&& d.le(obstacles[i].obstacle.radius.plus(Scalar::ratio(10, 100)))
                &&& forall|j: int|
                    0 <= j < obstacles.len() && ground_distance(
                        point,
                        (#[trigger] obstacles[j]).position,
                    ).le(obstacles[j].obstacle.radius.plus(Scalar::ratio(10, 100))) ==> d.le(
                        ground_distance(point, obstacles[j].position),
                    ) && (j < i ==> d.lt(ground_distance(point, obstacles[j].position)))
            },
{
    if grabbed(obstacles, point) is Some {
        let i = choose|i: int| is_grabbed(obstacles, point, i);
        let d = ground_distance(point, obstacles[i].position);
        let reach = obstacles[i].obstacle.radius.plus(Scalar::ratio(10, 100));
        law_order_is_total(d, reach);
        assert forall|j: int|
            0 <= j < obstacles.len() && ground_distance(
                point,
                (#[trigger] obstacles[j]).position,
            ).le(obstacles[j].obstacle.radius.plus(Scalar::ratio(10, 100))) implies d.le(
            ground_distance(point, obstacles[j].position),
        ) && (j < i ==> d.lt(ground_distance(point, obstacles[j].position))) by {
            let e = ground_distance(point, obstacles[j].position);
            assert(grabs(obstacles[j], point));
            law_order_is_total(e, obstacles[j].obstacle.radius.plus(Scalar::ratio(10, 100)));
            law_order_is_total(e, d);
        }
        assert(obstacles[i].id == grabbed(obstacles, point)->0);
    }
}

/// A click on the map that places nothing changes what is held to what it takes hold of, or to
/// nothing where nothing is within reach; without a click, what is held stays held until the button
/// goes up.
pub proof fn law_click_changes_what_is_held(
    mode: PlacementMode,
    held: Option<u64>,
    goal: Vec3,
    button: LeftButton,
    pointer: Pointer,
    obstacles: Seq<PlacedObstacle>,
)
    ensures
        ({
            let after = mouse_outcome(mode, held, goal, button, pointer, obstacles).held;
            &&& pointer is Missing ==> after == held
            &&& !button.just_pressed && !button.just_released ==> after == held
            &&& pointer is OffMap && !button.just_released ==> after == held
            &&& button.just_released && !button.just_pressed && pointer !is Missing
                ==> after is None
            &&& mode == PlacementMode::Idle && button.just_pressed && !button.just_released ==> (
            pointer matches Pointer::OnMap(point) ==> after == grabbed(obstacles, point))
        }),
{
}

/// What is placed stands where the map was clicked: on the ground, half its height up, twice its
/// radius wide.  A plain obstacle cannot be climbed, and the climb box can.
pub proof fn law_placed_obstacle_stands_at_click(
    mode: PlacementMode,
    held: Option<u64>,
    goal: Vec3,
    button: LeftButton,
    point: Vec3,
    obstacles: Seq<PlacedObstacle>,
)
    requires
        button.just_pressed,
        mode == PlacementMode::Obstacle || mode == PlacementMode::ClimbStep,
    ensures
        ({
            let after = mouse_outcome(mode, held, goal, button, Pointer::OnMap(point), obstacles);
            &&& after.change matches MapChange::Placed(body)
            &&& body.translation.x == point.x
            &&& body.translation.z == point.z
            &&& body.translation.y == body.obstacle.height.over(Scalar::ratio(2, 1))
            &&& body.size.x == body.obstacle.radius.times(Scalar::ratio(2, 1))
            &&& body.size.z == body.obstacle.radius.times(Scalar::ratio(2, 1))
            &&& body.size.y == body.obstacle.height
            &&& body.obstacle.climbable == (mode == PlacementMode::ClimbStep)
            &&& mode == PlacementMode::Obstacle ==> body.obstacle.radius == Scalar::ratio(12, 100)
                && body.obstacle.height == Scalar::ratio(18, 100)
            &&& mode == PlacementMode::ClimbStep ==> body.obstacle.radius == Scalar::ratio(14, 100)
                && body.obstacle.height == Scalar::ratio(65, 1000)
            &&& after.mode == PlacementMode::Idle
            &&& after.held == held
            &&& after.goal == goal
        }),
{
}

/// An obstacle moves exactly while the button is down on the map, nothing is placed, and what is
/// held after the click stands in the world; it moves under the mouse and keeps standing.
pub proof fn law_held_obstacle_follows_the_mouse(
    mode: PlacementMode,
    held: Option<u64>,
    goal: Vec3,
    button: LeftButton,
    pointer: Pointer,
    obstacles: Seq<PlacedObstacle>,
    id: u64,
)
    requires
        !button.just_pressed,
        !button.just_released,
    ensures
        ({
            let after = mouse_outcome(mode, held, goal, button, pointer, obstacles);
            let stands = exists|i: int|
                0 <= i < obstacles.len() && (#[trigger] obstacles[i]).id == id;
            &&& after.change is Nothing || after.change is Dragged
            &&& !button.pressed || pointer !is OnMap || held is None ==> after.change is Nothing
            &&& held == Some(id) && button.pressed && stands ==> (pointer matches Pointer::OnMap(
                point,
            ) ==> (after.change matches MapChange::Dragged { id: moved, translation } && moved
                == id && translation.x == point.x && translation.z == point.z && exists|i: int|
                0 <= i < obstacles.len() && (#[trigger] obstacles[i]).id == id && translation.y
                    == obstacles[i].obstacle.height.over(Scalar::ratio(2, 1))))
            &&& held == Some(id) && !stands ==> after.change is Nothing
        }),
{
    law_obstacle_is_found(obstacles, id);
}

/// An obstacle is found by its number exactly when one has it, and the first of them is.
pub proof fn law_obstacle_is_found(obstacles: Seq<PlacedObstacle>, id: u64)
    ensures
        obstacle_with(obstacles, id) is Some <==> exists|i: int|
            0 <= i < obstacles.len() && (#[trigger] obstacles[i]).id == id,
        obstacle_with(obstacles, id) matches Some(placed) ==> exists|i: int|
            0 <= i < obstacles.len() && #[trigger] obstacles[i] == placed && placed.id == id
                && forall|j: int| 0 <= j < i ==> (#[trigger] obstacles[j]).id != id,
    decreases obstacles.len(),
{
    if obstacles.len() > 0 {
        let rest = obstacles.drop_first();
        law_obstacle_is_found(rest, id);
        if obstacles[0].id != id {
            if obstacle_with(rest, id) is Some {
                let placed = obstacle_with(rest, id)->0;
                let i = choose|i: int|
                    0 <= i < rest.len() && #[trigger] rest[i] == placed && placed.id == id
                        && forall|j: int| 0 <= j < i ==> (#[trigger] rest[j]).id != id;
                assert(obstacles[i + 1] == placed);
                assert forall|j: int| 0 <= j < i + 1 implies (#[trigger] obstacles[j]).id != id by {
                    if j > 0 {
                        assert(rest[j - 1] == obstacles[j]);
                    }
                }
            } else {
                assert forall|i: int| 0 <= i < obstacles.len() implies (
                #[trigger] obstacles[i]).id != id by {
                    if i > 0 {
                        assert(rest[i - 1] == obstacles[i]);
                    }
                }
            }
        }
    }
}

/// The map lies between the panels: from 250 pixels on, to 300 pixels before the right edge of the
/// window, however wide it is.
pub proof fn law_map_lies_between_the_panels(cursor_x: Scalar, window_width: Scalar)
    requires
        !cursor_x.is_nan(),
        !window_width.minus(Scalar::ratio(300, 1)).is_nan(),
    ensures
        is_over_map(cursor_x, window_width) <==> Scalar::ratio(250, 1).le(cursor_x) && cursor_x.le(
            window_width.minus(Scalar::ratio(300, 1)),
        ),
{
    crate::order::law_ratio_order(250, 1, 250, 1);
    law_order_is_total(cursor_x, Scalar::ratio(250, 1));
    law_order_is_total(window_width.minus(Scalar::ratio(300, 1)), cursor_x);
}

} // verus!
