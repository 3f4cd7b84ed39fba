use spiderbot::obstacle::{obstacle_body, Obstacle, PlacedObstacle};
use spiderbot::paint::Paint;
use spiderbot::scalar::Scalar;
use spiderbot::vector::Vec3;
use spiderbot::world::{
    find_obstacle, grab, new_climb_step, new_obstacle, over_map, world_mouse, DragState,
    LeftButton, MapChange, PlacementMode, PlacementState, Pointer, WorldState,
};

fn s(x: f32) -> Scalar {
    Scalar::from_bits(x.to_bits())
}

fn p(x: f32, y: f32, z: f32) -> Vec3 {
    Vec3::new(s(x), s(y), s(z))
}

fn placed(id: u64, x: f32, z: f32) -> PlacedObstacle {
    PlacedObstacle {
        id,
        position: p(x, 0.09, z),
        obstacle: Obstacle { radius: s(0.12), height: s(0.18), climbable: false },
    }
}

const DOWN: LeftButton = LeftButton { just_pressed: true, pressed: true, just_released: false };
const HELD: LeftButton = LeftButton { just_pressed: false, pressed: true, just_released: false };
const UP: LeftButton = LeftButton { just_pressed: false, pressed: false, just_released: true };

struct Table {
    placement: PlacementState,
    drag: DragState,
    world: WorldState,
    obstacles: Vec<PlacedObstacle>,
}

impl Table {
    fn new(mode: PlacementMode) -> Table {
        Table {
            placement: PlacementState { mode },
            drag: DragState::default(),
            world: WorldState::default(),
            obstacles: vec![placed(8, 0.0, 0.0), placed(9, 0.3, 0.0)],
        }
    }

    fn mouse(&mut self, button: LeftButton, pointer: Pointer) -> MapChange {
        world_mouse(
            &mut self.placement,
            &mut self.drag,
            &mut self.world,
            button,
            pointer,
            &self.obstacles,
        )
    }
}

#[test]
fn defaults_are_idle() {
    assert_eq!(PlacementState::default().mode, PlacementMode::Idle);
    assert_eq!(DragState::default().obstacle, None);
    assert_eq!(WorldState::default().goal, p(0.55, 0.02, 1.70));
}

#[test]
fn clicks_place_once() {
    let point = Pointer::OnMap(p(1.0, 0.0, 2.0));
    let mut map = Table::new(PlacementMode::Goal);
    assert_eq!(map.mouse(DOWN, point), MapChange::GoalMoved(p(1.0, 0.02, 2.0)));
    assert_eq!(map.world.goal, p(1.0, 0.02, 2.0));
    assert_eq!(map.placement.mode, PlacementMode::Idle);

    let mut map = Table::new(PlacementMode::Obstacle);
    let body = obstacle_body(p(1.0, 0.0, 2.0), new_obstacle());
    assert_eq!(map.mouse(DOWN, point), MapChange::Placed(body));
    assert_eq!(map.placement.mode, PlacementMode::Idle);
    assert_eq!(map.world.goal, WorldState::default().goal);

    let mut map = Table::new(PlacementMode::ClimbStep);
    let body = obstacle_body(p(1.0, 0.0, 2.0), new_climb_step());
    assert_eq!(map.mouse(DOWN, point), MapChange::Placed(body));
    assert_eq!(map.mouse(DOWN, point), MapChange::Nothing);
}

#[test]
fn placed_things_have_their_sizes() {
    let body = obstacle_body(p(1.0, 7.0, 2.0), new_climb_step());
    assert_eq!(body.size, p(0.14 * 2.0, 0.065, 0.14 * 2.0));
    assert_eq!(body.translation, p(1.0, 0.065 / 2.0, 2.0));
    assert_eq!(body.half_extents, p(0.14, 0.065 / 2.0, 0.14));
    assert_eq!(body.paint, Paint::Climb);
    assert!(body.obstacle.climbable);
    let body = obstacle_body(p(0.0, 0.0, 0.0), new_obstacle());
    assert_eq!(body.size, p(0.12 * 2.0, 0.18, 0.12 * 2.0));
    assert_eq!(body.paint, Paint::Obstacle);
}

#[test]
fn obstacles_are_dragged_until_released() {
    let mut map = Table::new(PlacementMode::Idle);
    let at = |x: f32| Pointer::OnMap(p(x, 0.0, 0.05));
    let change = map.mouse(DOWN, at(0.25));
    assert_eq!(change, MapChange::Dragged { id: 9, translation: p(0.25, 0.09, 0.05) });
    assert_eq!(map.drag.obstacle, Some(9));
    let change = map.mouse(HELD, at(0.9));
    assert_eq!(change, MapChange::Dragged { id: 9, translation: p(0.9, 0.09, 0.05) });
    assert_eq!(map.mouse(HELD, Pointer::OffMap), MapChange::Nothing);
    assert_eq!(map.drag.obstacle, Some(9));
    assert_eq!(map.mouse(UP, at(0.9)), MapChange::Nothing);
    assert_eq!(map.drag.obstacle, None);
    assert_eq!(map.mouse(HELD, at(0.9)), MapChange::Nothing);
}

#[test]
fn release_counts_off_the_map_but_not_without_a_window() {
    let mut map = Table::new(PlacementMode::Idle);
    map.drag.obstacle = Some(8);
    map.mouse(UP, Pointer::Missing);
    assert_eq!(map.drag.obstacle, Some(8));
    map.mouse(UP, Pointer::OffMap);
    assert_eq!(map.drag.obstacle, None);
}

#[test]
fn clicks_take_hold_of_the_nearest() {
    let obstacles = vec![placed(1, 0.0, 0.0), placed(2, 0.2, 0.0), placed(3, 0.4, 0.0)];
    assert_eq!(grab(&obstacles, p(0.15, 0.0, 0.0)), Some(2));
    assert_eq!(grab(&obstacles, p(0.05, 5.0, 0.0)), Some(1));
    assert_eq!(grab(&obstacles, p(0.6, 0.0, 0.0)), Some(3));
    assert_eq!(grab(&obstacles, p(0.63, 0.0, 0.0)), None);
    let twins = vec![placed(5, -0.125, 0.0), placed(6, 0.125, 0.0)];
    assert_eq!(grab(&twins, p(0.0, 0.0, 0.0)), Some(5));
    assert_eq!(grab(&Vec::new(), p(0.0, 0.0, 0.0)), None);
}

#[test]
fn obstacles_are_found_by_number() {
    let obstacles = vec![placed(1, 0.0, 0.0), placed(2, 0.2, 0.0)];
    assert_eq!(find_obstacle(&obstacles, 2), Some(placed(2, 0.2, 0.0)));
    assert_eq!(find_obstacle(&obstacles, 3), None);
}

#[test]
fn panels_are_not_the_map() {
    assert!(!over_map(s(249.0), s(1440.0)));
    assert!(over_map(s(250.0), s(1440.0)));
    assert!(over_map(s(1140.0), s(1440.0)));
    assert!(!over_map(s(1141.0), s(1440.0)));
}
