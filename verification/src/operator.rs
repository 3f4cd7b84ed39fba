//! What the operator's keys and buttons do.

use crate::camera::{starting_camera, CameraRig};
use crate::config::{adjust_config, adjusted, RobotConfig, SettingKey};
use crate::control::{set_manual, spec_manual, standing, ControlClock, ControlMode, ControlState};
use crate::motion::{reset_robot_pose, starting_pose, RobotPose};
use crate::scalar::Scalar;
use crate::world::{PlacementMode, PlacementState};
use vstd::prelude::*;

verus! {

/// Something that the operator can ask for.
#[derive(Clone, Copy, Debug, PartialEq, Eq, Structural)]
pub enum UiAction {
    /// Steer by hand, standing.
    Manual,
    /// Let the controller navigate.
    Automatic,
    /// Walk ahead.
    Forward,
    /// Walk back.
    Backward,
    /// Turn left.
    Left,
    /// Turn right.
    Right,
    /// Stand.
    Stop,
    /// Put the robot back to where it starts.
    ResetRobot,
    /// Put the camera back to where it starts.
    ResetCamera,
    /// Place an obstacle with the next click.
    AddObstacle,
    /// Place a box that can be climbed with the next click.
    AddClimbStep,
    /// Place the destination with the next click.
    ChangeGoal,
    /// Take all obstacles away.
    ClearObstacles,
    /// Change a setting, up or down by the sign of the number.
    Adjust(SettingKey, Scalar),
}

/// All that keys and buttons act on, but for the obstacles.
#[derive(Clone, Copy, Debug, PartialEq, Eq, Structural)]
pub struct OperatorState {
    /// What is asked of the robot.
    pub control: ControlState,
    /// What the next click does.
    pub placement: PlacementState,
    /// The camera.
    pub camera: CameraRig,
    /// The robot.
    pub pose: RobotPose,
    /// The controller's clock.
    pub clock: ControlClock,
    /// The configuration.
    pub config: RobotConfig,
}

/// The state after an action.
pub open spec fn performed(state: OperatorState, action: UiAction) -> OperatorState {
    let zero = Scalar::ratio(0, 1);
    let one = Scalar::ratio(1, 1);
    match action {
        UiAction::Manual => OperatorState { control: standing(), ..state },
        UiAction::Automatic => OperatorState {
            control: ControlState { mode: ControlMode::Automatic, ..state.control },
            ..state
        },
        UiAction::Forward => OperatorState { control: spec_manual(one, zero), ..state },
        UiAction::Backward => OperatorState {
            control: spec_manual(Scalar::ratio(65, 100).negated(), zero),
            ..state
        },
        UiAction::Left => OperatorState { control: spec_manual(zero, one.negated()), ..state },
        UiAction::Right => OperatorState { control: spec_manual(zero, one), ..state },
        UiAction::Stop => OperatorState { control: standing(), ..state },
        UiAction::ResetRobot => OperatorState {
            control: standing(),
            pose: starting_pose(state.pose.base_height),
            clock: ControlClock { reset_pending: true, ..state.clock },
            ..state
        },
        UiAction::ResetCamera => OperatorState { camera: starting_camera(), ..state },
        UiAction::AddObstacle => OperatorState {
            placement: PlacementState { mode: PlacementMode::Obstacle },
            ..state
        },
        UiAction::AddClimbStep => OperatorState {
            placement: PlacementState { mode: PlacementMode::ClimbStep },
            ..state
        },
        UiAction::ChangeGoal => OperatorState {
            placement: PlacementState { mode: PlacementMode::Goal },
            ..state
        },
        UiAction::ClearObstacles => state,
        UiAction::Adjust(key, direction) => OperatorState {
            config: adjusted(state.config, key, direction),
            ..state
        },
    }
}

/// Performs an action.  Returns whether all obstacles are to be taken away.
pub fn perform(state: &mut OperatorState, action: UiAction) -> (clear: bool)
    ensures
        *final(state) == performed(*old(state), action),
        clear == (action is ClearObstacles),
{
    let zero = Scalar::ratio(0, 1);
    let one = Scalar::ratio(1, 1);
    match action {
        UiAction::Manual => {
            set_manual(&mut state.control, zero, zero);
            false
        },
        UiAction::Automatic => {
            state.control.mode = ControlMode::Automatic;
            false
        },
        UiAction::Forward => {
            set_manual(&mut state.control, one, zero);
            false
        },
        UiAction::Backward => {
            set_manual(&mut state.control, Scalar::ratio(65, 100).negated(), zero);
            false
        },
        UiAction::Left => {
            set_manual(&mut state.control, zero, one.negated());
            false
        },
        UiAction::Right => {
            set_manual(&mut state.control, zero, one);
            false
        },
        UiAction::Stop => {
            set_manual(&mut state.control, zero, zero);
            false
        },
        UiAction::ResetRobot => {
            reset_robot_pose(&mut state.pose);
            state.clock.reset_pending = true;
            set_manual(&mut state.control, zero, zero);
            false
        },
        UiAction::ResetCamera => {
            state.camera = CameraRig::default();
            false
        },
        UiAction::AddObstacle => {
            state.placement.mode = PlacementMode::Obstacle;
            false
        },
        UiAction::AddClimbStep => {
            state.placement.mode = PlacementMode::ClimbStep;
            false
        },
        UiAction::ChangeGoal => {
            state.placement.mode = PlacementMode::Goal;
            false
        },
        UiAction::ClearObstacles => true,
        UiAction::Adjust(key, direction) => {
            adjust_config(&mut state.config, key, direction);
            false
        },
    }
}

/// The state after some actions, the first of them first.
pub open spec fn performed_all(state: OperatorState, actions: Seq<UiAction>) -> OperatorState
    decreases actions.len(),
{
    if actions.len() == 0 {
        state
    } else {
        performed(performed_all(state, actions.drop_last()), actions.last())
    }
}

/// Which keys went down in a frame.
#[derive(Clone, Copy, Debug, PartialEq, Eq, Structural)]
pub struct KeysPressed {
    /// W.
    pub w: bool,
    /// S.
    pub s: bool,
    /// A.
    pub a: bool,
    /// D.
    pub d: bool,
    /// The space bar.
    pub space: bool,
    /// M.
    pub m: bool,
    /// N.
    pub n: bool,
    /// R.
    pub r: bool,
    /// F.
    pub f: bool,
    /// O.
    pub o: bool,
    /// B.
    pub b: bool,
    /// G.
    pub g: bool,
    /// C.
    pub c: bool,
}

/// A list with one more action, if its key went down.
#[verifier::opaque]
pub open spec fn with_key(
    actions: Seq<UiAction>,
    pressed: bool,
    action: UiAction,
) -> Seq<UiAction> {
    if pressed {
        actions.push(action)
    } else {
        actions
    }
}

/// The actions that the keys ask for, in the order in which they are performed.
pub open spec fn key_actions(keys: KeysPressed) -> Seq<UiAction> {
    let list = Seq::<UiAction>::empty();
    let list = with_key(list, keys.w, UiAction::Forward);
    let list = with_key(list, keys.s, UiAction::Backward);
    let list = with_key(list, keys.a, UiAction::Left);
    let list = with_key(list, keys.d, UiAction::Right);
    let list = with_key(list, keys.space, UiAction::Stop);
    let list = with_key(list, keys.m, UiAction::Automatic);
    let list = with_key(list, keys.n, UiAction::Manual);
    let list = with_key(list, keys.r, UiAction::ResetRobot);
    let list = with_key(list, keys.f, UiAction::ResetCamera);
    let list = with_key(list, keys.o, UiAction::AddObstacle);
    let list = with_key(list, keys.b, UiAction::AddClimbStep);
    let list = with_key(list, keys.g, UiAction::ChangeGoal);
    with_key(list, keys.c, UiAction::ClearObstacles)
}

/// Adds the action of a key to a list, if the key went down.
fn push_key(list: &mut Vec<UiAction>, pressed: bool, action: UiAction)
    ensures
        final(list)@ == with_key(old(list)@, pressed, action),
{
    proof {
        reveal(with_key);
    }
    if pressed {
        list.push(action);
    }
}

/// Lists the actions that the keys ask for.
fn list_key_actions(keys: KeysPressed) -> (list: Vec<UiAction>)
    ensures
        list@ == key_actions(keys),
{
    let mut list: Vec<UiAction> = Vec::new();
    push_key(&mut list, keys.w, UiAction::Forward);
    push_key(&mut list, keys.s, UiAction::Backward);
    push_key(&mut list, keys.a, UiAction::Left);
    push_key(&mut list, keys.d, UiAction::Right);
    push_key(&mut list, keys.space, UiAction::Stop);
    push_key(&mut list, keys.m, UiAction::Automatic);
    push_key(&mut list, keys.n, UiAction::Manual);
    push_key(&mut list, keys.r, UiAction::ResetRobot);
    push_key(&mut list, keys.f, UiAction::ResetCamera);
    push_key(&mut list, keys.o, UiAction::AddObstacle);
    push_key(&mut list, keys.b, UiAction::AddClimbStep);
    push_key(&mut list, keys.g, UiAction::ChangeGoal);
    push_key(&mut list, keys.c, UiAction::ClearObstacles);
    list
}

/// Performs what the keys that went down ask for.  Returns whether all obstacles are to be taken
/// away.
pub fn keyboard_controls(state: &mut OperatorState, keys: KeysPressed) -> (clear: bool)
    ensures
        *final(state) == performed_all(*old(state), key_actions(keys)),
        clear == keys.c,
{
    let list = list_key_actions(keys);
    let ghost start = *state;
    let mut i: usize = 0;
    while i < list.len()
        invariant
            i <= list.len(),
            *state == performed_all(start, list@.take(i as int)),
        decreases list.len() - i,
    {
        assert(list@.take(i + 1).drop_last() =~= list@.take(i as int));
        perform(state, list[i]);
        i = i + 1;
    }
    assert(list@.take(i as int) =~= list@);
    keys.c
}

/// How the mouse is on a button.
#[derive(Clone, Copy, Debug, PartialEq, Eq, Structural)]
pub enum Interaction {
    /// It presses it.
    Pressed,
    /// It is over it.
    Hovered,
    /// It is elsewhere.
    Away,
}

/// The actions of the buttons that are pressed, in order.
pub open spec fn button_actions(buttons: Seq<(Interaction, UiAction)>) -> Seq<UiAction>
    decreases buttons.len(),
{
    if buttons.len() == 0 {
        Seq::empty()
    } else {
        with_key(
            button_actions(buttons.drop_last()),
            buttons.last().0 is Pressed,
            buttons.last().1,
        )
    }
}

/// Performs what the buttons that changed and are pressed ask for.  Returns whether all obstacles
/// are to be taken away.
pub fn ui_buttons(
    state: &mut OperatorState,
    buttons: &Vec<(Interaction, UiAction)>,
) -> (clear: bool)
    ensures
        *final(state) == performed_all(*old(state), button_actions(buttons@)),
        clear == button_actions(buttons@).contains(UiAction::ClearObstacles),
{
    let ghost start = *state;
    let mut clear = false;
    let mut i: usize = 0;
    while i < buttons.len()
        invariant
            i <= buttons.len(),
            *state == performed_all(start, button_actions(buttons@.take(i as int))),
            clear == button_actions(buttons@.take(i as int)).contains(UiAction::ClearObstacles),
        decreases buttons.len() - i,
    {
        let (interaction, action) = buttons[i];
        let ghost list = button_actions(buttons@.take(i as int));
        proof {
            reveal(with_key);
        }
        assert(buttons@.take(i + 1).drop_last() =~= buttons@.take(i as int));
        if interaction == Interaction::Pressed {
            let cleared = perform(state, action);
            proof {
                let longer = list.push(action);
                assert(longer.drop_last() =~= list);
                assert(longer.last() == action);
                if list.contains(UiAction::ClearObstacles) {
                    let k = list.index_of(UiAction::ClearObstacles);
                    assert(longer[k] == UiAction::ClearObstacles);
                }
                if cleared {
                    assert(longer[list.len() as int] == UiAction::ClearObstacles);
                }
                if longer.contains(UiAction::ClearObstacles) && !cleared {
                    let k = longer.index_of(UiAction::ClearObstacles);
                    assert(list[k] == longer[k]);
                }
            }
            clear = clear || cleared;
        }
        i = i + 1;
    }
    assert(buttons@.take(i as int) =~= buttons@);
    clear
}

/// A key does what the button for the same thing does.
pub proof fn law_key_is_button(keys: KeysPressed, action: UiAction)
    requires
        key_actions(keys) == seq![action],
    ensures
        key_actions(keys) == button_actions(seq![(Interaction::Pressed, action)]),
{
    reveal_with_fuel(button_actions, 2);
    reveal(with_key);
    let buttons = seq![(Interaction::Pressed, action)];
    assert(buttons.drop_last() =~= Seq::empty());
    assert(button_actions(buttons) =~= seq![action]);
}

/// Every action but the settings has a key of its own.
pub proof fn law_every_action_has_a_key(action: UiAction) -> (keys: KeysPressed)
    requires
        action !is Adjust,
    ensures
        key_actions(keys) == seq![action],
{
    let keys = KeysPressed {
        w: action is Forward,
        s: action is Backward,
        a: action is Left,
        d: action is Right,
        space: action is Stop,
        m: action is Automatic,
        n: action is Manual,
        r: action is ResetRobot,
        f: action is ResetCamera,
        o: action is AddObstacle,
        b: action is AddClimbStep,
        g: action is ChangeGoal,
        c: action is ClearObstacles,
    };
    reveal(with_key);
    assert(key_actions(keys) =~= seq![action]);
    keys
}

/// Left is a negative turn and right the opposite one, and neither walks.
pub proof fn law_left_is_negative(state: OperatorState)
    ensures
        ({
            let left = performed(state, UiAction::Left).control;
            let right = performed(state, UiAction::Right).control;
            &&& left.manual_turn == right.manual_turn.negated()
            &&& left.manual_turn.lt(Scalar::ratio(0, 1))
            &&& Scalar::ratio(0, 1).lt(right.manual_turn)
            &&& left.manual_forward == Scalar::ratio(0, 1)
            &&& right.manual_forward == Scalar::ratio(0, 1)
        }),
{
    reveal(Scalar::spec_lt);
    crate::order::law_one();
    crate::order::law_zero();
    crate::order::law_negation(Scalar::ratio(1, 1), Scalar::ratio(1, 1));
    vstd::arithmetic::power2::lemma_pow2_pos(149);
}

/// Putting the robot back stops it, and the next observation starts a new episode.
pub proof fn law_reset_starts_over(state: OperatorState)
    ensures
        ({
            let after = performed(state, UiAction::ResetRobot);
            &&& after.clock.reset_pending
            &&& after.clock.elapsed == state.clock.elapsed
            &&& after.control == performed(state, UiAction::Stop).control
            &&& after.pose == starting_pose(state.pose.base_height)
            &&& performed(after, UiAction::ResetRobot) == after
        }),
{
}

/// Steering does not touch the map, the camera, the robot or the configuration, and nothing but
/// the settings touches the configuration.
pub proof fn law_actions_keep_apart(state: OperatorState, action: UiAction)
    ensures
        ({
            let after = performed(state, action);
            &&& action !is Adjust ==> after.config == state.config
            &&& action !is ResetRobot ==> after.pose == state.pose && after.clock == state.clock
            &&& action !is ResetCamera ==> after.camera == state.camera
            &&& !(action is AddObstacle || action is AddClimbStep || action is ChangeGoal)
                ==> after.placement == state.placement
        }),
{
}

/// What each steering action asks of the robot, whatever was asked before.
pub proof fn law_steering_is_as_named(state: OperatorState)
    ensures
        ({
            let zero = Scalar::ratio(0, 1);
            let one = Scalar::ratio(1, 1);
            let after = |action: UiAction| performed(state, action).control;
            &&& after(UiAction::Forward).mode == ControlMode::Manual
            &&& after(UiAction::Forward).manual_forward == one
            &&& after(UiAction::Forward).manual_turn == zero
            &&& after(UiAction::Backward).mode == ControlMode::Manual
            &&& after(UiAction::Backward).manual_forward == Scalar::ratio(65, 100).negated()
            &&& after(UiAction::Backward).manual_turn == zero
            &&& after(UiAction::Left).mode == ControlMode::Manual
            &&& after(UiAction::Left).manual_turn == one.negated()
            &&& after(UiAction::Right).mode == ControlMode::Manual
            &&& after(UiAction::Right).manual_turn == one
            &&& after(UiAction::Stop).mode == ControlMode::Manual
            &&& after(UiAction::Stop).manual_forward == zero
            &&& after(UiAction::Stop).manual_turn == zero
            &&& after(UiAction::Manual) == after(UiAction::Stop)
            &&& after(UiAction::Automatic).mode == ControlMode::Automatic
            &&& after(UiAction::Automatic).manual_forward == state.control.manual_forward
            &&& after(UiAction::Automatic).manual_turn == state.control.manual_turn
            &&& after(UiAction::ResetCamera) == state.control
            &&& after(UiAction::AddObstacle) == state.control
            &&& after(UiAction::AddClimbStep) == state.control
            &&& after(UiAction::ChangeGoal) == state.control
            &&& after(UiAction::ClearObstacles) == state.control
        }),
{
}

/// What each other action changes: the next click, the camera, the robot or one setting.
pub proof fn law_other_actions_are_as_named(
    state: OperatorState,
    key: SettingKey,
    direction: Scalar,
)
    ensures
        performed(state, UiAction::AddObstacle).placement.mode == PlacementMode::Obstacle,
        performed(state, UiAction::AddClimbStep).placement.mode == PlacementMode::ClimbStep,
        performed(state, UiAction::ChangeGoal).placement.mode == PlacementMode::Goal,
        performed(state, UiAction::ClearObstacles) == state,
        performed(state, UiAction::Adjust(key, direction)).config == adjusted(
            state.config,
            key,
            direction,
        ),
        performed(state, UiAction::Adjust(key, direction)).control == state.control,
        ({
            let pose = performed(state, UiAction::ResetRobot).pose;
            &&& pose.position.x == Scalar::ratio(0, 1)
            &&& pose.position.y == state.pose.base_height
            &&& pose.position.z == Scalar::ratio(85, 100).negated()
            &&& pose.previous_position == pose.position
            &&& pose.heading == Scalar::ratio(0, 1)
            &&& pose.base_height == state.pose.base_height
            &&& pose.climb_offset == Scalar::ratio(0, 1)
            &&& pose.measured_speed == Scalar::ratio(0, 1)
        }),
        ({
            let camera = performed(state, UiAction::ResetCamera).camera;
            &&& camera.focus.x == Scalar::ratio(0, 1)
            &&& camera.focus.y == Scalar::ratio(10, 100)
            &&& camera.focus.z == Scalar::ratio(35, 100)
            &&& camera.yaw == Scalar::ratio(248, 100)
            &&& camera.pitch == Scalar::ratio(56, 100)
            &&& camera.distance == Scalar::ratio(265, 100)
        }),
{
}

/// Actions are performed one after the other: none leaves the state alone, and one more acts on
/// what the others left.
pub proof fn law_actions_follow_each_other(
    state: OperatorState,
    actions: Seq<UiAction>,
    action: UiAction,
)
    ensures
        performed_all(state, Seq::empty()) == state,
        performed_all(state, actions.push(action)) == performed(
            performed_all(state, actions),
            action,
        ),
{
    assert(actions.push(action).drop_last() =~= actions);
}

/// The place of an action among those that keys ask for in one frame.
pub open spec fn rank(action: UiAction) -> int {
    match action {
        UiAction::Forward => 0,
        UiAction::Backward => 1,
        UiAction::Left => 2,
        UiAction::Right => 3,
        UiAction::Stop => 4,
        UiAction::Automatic => 5,
        UiAction::Manual => 6,
        UiAction::ResetRobot => 7,
        UiAction::ResetCamera => 8,
        UiAction::AddObstacle => 9,
        UiAction::AddClimbStep => 10,
        UiAction::ChangeGoal => 11,
        UiAction::ClearObstacles => 12,
        UiAction::Adjust(_, _) => 13,
    }
}

/// Whether the key of an action went down.
pub open spec fn is_asked(keys: KeysPressed, action: UiAction) -> bool {
    match action {
        UiAction::Forward => keys.w,
        UiAction::Backward => keys.s,
        UiAction::Left => keys.a,
        UiAction::Right => keys.d,
        UiAction::Stop => keys.space,
        UiAction::Automatic => keys.m,
        UiAction::Manual => keys.n,
        UiAction::ResetRobot => keys.r,
        UiAction::ResetCamera => keys.f,
        UiAction::AddObstacle => keys.o,
        UiAction::AddClimbStep => keys.b,
        UiAction::ChangeGoal => keys.g,
        UiAction::ClearObstacles => keys.c,
        UiAction::Adjust(_, _) => false,
    }
}

/// Whether a list holds the actions of the keys that went down, as far as a rank, in order.
#[verifier::opaque]
spec fn holds_asked(list: Seq<UiAction>, keys: KeysPressed, below: int) -> bool {
    &&& forall|i: int|
        0 <= i < list.len() ==> is_asked(keys, #[trigger] list[i]) && rank(list[i]) < below
    &&& forall|i: int, j: int|
        0 <= i < j < list.len() ==> rank(#[trigger] list[i]) < rank(#[trigger] list[j])
    &&& forall|action: UiAction|
        is_asked(keys, action) && #[trigger] rank(action) < below ==> list.contains(action)
}

/// One more key keeps the list in order and complete.
proof fn lemma_key_is_added(
    list: Seq<UiAction>,
    keys: KeysPressed,
    action: UiAction,
    pressed: bool,
)
    requires
        action !is Adjust,
        pressed == is_asked(keys, action),
        holds_asked(list, keys, rank(action)),
    ensures
        holds_asked(with_key(list, pressed, action), keys, rank(action) + 1),
{
    reveal(holds_asked);
    reveal(with_key);
    let longer = with_key(list, pressed, action);
    assert forall|other: UiAction|
        is_asked(keys, other) && #[trigger] rank(other) < rank(action) + 1 implies longer.contains(
        other,
    ) by {
        if rank(other) == rank(action) {
            assert(other == action);
            assert(longer[list.len() as int] == action);
        } else {
            assert(list.contains(other));
            let i = list.index_of(other);
            assert(longer[i] == other);
        }
    }
}

/// The keys' list holds what the keys ask for.
proof fn lemma_keys_are_listed(keys: KeysPressed)
    ensures
        holds_asked(key_actions(keys), keys, 13),
{
    let list = Seq::<UiAction>::empty();
    assert(holds_asked(list, keys, 0)) by {
        reveal(holds_asked);
    }
    lemma_key_is_added(list, keys, UiAction::Forward, keys.w);
    let list = with_key(list, keys.w, UiAction::Forward);
    lemma_key_is_added(list, keys, UiAction::Backward, keys.s);
    let list = with_key(list, keys.s, UiAction::Backward);
    lemma_key_is_added(list, keys, UiAction::Left, keys.a);
    let list = with_key(list, keys.a, UiAction::Left);
    lemma_key_is_added(list, keys, UiAction::Right, keys.d);
    let list = with_key(list, keys.d, UiAction::Right);
    lemma_key_is_added(list, keys, UiAction::Stop, keys.space);
    let list = with_key(list, keys.space, UiAction::Stop);
    lemma_key_is_added(list, keys, UiAction::Automatic, keys.m);
    let list = with_key(list, keys.m, UiAction::Automatic);
    lemma_key_is_added(list, keys, UiAction::Manual, keys.n);
    let list = with_key(list, keys.n, UiAction::Manual);
    lemma_key_is_added(list, keys, UiAction::ResetRobot, keys.r);
    let list = with_key(list, keys.r, UiAction::ResetRobot);
    lemma_key_is_added(list, keys, UiAction::ResetCamera, keys.f);
    let list = with_key(list, keys.f, UiAction::ResetCamera);
    lemma_key_is_added(list, keys, UiAction::AddObstacle, keys.o);
    let list = with_key(list, keys.o, UiAction::AddObstacle);
    lemma_key_is_added(list, keys, UiAction::AddClimbStep, keys.b);
    let list = with_key(list, keys.b, UiAction::AddClimbStep);
    lemma_key_is_added(list, keys, UiAction::ChangeGoal, keys.g);
    let list = with_key(list, keys.g, UiAction::ChangeGoal);
    lemma_key_is_added(list, keys, UiAction::ClearObstacles, keys.c);
    let list = with_key(list, keys.c, UiAction::ClearObstacles);
}

/// What a list that holds what the keys ask for contains.
proof fn lemma_list_is_complete(list: Seq<UiAction>, keys: KeysPressed, action: UiAction)
    requires
        holds_asked(list, keys, 13),
    ensures
        list.contains(action) <==> is_asked(keys, action),
        forall|i: int, j: int|
            0 <= i < j < list.len() ==> rank(#[trigger] list[i]) < rank(#[trigger] list[j]),
{
    reveal(holds_asked);
    if list.contains(action) {
        let i = list.index_of(action);
        assert(is_asked(keys, list[i]));
    }
    if is_asked(keys, action) {
        assert(rank(action) < 13);
    }
}

/// Every key that goes down is heard, no other one is, and several of them are heard in the order
/// of steering, then who steers, then the robot, the camera and the map.
pub proof fn law_keys_are_heard_in_order(keys: KeysPressed, action: UiAction)
    ensures
        key_actions(keys).contains(action) <==> is_asked(keys, action),
        forall|i: int, j: int|
            0 <= i < j < key_actions(keys).len() ==> rank(#[trigger] key_actions(keys)[i]) < rank(
                #[trigger] key_actions(keys)[j],
            ),
{
    lemma_keys_are_listed(keys);
    lemma_list_is_complete(key_actions(keys), keys, action);
}

/// The buttons that are pressed act, in order, and the others do not.
pub proof fn law_pressed_buttons_act(buttons: Seq<(Interaction, UiAction)>)
    ensures
        button_actions(buttons) == buttons.filter(
            |button: (Interaction, UiAction)| button.0 is Pressed,
        ).map_values(|button: (Interaction, UiAction)| button.1),
    decreases buttons.len(),
{
    reveal(Seq::filter);
    reveal(with_key);
    let pressed = |button: (Interaction, UiAction)| button.0 is Pressed;
    let asks = |button: (Interaction, UiAction)| button.1;
    if buttons.len() == 0 {
        assert(buttons.filter(pressed).map_values(asks) =~= Seq::empty());
    } else {
        law_pressed_buttons_act(buttons.drop_last());
        let before = buttons.drop_last().filter(pressed);
        if pressed(buttons.last()) {
            assert(buttons.filter(pressed) == before.push(buttons.last()));
            assert(before.push(buttons.last()).map_values(asks) =~= before.map_values(asks).push(
                asks(buttons.last()),
            ));
        } else {
            assert(buttons.filter(pressed) == before);
        }
    }
}

} // verus!
