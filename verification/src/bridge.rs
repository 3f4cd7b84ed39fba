//! The exchange with the controller process: what it is told, what it answers, and how its
//! output is read.

use crate::accuracy::{law_small_sum_is_finite, law_sum_follows_sign, law_sum_is_close, size};
use crate::config::RobotConfig;
use crate::control::{control_period, is_due, law_period_is_at_most_a_second};
use crate::control::{law_waiting_is_below_a_period, tick, Action, ActionState, ControlClock};
use crate::control::{ControlMode, ControlState};
use crate::motion::RobotPose;
use crate::obstacle::PlacedObstacle;
use crate::order::{law_commutes, law_lt_is_transitive, law_one, law_order_is_total};
use crate::order::{law_ratio_is_finite, law_ratio_order, law_zero};
use crate::scalar::Scalar;
use crate::vector::Vec3;
use crate::world::WorldState;
use vstd::prelude::*;

verus! {

/// An obstacle as the controller sees it.
#[derive(Clone, Copy, Debug, PartialEq, Eq, Structural)]
pub struct ObstacleObservation {
    /// How far to the right of the robot it is.
    pub x: Scalar,
    /// How far ahead of the robot it is.
    pub z: Scalar,
    /// Its radius.
    pub radius: Scalar,
    /// Its height.
    pub height: Scalar,
    /// Whether the robot may try to climb it.
    pub climbable: bool,
}

/// What the controller is told of the surroundings.
#[derive(Debug)]
pub struct NavigationObservation {
    /// How far to the right and how far ahead the destination is.
    pub goal_local: [Scalar; 2],
    /// The obstacles nearby.
    pub obstacles: Vec<ObstacleObservation>,
}

/// What the controller is told of the operator.
#[derive(Clone, Copy, Debug)]
pub struct ControlObservation {
    /// Who steers.
    pub mode: &'static str,
    /// The speed asked for.
    pub forward: Scalar,
    /// The turn asked for.
    pub turn: Scalar,
}

/// What the controller is told.
#[derive(Debug)]
pub struct ObservationPacket {
    /// The time since the last observation, in seconds.
    pub dt: Scalar,
    /// Whether a new episode starts.
    pub episode_reset: bool,
    /// The angles of the joints, in radians.
    pub joint_angles_rad: [Scalar; 12],
    /// The velocities of the joints, in radians per second.
    pub joint_velocities_rad_s: [Scalar; 12],
    /// The rotation of the body.
    pub chassis_quat_xyzw: [Scalar; 4],
    /// The velocity of the body, in metres per second.
    pub chassis_linear_velocity_m_s: [Scalar; 3],
    /// The angular velocity of the body, in radians per second.
    pub chassis_angular_velocity_rad_s: [Scalar; 3],
    /// Whether the feet touch the ground.
    pub foot_contacts: [bool; 4],
    /// What the operator asks for.
    pub control: ControlObservation,
    /// The surroundings.
    pub navigation: NavigationObservation,
}

/// An observation, with its lists as sequences.
#[verifier::ext_equal]
pub struct Observation {
    /// The time since the last observation.
    pub dt: Scalar,
    /// Whether a new episode starts.
    pub episode_reset: bool,
    /// The angles of the joints.
    pub joint_angles: Seq<Scalar>,
    /// The velocities of the joints.
    pub joint_velocities: Seq<Scalar>,
    /// The rotation of the body.
    pub rotation: Seq<Scalar>,
    /// The velocity of the body.
    pub linear_velocity: Seq<Scalar>,
    /// The angular velocity of the body.
    pub angular_velocity: Seq<Scalar>,
    /// Whether the feet touch the ground.
    pub foot_contacts: Seq<bool>,
    /// Who steers.
    pub mode: Seq<char>,
    /// The speed asked for.
    pub forward: Scalar,
    /// The turn asked for.
    pub turn: Scalar,
    /// Where the destination is.
    pub goal_local: Seq<Scalar>,
    /// The obstacles nearby.
    pub obstacles: Seq<ObstacleObservation>,
}

impl View for ObservationPacket {
    type V = Observation;

    open spec fn view(&self) -> Observation {
        Observation {
            dt: self.dt,
            episode_reset: self.episode_reset,
            joint_angles: self.joint_angles_rad@,
            joint_velocities: self.joint_velocities_rad_s@,
            rotation: self.chassis_quat_xyzw@,
            linear_velocity: self.chassis_linear_velocity_m_s@,
            angular_velocity: self.chassis_angular_velocity_rad_s@,
            foot_contacts: self.foot_contacts@,
            mode: self.control.mode@,
            forward: self.control.forward,
            turn: self.control.turn,
            goal_local: self.navigation.goal_local@,
            obstacles: self.navigation.obstacles@,
        }
    }
}

/// The values that depend on the heading through functions that are not computed here.
#[derive(Clone, Copy, Debug)]
pub struct HeadingTerms {
    /// The sine of the heading.
    pub sin: Scalar,
    /// The cosine of the heading.
    pub cos: Scalar,
    /// The rotation by the heading, as a quaternion: x, y, z, w.
    pub quat_xyzw: [Scalar; 4],
}

/// The direction to the right of a robot.
pub open spec fn spec_rightward(sin: Scalar, cos: Scalar) -> Vec3 {
    Vec3::new(cos, Scalar::ratio(0, 1), sin.negated())
}

/// The direction ahead of a robot.
pub open spec fn spec_ahead(sin: Scalar, cos: Scalar) -> Vec3 {
    Vec3::new(sin, Scalar::ratio(0, 1), cos)
}

/// The direction to the right of a robot, for the sine and the cosine of its heading.
#[verifier::when_used_as_spec(spec_rightward)]
pub fn rightward(sin: Scalar, cos: Scalar) -> (r: Vec3)
    ensures
        r == rightward(sin, cos),
{
    Vec3::new(cos, Scalar::ratio(0, 1), sin.negated())
}

/// The direction ahead of a robot, for the sine and the cosine of its heading.
#[verifier::when_used_as_spec(spec_ahead)]
pub fn ahead(sin: Scalar, cos: Scalar) -> (r: Vec3)
    ensures
        r == ahead(sin, cos),
{
    Vec3::new(sin, Scalar::ratio(0, 1), cos)
}

/// Whether the controller is told of an obstacle: within 1.6 metres.
pub open spec fn is_nearby(position: Vec3, placed: PlacedObstacle) -> bool {
    !Scalar::ratio(16, 10).lt(placed.position.minus(position).length())
}

/// What the controller is told of an obstacle.
pub open spec fn obstacle_seen(
    position: Vec3,
    sin: Scalar,
    cos: Scalar,
    placed: PlacedObstacle,
) -> ObstacleObservation {
    let delta = placed.position.minus(position);
    ObstacleObservation {
        x: delta.dot(rightward(sin, cos)),
        z: delta.dot(ahead(sin, cos)),
        radius: placed.obstacle.radius,
        height: placed.obstacle.height,
        climbable: placed.obstacle.climbable,
    }
}

/// What the controller is told of the obstacles: those nearby, in the order of the world.
pub open spec fn obstacles_seen(
    position: Vec3,
    sin: Scalar,
    cos: Scalar,
    obstacles: Seq<PlacedObstacle>,
) -> Seq<ObstacleObservation>
    decreases obstacles.len(),
{
    if obstacles.len() == 0 {
        Seq::empty()
    } else {
        let before = obstacles_seen(position, sin, cos, obstacles.drop_last());
        if is_nearby(position, obstacles.last()) {
            before.push(obstacle_seen(position, sin, cos, obstacles.last()))
        } else {
            before
        }
    }
}

/// What the controller is told after `dt` seconds.
pub open spec fn observation(
    dt: Scalar,
    episode_reset: bool,
    control: ControlState,
    world: WorldState,
    pose: RobotPose,
    action: Action,
    obstacles: Seq<PlacedObstacle>,
    sin: Scalar,
    cos: Scalar,
    rotation: Seq<Scalar>,
) -> Observation {
    let zero = Scalar::ratio(0, 1);
    let forward = ahead(sin, cos);
    let to_goal = world.goal.minus(pose.position);
    Observation {
        dt,
        episode_reset,
        joint_angles: action.joint_targets,
        joint_velocities: Seq::new(12, |i: int| zero),
        rotation,
        linear_velocity: seq![
            forward.x.times(pose.measured_speed),
            zero,
            forward.z.times(pose.measured_speed),
        ],
        angular_velocity: seq![zero, action.turn.times(Scalar::ratio(60, 100)), zero],
        foot_contacts: seq![true, true, true, true],
        mode: match control.mode {
            ControlMode::Manual => "manual"@,
            ControlMode::Automatic => "automatic"@,
        },
        forward: match control.mode {
            ControlMode::Manual => control.manual_forward,
            ControlMode::Automatic => zero,
        },
        turn: match control.mode {
            ControlMode::Manual => control.manual_turn,
            ControlMode::Automatic => zero,
        },
        goal_local: seq![to_goal.dot(rightward(sin, cos)), to_goal.dot(forward)],
        obstacles: obstacles_seen(pose.position, sin, cos, obstacles),
    }
}

/// Lists what the controller is told of the obstacles.
fn see_obstacles(
    position: Vec3,
    sin: Scalar,
    cos: Scalar,
    obstacles: &Vec<PlacedObstacle>,
) -> (r: Vec<ObstacleObservation>)
    ensures
        r@ == obstacles_seen(position, sin, cos, obstacles@),
{
    let right = rightward(sin, cos);
    let forward = ahead(sin, cos);
    let mut seen: Vec<ObstacleObservation> = Vec::new();
    let mut i: usize = 0;
    while i < obstacles.len()
        invariant
            i <= obstacles.len(),
            right == rightward(sin, cos),
            forward == ahead(sin, cos),
            seen@ == obstacles_seen(position, sin, cos, obstacles@.take(i as int)),
        decreases obstacles.len() - i,
    {
        let placed = obstacles[i];
        let delta = placed.position.minus(position);
        assert(obstacles@.take(i + 1).drop_last() =~= obstacles@.take(i as int));
        if !Scalar::ratio(16, 10).lt(delta.length()) {
            seen.push(
                ObstacleObservation {
                    x: delta.dot(right),
                    z: delta.dot(forward),
                    radius: placed.obstacle.radius,
                    height: placed.obstacle.height,
                    climbable: placed.obstacle.climbable,
                },
            );
        }
        i = i + 1;
    }
    assert(obstacles@.take(i as int) =~= obstacles@);
    seen
}

/// The clock after a frame in which the controller is told something, if it is due.
pub open spec fn clock_told(
    clock: ControlClock,
    delta: Scalar,
    control_hz: Scalar,
) -> ControlClock {
    if is_due(clock, delta, control_hz) {
        ControlClock { elapsed: Scalar::ratio(0, 1), reset_pending: false }
    } else {
        ControlClock { elapsed: clock.elapsed.plus(delta), ..clock }
    }
}

/// What the controller is told in this frame, if it is to be told anything.
///
/// Lets `delta` seconds pass; once a control period is over, describes the world to the
/// controller, and whether it has to start over, which it is told once.
pub fn controller_observation(
    clock: &mut ControlClock,
    delta: Scalar,
    config: &RobotConfig,
    control: &ControlState,
    world: &WorldState,
    pose: &RobotPose,
    action: &ActionState,
    obstacles: &Vec<PlacedObstacle>,
    terms: HeadingTerms,
) -> (r: Option<ObservationPacket>)
    ensures
        r is Some <==> is_due(*old(clock), delta, config.control_hz),
        r matches Some(packet) ==> packet@ == observation(
            old(clock).elapsed.plus(delta),
            old(clock).reset_pending,
            *control,
            *world,
            *pose,
            action@,
            obstacles@,
            terms.sin,
            terms.cos,
            terms.quat_xyzw@,
        ),
        r matches Some(packet) ==> {
            &&& packet.dt == old(clock).elapsed.plus(delta)
            &&& packet.episode_reset == old(clock).reset_pending
            &&& packet.joint_angles_rad == action.joint_targets
            &&& packet.chassis_quat_xyzw == terms.quat_xyzw
            &&& control.mode == ControlMode::Manual ==> packet.control.mode@ == "manual"@
                && packet.control.forward == control.manual_forward && packet.control.turn
                == control.manual_turn
            &&& control.mode == ControlMode::Automatic ==> packet.control.mode@ == "automatic"@
                && packet.control.forward == Scalar::ratio(0, 1) && packet.control.turn
                == Scalar::ratio(0, 1)
        },
        *final(clock) == clock_told(*old(clock), delta, config.control_hz),
{
    let dt = match tick(clock, delta, config.control_hz) {
        Some(dt) => dt,
        None => {
            return None;
        },
    };
    let zero = Scalar::ratio(0, 1);
    let right = rightward(terms.sin, terms.cos);
    let forward = ahead(terms.sin, terms.cos);
    let to_goal = world.goal.minus(pose.position);
    let seen = see_obstacles(pose.position, terms.sin, terms.cos, obstacles);
    let asked = match control.mode {
        ControlMode::Manual => ControlObservation {
            mode: "manual",
            forward: control.manual_forward,
            turn: control.manual_turn,
        },
        ControlMode::Automatic => ControlObservation {
            mode: "automatic",
            forward: zero,
            turn: zero,
        },
    };
    let packet = ObservationPacket {
        dt,
        episode_reset: clock.reset_pending,
        joint_angles_rad: action.joint_targets,
        joint_velocities_rad_s: [
            zero,
            zero,
            zero,
            zero,
            zero,
            zero,
            zero,
            zero,
            zero,
            zero,
            zero,
            zero,
        ],
        chassis_quat_xyzw: terms.quat_xyzw,
        chassis_linear_velocity_m_s: [
            forward.x.times(pose.measured_speed),
            zero,
            forward.z.times(pose.measured_speed),
        ],
        chassis_angular_velocity_rad_s: [
            zero,
            action.turn.times(Scalar::ratio(60, 100)),
            zero,
        ],
        foot_contacts: [true, true, true, true],
        control: asked,
        navigation: NavigationObservation {
            goal_local: [to_goal.dot(right), to_goal.dot(forward)],
            obstacles: seen,
        },
    };
    clock.reset_pending = false;
    assert(packet@ =~= observation(
        dt,
        old(clock).reset_pending,
        *control,
        *world,
        *pose,
        action@,
        obstacles@,
        terms.sin,
        terms.cos,
        terms.quat_xyzw@,
    ));
    Some(packet)
}

/// An answer of the controller.
#[derive(Debug)]
pub struct ActionPacket {
    /// The targets of the joints, in radians.
    pub action_joint_targets_rad: Vec<Scalar>,
    /// The speed.
    pub forward_command: Scalar,
    /// The turn.
    pub turn_command: Scalar,
    /// The leg that moves; empty where the controller does not say.
    pub active_leg: String,
    /// The phase of the gait; empty where the controller does not say.
    pub gait_phase: String,
    /// Whether the robot climbs.
    pub climb_mode: bool,
    /// The controller's name; empty where it does not say.
    pub controller: String,
    /// What went wrong.
    pub error: Option<String>,
}

/// An answer, with its lists and texts as sequences.
#[verifier::ext_equal]
pub struct Answer {
    /// The targets of the joints.
    pub joint_targets: Seq<Scalar>,
    /// The speed.
    pub forward: Scalar,
    /// The turn.
    pub turn: Scalar,
    /// The leg that moves.
    pub active_leg: Seq<char>,
    /// The phase of the gait.
    pub gait_phase: Seq<char>,
    /// Whether the robot climbs.
    pub climb_mode: bool,
    /// The controller's name.
    pub controller: Seq<char>,
    /// What went wrong.
    pub error: Option<Seq<char>>,
}

impl View for ActionPacket {
    type V = Answer;

    open spec fn view(&self) -> Answer {
        Answer {
            joint_targets: self.action_joint_targets_rad@,
            forward: self.forward_command,
            turn: self.turn_command,
            active_leg: self.active_leg@,
            gait_phase: self.gait_phase@,
            climb_mode: self.climb_mode,
            controller: self.controller@,
            error: match self.error {
                Some(error) => Some(error@),
                None => None,
            },
        }
    }
}

/// A text, unless the controller left it out.
pub open spec fn said(new: Seq<char>, old: Seq<char>) -> Seq<char> {
    if new.len() == 0 {
        old
    } else {
        new
    }
}

/// The action after an answer.
pub open spec fn applied(action: Action, answer: Answer) -> Action {
    Action {
        joint_targets: if answer.joint_targets.len() == 12 {
            answer.joint_targets
        } else {
            action.joint_targets
        },
        forward: answer.forward,
        turn: answer.turn,
        active_leg: said(answer.active_leg, action.active_leg),
        gait_phase: said(answer.gait_phase, action.gait_phase),
        climb_mode: answer.climb_mode,
        controller: said(answer.controller, action.controller),
    }
}

/// What is reported of an error.
pub open spec fn error_report(error: Seq<char>) -> Seq<char> {
    "movement_policy.py: "@ + error
}

/// What is reported of an answer.
pub open spec fn answer_report(answer: Answer) -> Option<Seq<char>> {
    match answer.error {
        Some(error) => Some(error_report(error)),
        None => None,
    }
}

/// Makes an answer the current action.  Returns what is to be reported of it.
pub fn apply_packet(action: &mut ActionState, packet: ActionPacket) -> (report: Option<String>)
    ensures
        final(action)@ == applied(old(action)@, packet@),
        final(action).forward == packet.forward_command,
        final(action).turn == packet.turn_command,
        final(action).climb_mode == packet.climb_mode,
        packet.action_joint_targets_rad@.len() == 12 ==> forall|i: int|
            0 <= i < 12 ==> #[trigger] final(action).joint_targets@[i]
                == packet.action_joint_targets_rad@[i],
        packet.action_joint_targets_rad@.len() != 12 ==> final(action).joint_targets@ == old(
            action,
        ).joint_targets@,
        report is Some <==> answer_report(packet@) is Some,
        report matches Some(text) ==> Some(text@) == answer_report(packet@),
{
    let ghost answer = packet@;
    if packet.action_joint_targets_rad.len() == 12 {
        let mut i: usize = 0;
        let ghost before = action@;
        while i < 12
            invariant
                i <= 12,
                packet.action_joint_targets_rad@.len() == 12,
                action.joint_targets@.len() == 12,
                forall|j: int|
                    0 <= j < i ==> action.joint_targets@[j] == packet.action_joint_targets_rad@[j],
                action@ == (Action { joint_targets: action.joint_targets@, ..before }),
            decreases 12 - i,
        {
            action.joint_targets[i] = packet.action_joint_targets_rad[i];
            i = i + 1;
        }
        assert(action.joint_targets@ =~= packet.action_joint_targets_rad@);
    }
    action.forward = packet.forward_command;
    action.turn = packet.turn_command;
    action.climb_mode = packet.climb_mode;
    if packet.active_leg.as_str().unicode_len() != 0 {
        action.active_leg = packet.active_leg;
    }
    if packet.gait_phase.as_str().unicode_len() != 0 {
        action.gait_phase = packet.gait_phase;
    }
    if packet.controller.as_str().unicode_len() != 0 {
        action.controller = packet.controller;
    }
    match packet.error {
        Some(error) => Some(String::from_str("movement_policy.py: ").concat(error.as_str())),
        None => None,
    }
}

/// Answers, with their lists and texts as sequences.
pub open spec fn answers(packets: Seq<ActionPacket>) -> Seq<Answer> {
    packets.map_values(|packet: ActionPacket| packet@)
}

/// The action after some answers, the first of them first.
pub open spec fn applied_all(action: Action, answers: Seq<Answer>) -> Action
    decreases answers.len(),
{
    if answers.len() == 0 {
        action
    } else {
        applied_all(applied(action, answers[0]), answers.drop_first())
    }
}

/// What is reported of some answers, the first of them first.
pub open spec fn reports(answers: Seq<Answer>) -> Seq<Seq<char>>
    decreases answers.len(),
{
    if answers.len() == 0 {
        Seq::empty()
    } else {
        let rest = reports(answers.drop_first());
        match answer_report(answers[0]) {
            Some(report) => seq![report] + rest,
            None => rest,
        }
    }
}

/// Texts, as character sequences.
pub open spec fn texts(lines: Seq<String>) -> Seq<Seq<char>> {
    lines.map_values(|line: String| line@)
}

/// Makes the answers that have arrived the current action, one after the other.  Returns what is
/// to be reported of them.
pub fn receive_controller_action(
    action: &mut ActionState,
    packets: Vec<ActionPacket>,
) -> (lines: Vec<String>)
    ensures
        final(action)@ == applied_all(old(action)@, answers(packets@)),
        texts(lines@) == reports(answers(packets@)),
{
    let mut pending = packets;
    let mut lines: Vec<String> = Vec::new();
    assert(texts(lines@) + reports(answers(pending@)) =~= reports(answers(pending@)));
    while pending.len() > 0
        invariant
            applied_all(action@, answers(pending@)) == applied_all(
                old(action)@,
                answers(packets@),
            ),
            texts(lines@) + reports(answers(pending@)) == reports(answers(packets@)),
        decreases pending.len(),
    {
        let ghost all = answers(pending@);
        let ghost told = texts(lines@);
        let packet = pending.remove(0);
        assert(answers(pending@) =~= all.drop_first());
        assert(packet@ == all[0]);
        if let Some(line) = apply_packet(action, packet) {
            lines.push(line);
            assert(texts(lines@) =~= told + seq![line@]);
            assert(told + reports(all) =~= texts(lines@) + reports(all.drop_first()));
        }
    }
    assert(texts(lines@) + reports(answers(pending@)) =~= texts(lines@));
    lines
}

/// What happened while the controller's output was read.
#[derive(Debug)]
pub enum ReaderEvent {
    /// The output has ended, or a line of it could not be read.
    Unreadable,
    /// A line is an answer.
    Answered,
    /// A line is no answer.
    Malformed {
        /// What is wrong with it.
        error: String,
        /// The line.
        line: String,
    },
    /// An answer was handed over.
    Delivered,
    /// Nobody wants answers any more.
    Refused,
}

/// What to do next.
#[derive(Debug)]
pub enum ReaderStep {
    /// Stop reading.
    Stop,
    /// Hand the answer over.
    Deliver,
    /// Read the next line.
    ReadOn,
    /// Report two lines, then read the next line.
    Report {
        /// The first line of the report.
        error: String,
        /// The second one.
        output: String,
    },
}

/// The two lines that are reported of a line that is no answer.
pub open spec fn malformed_report(error: Seq<char>, line: Seq<char>) -> (Seq<char>, Seq<char>) {
    ("Controller JSON error: "@ + error, "Python output: "@ + line)
}

/// What the reader of the controller's output does after an event: it hands answers over, reports
/// what is no answer, and stops when the output ends or nobody listens.
pub fn reader_step(event: ReaderEvent) -> (step: ReaderStep)
    ensures
        match event {
            ReaderEvent::Unreadable => step is Stop,
            ReaderEvent::Answered => step is Deliver,
            ReaderEvent::Malformed { error, line } => step matches ReaderStep::Report {
                error: first,
                output: second,
            } && first@ == "Controller JSON error: "@ + error@ && second@ == "Python output: "@
                + line@,
            ReaderEvent::Delivered => step is ReadOn,
            ReaderEvent::Refused => step is Stop,
        },
        event matches ReaderEvent::Malformed { error, line } ==> (step matches ReaderStep::Report {
            error: first,
            output: second,
        } && (first@, second@) == malformed_report(error@, line@)),
{
    match event {
        ReaderEvent::Unreadable => ReaderStep::Stop,
        ReaderEvent::Answered => ReaderStep::Deliver,
        ReaderEvent::Malformed { error, line } => ReaderStep::Report {
            error: String::from_str("Controller JSON error: ").concat(error.as_str()),
            output: String::from_str("Python output: ").concat(line.as_str()),
        },
        ReaderEvent::Delivered => ReaderStep::ReadOn,
        ReaderEvent::Refused => ReaderStep::Stop,
    }
}

/// What the last answer commands is what the robot does, whatever was answered before.
pub proof fn law_last_answer_commands(action: Action, answers: Seq<Answer>)
    requires
        answers.len() > 0,
    ensures
        applied_all(action, answers) == applied(
            applied_all(action, answers.drop_last()),
            answers.last(),
        ),
        applied_all(action, answers).forward == answers.last().forward,
        applied_all(action, answers).turn == answers.last().turn,
        applied_all(action, answers).climb_mode == answers.last().climb_mode,
    decreases answers.len(),
{
    reveal_with_fuel(applied_all, 2);
    let first = applied(action, answers[0]);
    let rest = answers.drop_first();
    if answers.len() == 1 {
        assert(answers.drop_last() =~= Seq::<Answer>::empty());
        assert(rest =~= Seq::<Answer>::empty());
    } else {
        law_last_answer_commands(first, rest);
        assert(answers.drop_last().drop_first() =~= rest.drop_last());
        assert(rest.last() == answers.last());
    }
}

/// There are always twelve joint targets.
pub proof fn law_twelve_targets(action: Action, answer: Answer)
    requires
        action.joint_targets.len() == 12,
    ensures
        applied(action, answer).joint_targets.len() == 12,
        answer.joint_targets.len() != 12 ==> applied(action, answer).joint_targets
            == action.joint_targets,
{
}

/// The controller is told of exactly the obstacles nearby: of each of them, of no other, and in
/// the order of the world.
pub proof fn law_nearby_obstacles_are_seen(
    position: Vec3,
    sin: Scalar,
    cos: Scalar,
    obstacles: Seq<PlacedObstacle>,
)
    ensures
        obstacles_seen(position, sin, cos, obstacles) == obstacles.filter(
            |placed: PlacedObstacle| is_nearby(position, placed),
        ).map_values(|placed: PlacedObstacle| obstacle_seen(position, sin, cos, placed)),
    decreases obstacles.len(),
{
    reveal(Seq::filter);
    let near = |placed: PlacedObstacle| is_nearby(position, placed);
    let see = |placed: PlacedObstacle| obstacle_seen(position, sin, cos, placed);
    if obstacles.len() == 0 {
        assert(obstacles.filter(near).map_values(see) =~= Seq::empty());
    } else {
        law_nearby_obstacles_are_seen(position, sin, cos, obstacles.drop_last());
        let before = obstacles.drop_last().filter(near);
        if near(obstacles.last()) {
            assert(obstacles.filter(near) == before.push(obstacles.last()));
            assert(before.push(obstacles.last()).map_values(see) =~= before.map_values(see).push(
                see(obstacles.last()),
            ));
        } else {
            assert(obstacles.filter(near) == before);
        }
    }
}

/// That an episode starts over is told with the next observation, and not again.
pub proof fn law_reset_is_told_once(clock: ControlClock, delta: Scalar, control_hz: Scalar)
    ensures
        !is_due(clock, delta, control_hz) ==> clock_told(clock, delta, control_hz).reset_pending
            == clock.reset_pending,
        is_due(clock, delta, control_hz) ==> !clock_told(clock, delta, control_hz).reset_pending,
{
}

/// While the controller navigates, it is told that nothing is asked of it.
pub proof fn law_automatic_asks_nothing(
    dt: Scalar,
    episode_reset: bool,
    control: ControlState,
    world: WorldState,
    pose: RobotPose,
    action: Action,
    obstacles: Seq<PlacedObstacle>,
    sin: Scalar,
    cos: Scalar,
    rotation: Seq<Scalar>,
)
    requires
        control.mode == ControlMode::Automatic,
    ensures
        ({
            let told = observation(
                dt,
                episode_reset,
                control,
                world,
                pose,
                action,
                obstacles,
                sin,
                cos,
                rotation,
            );
            &&& told.mode == "automatic"@
            &&& told.forward == Scalar::ratio(0, 1)
            &&& told.turn == Scalar::ratio(0, 1)
        }),
{
}

/// The clock after some frames, the first of them first.
pub open spec fn clock_after(
    clock: ControlClock,
    deltas: Seq<Scalar>,
    control_hz: Scalar,
) -> ControlClock
    decreases deltas.len(),
{
    if deltas.len() == 0 {
        clock
    } else {
        clock_told(clock_after(clock, deltas.drop_last(), control_hz), deltas.last(), control_hz)
    }
}

/// The times that the controller is told in some frames.
pub open spec fn times_told(
    clock: ControlClock,
    deltas: Seq<Scalar>,
    control_hz: Scalar,
) -> Seq<Scalar>
    decreases deltas.len(),
{
    if deltas.len() == 0 {
        Seq::empty()
    } else {
        let before = times_told(clock, deltas.drop_last(), control_hz);
        let last = clock_after(clock, deltas.drop_last(), control_hz);
        if is_due(last, deltas.last(), control_hz) {
            before.push(last.elapsed.plus(deltas.last()))
        } else {
            before
        }
    }
}

/// The sum of some numbers, exactly, in units of `2^-149`.
pub open spec fn total(times: Seq<Scalar>) -> int
    decreases times.len(),
{
    if times.len() == 0 {
        0
    } else {
        total(times.drop_last()) + times.last().units()
    }
}

/// The rounding errors of the clock over some frames, in units of `2^-149`.
pub open spec fn clock_error(clock: ControlClock, deltas: Seq<Scalar>, control_hz: Scalar) -> int
    decreases deltas.len(),
{
    if deltas.len() == 0 {
        0
    } else {
        let last = clock_after(clock, deltas.drop_last(), control_hz).elapsed;
        let delta = deltas.last();
        clock_error(clock, deltas.drop_last(), control_hz) + (last.plus(delta).units() - (
        last.units() + delta.units()))
    }
}

/// The sizes of the times that the clock shows in some frames, in units of `2^-149`.
pub open spec fn clock_shown(clock: ControlClock, deltas: Seq<Scalar>, control_hz: Scalar) -> int
    decreases deltas.len(),
{
    if deltas.len() == 0 {
        0
    } else {
        let last = clock_after(clock, deltas.drop_last(), control_hz).elapsed;
        clock_shown(clock, deltas.drop_last(), control_hz) + last.plus(deltas.last()).units()
    }
}

/// What holds after any number of frames that take no negative time: the clock shows a finite time
/// that is not negative, and after the first frame at most a second.
proof fn lemma_clock_is_sound(clock: ControlClock, deltas: Seq<Scalar>, control_hz: Scalar)
    requires
        clock.elapsed.is_finite(),
        Scalar::ratio(0, 1).le(clock.elapsed),
        forall|i: int|
            0 <= i < deltas.len() ==> (#[trigger] deltas[i]).is_finite() && Scalar::ratio(0, 1).le(
                deltas[i],
            ),
        deltas.len() > 0 ==> clock.elapsed.plus(deltas[0]).is_finite(),
    ensures
        ({
            let after = clock_after(clock, deltas, control_hz).elapsed;
            &&& after.is_finite()
            &&& Scalar::ratio(0, 1).le(after)
            &&& deltas.len() > 0 ==> after.le(Scalar::ratio(1, 1))
        }),
        deltas.len() > 0 ==> {
            let before = clock_after(clock, deltas.drop_last(), control_hz).elapsed;
            &&& before.is_finite()
            &&& Scalar::ratio(0, 1).le(before)
            &&& before.plus(deltas.last()).is_finite()
            &&& Scalar::ratio(0, 1).le(before.plus(deltas.last()))
        },
    decreases deltas.len(),
{
    if deltas.len() > 0 {
        let zero = Scalar::ratio(0, 1);
        let one = Scalar::ratio(1, 1);
        let rest = deltas.drop_last();
        let delta = deltas.last();
        let before = clock_after(clock, rest, control_hz);
        let sum = before.elapsed.plus(delta);
        assert forall|i: int| 0 <= i < rest.len() implies (#[trigger] rest[i]).is_finite()
            && zero.le(rest[i]) by {
            assert(rest[i] == deltas[i]);
        }
        assert(rest.len() > 0 ==> rest[0] == deltas[0]);
        lemma_clock_is_sound(clock, rest, control_hz);
        law_zero();
        law_one();
        law_ratio_is_finite(0, 1);
        law_ratio_order(0, 1, 1, 1);
        law_ratio_order(0, 1, 0, 1);
        assert(sum.is_finite()) by {
            if rest.len() == 0 {
                assert(delta == deltas[0]);
            } else {
                law_small_sum_is_finite(delta, before.elapsed);
                law_commutes(delta, before.elapsed);
            }
        }
        law_sum_follows_sign(before.elapsed, delta);
        law_lt_is_transitive(zero, before.elapsed, sum);
        if !is_due(before, delta, control_hz) {
            law_waiting_is_below_a_period(before, delta, control_hz);
            law_order_is_total(sum, one);
        }
    }
}

/// No time is lost and none is told twice: over any number of frames, what the controller is told
/// and what the clock shows in the end add up to what it showed at the start and all the frames,
/// but for the rounding of the clock, which is at most `2^-24` of the times that it showed.  Each
/// time that is told is at least a control period.
pub proof fn law_no_time_is_lost(clock: ControlClock, deltas: Seq<Scalar>, control_hz: Scalar)
    requires
        clock.elapsed.is_finite(),
        Scalar::ratio(0, 1).le(clock.elapsed),
        forall|i: int|
            0 <= i < deltas.len() ==> (#[trigger] deltas[i]).is_finite() && Scalar::ratio(0, 1).le(
                deltas[i],
            ),
        deltas.len() > 0 ==> clock.elapsed.plus(deltas[0]).is_finite(),
    ensures
        total(times_told(clock, deltas, control_hz)) + clock_after(
            clock,
            deltas,
            control_hz,
        ).elapsed.units() == clock.elapsed.units() + total(deltas) + clock_error(
            clock,
            deltas,
            control_hz,
        ),
        0x100_0000 * size(clock_error(clock, deltas, control_hz)) <= clock_shown(
            clock,
            deltas,
            control_hz,
        ),
        forall|i: int|
            0 <= i < times_told(clock, deltas, control_hz).len() ==> control_period(control_hz).le(
                #[trigger] times_told(clock, deltas, control_hz)[i],
            ),
    decreases deltas.len(),
{
    if deltas.len() > 0 {
        let rest = deltas.drop_last();
        let delta = deltas.last();
        let before = clock_after(clock, rest, control_hz);
        let sum = before.elapsed.plus(delta);
        assert forall|i: int| 0 <= i < rest.len() implies (#[trigger] rest[i]).is_finite()
            && Scalar::ratio(0, 1).le(rest[i]) by {
            assert(rest[i] == deltas[i]);
        }
        assert(rest.len() > 0 ==> rest[0] == deltas[0]);
        law_no_time_is_lost(clock, rest, control_hz);
        lemma_clock_is_sound(clock, deltas, control_hz);
        law_sum_is_close(before.elapsed, delta);
        law_zero();
        let told = times_told(clock, rest, control_hz);
        assert(sum.units() >= 0) by {
            reveal(Scalar::spec_le);
        }
        if is_due(before, delta, control_hz) {
            law_told_time_is_a_period(before, delta, control_hz);
            assert(told.push(sum).drop_last() =~= told);
            assert forall|i: int| 0 <= i < told.push(sum).len() implies control_period(
                control_hz,
            ).le(#[trigger] told.push(sum)[i]) by {
                if i < told.len() {
                    assert(told.push(sum)[i] == told[i]);
                }
            }
        }
    }
}

/// What the controller is told is at least a control period.
pub proof fn law_told_time_is_a_period(clock: ControlClock, delta: Scalar, control_hz: Scalar)
    requires
        is_due(clock, delta, control_hz),
        !clock.elapsed.plus(delta).is_nan(),
    ensures
        control_period(control_hz).le(clock.elapsed.plus(delta)),
{
    law_period_is_at_most_a_second(control_hz);
    law_order_is_total(Scalar::ratio(0, 1), control_period(control_hz));
    law_order_is_total(clock.elapsed.plus(delta), control_period(control_hz));
}

} // verus!
