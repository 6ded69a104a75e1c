//! The navigation controller: one episode from the first pose to the stop.
//!
//! The controller is a state machine. The embedding program steps it at the
//! control rate, handing it the tracker's current reading; each step returns
//! the action to perform (send a command, suspend, or nothing). Every
//! transition is fixed by [`nav_step_spec`], so the whole episode's behaviour
//! is pinned down: the barrier before the first pose, the single rotation
//! command fixed at phase entry, the stopping condition checked each tick,
//! the timed straight drive, and the unconditional final stop.

use vstd::prelude::*;
use crate::{ALIGN_TOLERANCE_MICRO, ANGULAR_SPEED_MICRO, LINEAR_SPEED_MICRO, NANOS_PER_SECOND,
    PI_MICRO};
use crate::angle::{atan2_micro, atan2_spec, iabs, lemma_atan2_spec_range, sign, yaw_from_quat_z};
use crate::command::{stop_command, VelocityCommand};
use crate::geom::{dist_sq_spec, distance_micro, sqrt_floor, travel_duration_nanos};
use crate::pose::{GoalPoint, Pose};

verus! {

/// The bearing from `(px, py)` to `(gx, gy)`: the world-frame angle of the
/// vector between them, in micro-radians.
pub open spec fn bearing_spec(px: int, py: int, gx: int, gy: int) -> int {
    atan2_spec(gy - py, gx - px)
}

/// Law: the bearing lies in `(-pi, pi]` for every pose and every goal.
pub proof fn lemma_bearing_spec_range(px: int, py: int, gx: int, gy: int)
    ensures
        -PI_MICRO < bearing_spec(px, py, gx, gy) <= PI_MICRO,
{
    lemma_atan2_spec_range(gy - py, gx - px);
}

/// The bearing from a pose's position to a goal, in micro-radians.
pub fn bearing_to(p: &Pose, g: &GoalPoint) -> (b: i64)
    requires
        p.wf(),
        g.wf(),
    ensures
        b == bearing_spec(p.x as int, p.y as int, g.x as int, g.y as int),
        -PI_MICRO < b <= PI_MICRO,
{
    atan2_micro(g.y - p.y, g.x - p.x)
}

/// The phase of a navigation episode.
#[derive(Clone, Copy, Debug, PartialEq, Eq, Structural)]
pub enum NavPhase {
    /// No pose has been observed yet; nothing is computed or sent.
    AwaitingFirstPose,
    /// Rotating in place toward the bearing fixed at phase entry.
    Rotating { bearing: i64 },
    /// Aligned; the straight drive will be issued from a fresh pose.
    Translating,
    /// The timed drive has been issued; the unconditional stop is next.
    Stopping,
    /// The episode is over; no further motion.
    Done,
}

/// What the embedding program must do after one controller step.
#[derive(Clone, Copy, Debug, PartialEq, Eq, Structural)]
pub enum NavAction {
    /// Send no command; read the tracker again on the next control tick.
    Wait,
    /// Send this command, then keep stepping at the control rate.
    Send { command: VelocityCommand },
    /// Send this command, suspend for the duration, then step again.
    Drive { command: VelocityCommand, duration_nanos: i64 },
    /// Nothing remains to do.
    Finished,
}

/// The rotation command issued once at rotation entry: angular speed of
/// fixed magnitude whose sign is the sign of the initial angular error,
/// and no linear speed.
pub open spec fn rotation_command(err: int) -> VelocityCommand {
    VelocityCommand { linear_x: 0, angular_z: (sign(err) * ANGULAR_SPEED_MICRO) as i64 }
}

/// The straight-drive command: fixed forward speed, no rotation.
pub open spec fn drive_command() -> VelocityCommand {
    VelocityCommand { linear_x: LINEAR_SPEED_MICRO, angular_z: 0 }
}

/// The reading meets the rotation stopping condition for `bearing`: a pose
/// is present and its yaw is within the alignment tolerance of the bearing.
pub open spec fn aligned(bearing: int, reading: Option<Pose>) -> bool {
    reading matches Some(p) && iabs(bearing - p.yaw()) < ALIGN_TOLERANCE_MICRO
}

/// Drives one navigation episode toward a fixed goal.
#[derive(Clone, Copy, Debug, PartialEq, Eq, Structural)]
pub struct NavigationController {
    pub goal: GoalPoint,
    pub phase: NavPhase,
}

/// The transition relation of the controller: the phase after a step and
/// the action that step returns, from the current phase and the tracker
/// reading handed to it.
pub open spec fn nav_step_spec(c: NavigationController, reading: Option<Pose>) -> (NavPhase,
    NavAction) {
    match c.phase {
        NavPhase::AwaitingFirstPose => match reading {
            None => (NavPhase::AwaitingFirstPose, NavAction::Wait),
            Some(p) => {
                let b = bearing_spec(p.x as int, p.y as int, c.goal.x as int, c.goal.y as int);
                (
                    NavPhase::Rotating { bearing: b as i64 },
                    NavAction::Send { command: rotation_command(b - p.yaw()) },
                )
            },
        },
        NavPhase::Rotating { bearing } => match reading {
            None => (c.phase, NavAction::Wait),
            Some(p) => if iabs(bearing - p.yaw()) < ALIGN_TOLERANCE_MICRO {
                (NavPhase::Translating, NavAction::Send { command: stop_command() })
            } else {
                (c.phase, NavAction::Wait)
            },
        },
        NavPhase::Translating => match reading {
            None => (NavPhase::Done, NavAction::Finished),
            Some(p) => {
                let d = sqrt_floor(
                    dist_sq_spec(p.x as int, p.y as int, c.goal.x as int, c.goal.y as int),
                );
                (
                    NavPhase::Stopping,
                    NavAction::Drive {
                        command: drive_command(),
                        duration_nanos: (d * NANOS_PER_SECOND / (LINEAR_SPEED_MICRO as int)) as i64,
                    },
                )
            },
        },
        NavPhase::Stopping => (NavPhase::Done, NavAction::Send { command: stop_command() }),
        NavPhase::Done => (NavPhase::Done, NavAction::Finished),
    }
}

impl NavigationController {
    /// The goal is in range, and a rotation phase only ever holds a bearing
    /// in `(-pi, pi]`.
    pub open spec fn wf(self) -> bool {
        &&& self.goal.wf()
        &&& self.phase matches NavPhase::Rotating { bearing } ==> -PI_MICRO < bearing
            <= PI_MICRO
    }

    /// A fresh controller: no pose seen yet.
    pub fn new(goal: GoalPoint) -> (c: NavigationController)
        requires
            goal.wf(),
        ensures
            c.goal == goal,
            c.phase is AwaitingFirstPose,
            c.wf(),
    {
        NavigationController { goal, phase: NavPhase::AwaitingFirstPose }
    }

    /// One step of the episode, from the tracker's current reading.
    pub fn step(&mut self, reading: Option<Pose>) -> (a: NavAction)
        requires
            old(self).wf(),
            reading matches Some(p) ==> p.wf(),
        ensures
            final(self).wf(),
            final(self).goal == old(self).goal,
            (final(self).phase, a) == nav_step_spec(*old(self), reading),
    {
        match self.phase {
            NavPhase::AwaitingFirstPose => match reading {
                None => NavAction::Wait,
                Some(p) => {
                    let b = bearing_to(&p, &self.goal);
                    let yaw = yaw_from_quat_z(p.qz);
                    let err: i64 = b - yaw;
                    let dir: i64 = if err > 0 {
                        1
                    } else if err < 0 {
                        -1
                    } else {
                        0
                    };
                    let cmd = VelocityCommand { linear_x: 0, angular_z: dir * ANGULAR_SPEED_MICRO };
                    self.phase = NavPhase::Rotating { bearing: b };
                    NavAction::Send { command: cmd }
                },
            },
            NavPhase::Rotating { bearing } => match reading {
                None => NavAction::Wait,
                Some(p) => {
                    let yaw = yaw_from_quat_z(p.qz);
                    let diff: i64 = bearing - yaw;
                    let adiff: i64 = if diff < 0 {
                        -diff
                    } else {
                        diff
                    };
                    if adiff < ALIGN_TOLERANCE_MICRO {
                        self.phase = NavPhase::Translating;
                        NavAction::Send { command: VelocityCommand::stop() }
                    } else {
                        NavAction::Wait
                    }
                },
            },
            NavPhase::Translating => match reading {
                None => {
                    self.phase = NavPhase::Done;
                    NavAction::Finished
                },
                Some(p) => {
                    let d = distance_micro(p.x, p.y, self.goal.x, self.goal.y);
                    let ns = travel_duration_nanos(d);
                    self.phase = NavPhase::Stopping;
                    NavAction::Drive {
                        command: VelocityCommand { linear_x: LINEAR_SPEED_MICRO, angular_z: 0 },
                        duration_nanos: ns,
                    }
                },
            },
            NavPhase::Stopping => {
                self.phase = NavPhase::Done;
                NavAction::Send { command: VelocityCommand::stop() }
            },
            NavPhase::Done => NavAction::Finished,
        }
    }
}

/// The controller after one spec step, with its goal unchanged.
pub open spec fn nav_next(c: NavigationController, reading: Option<Pose>) -> NavigationController {
    NavigationController { goal: c.goal, phase: nav_step_spec(c, reading).0 }
}

/// The controller after consuming a whole sequence of tracker readings,
/// one per control tick.
pub open spec fn nav_run(c: NavigationController, readings: Seq<Option<Pose>>)
    -> NavigationController
    decreases readings.len(),
{
    if readings.len() == 0 {
        c
    } else {
        nav_run(nav_next(c, readings[0]), readings.drop_first())
    }
}

/// Law: the first-pose barrier, one tick at a time. Before any pose has
/// arrived, a tick without a reading computes nothing, sends nothing, and
/// leaves the controller waiting.
pub proof fn lemma_barrier_step(c: NavigationController)
    requires
        c.phase is AwaitingFirstPose,
    ensures
        nav_step_spec(c, None) == (NavPhase::AwaitingFirstPose, NavAction::Wait),
{
}

/// Law: the first-pose barrier over a whole run. Given no pose update at
/// all, the rotation phase never starts, however many ticks pass.
pub proof fn lemma_barrier_run(c: NavigationController, readings: Seq<Option<Pose>>)
    requires
        c.phase is AwaitingFirstPose,
        forall|i: int| 0 <= i < readings.len() ==> #[trigger] readings[i] is None,
    ensures
        nav_run(c, readings).phase is AwaitingFirstPose,
    decreases readings.len(),
{
    if readings.len() > 0 {
        assert(readings[0] is None);
        let rest = readings.drop_first();
        assert forall|i: int| 0 <= i < rest.len() implies #[trigger] rest[i] is None by {
            assert(rest[i] == readings[i + 1]);
        }
        lemma_barrier_run(nav_next(c, readings[0]), rest);
    }
}

/// Law: the rotation loop stops exactly once, at the first aligned tick.
/// While no reading meets the stopping condition the controller keeps
/// rotating toward the bearing fixed at entry, unchanged, and sends
/// nothing (the entry command is never revised mid-rotation); the first
/// reading that does meet it sends the stop command on that very tick and
/// moves the episode to the translation phase.
pub proof fn lemma_rotation_stops_at_first_aligned(
    c: NavigationController,
    b: i64,
    readings: Seq<Option<Pose>>,
    k: int,
)
    requires
        c.phase == (NavPhase::Rotating { bearing: b }),
        0 <= k < readings.len(),
        forall|i: int| 0 <= i < k ==> !aligned(b as int, #[trigger] readings[i]),
        aligned(b as int, readings[k]),
    ensures
        nav_run(c, readings.take(k)) == c,
        forall|i: int| 0 <= i < k ==> nav_step_spec(c, #[trigger] readings[i]).1
            == NavAction::Wait,
        nav_step_spec(nav_run(c, readings.take(k)), readings[k]) == (
            NavPhase::Translating,
            NavAction::Send { command: stop_command() },
        ),
    decreases k,
{
    if k == 0 {
        assert(readings.take(0) =~= Seq::<Option<Pose>>::empty());
    } else {
        assert(!aligned(b as int, readings[0]));
        let c1 = nav_next(c, readings[0]);
        assert(c1 == c);
        let rest = readings.drop_first();
        assert forall|i: int| 0 <= i < k - 1 implies !aligned(b as int, #[trigger] rest[i]) by {
            assert(rest[i] == readings[i + 1]);
        }
        assert(rest[k - 1] == readings[k]);
        lemma_rotation_stops_at_first_aligned(c, b, rest, k - 1);
        assert(readings.take(k).drop_first() =~= rest.take(k - 1));
        assert(nav_run(c, readings.take(k)) == nav_run(c1, readings.take(k).drop_first()));
    }
}

/// Law: the episode only moves forward. Once rotation has ended, no later
/// step re-enters the rotation phase or the barrier, so the transition to
/// the translation phase happens at most once.
pub proof fn lemma_no_return_to_rotation(c: NavigationController, reading: Option<Pose>)
    requires
        !(c.phase is AwaitingFirstPose),
        !(c.phase is Rotating),
    ensures
        !(nav_step_spec(c, reading).0 is AwaitingFirstPose),
        !(nav_step_spec(c, reading).0 is Rotating),
{
}

/// Law: the stop after the timed drive is unconditional. Once the drive
/// has been issued, the next step sends the stop command whatever the
/// tracker reads; no position is re-checked before the duration elapses.
pub proof fn lemma_stop_after_drive_unconditional(
    c: NavigationController,
    r1: Option<Pose>,
    r2: Option<Pose>,
)
    requires
        c.phase is Stopping,
    ensures
        nav_step_spec(c, r1) == nav_step_spec(c, r2),
        nav_step_spec(c, r1).1 == (NavAction::Send { command: stop_command() }),
{
}

} // verus!
