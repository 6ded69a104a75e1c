//! Tests of the navigation state machine: the first-pose barrier, the
//! rotation loop, the timed drive and the final stop.

use point_nav::command::VelocityCommand;
use point_nav::controller::{NavAction, NavPhase, NavigationController};
use point_nav::pose::{GoalPoint, Pose, PoseTracker};
use point_nav::QUARTER_PI_MICRO;

fn stop() -> VelocityCommand {
    VelocityCommand { linear_x: 0, angular_z: 0 }
}

#[test]
fn barrier_holds_without_any_pose() {
    let mut c = NavigationController::new(GoalPoint { x: 1_000_000, y: 1_000_000 });
    for _ in 0..5 {
        assert_eq!(c.step(None), NavAction::Wait);
        assert!(matches!(c.phase, NavPhase::AwaitingFirstPose));
    }
}

#[test]
fn rotation_entry_toward_diagonal_goal() {
    // Pose at the origin facing along x; goal on the diagonal. The bearing
    // is a quarter pi and the robot turns counter-clockwise at fixed speed.
    let mut c = NavigationController::new(GoalPoint { x: 1_000_000, y: 1_000_000 });
    let a = c.step(Some(Pose { x: 0, y: 0, qz: 0 }));
    assert_eq!(
        a,
        NavAction::Send { command: VelocityCommand { linear_x: 0, angular_z: 200_000 } }
    );
    assert_eq!(c.phase, NavPhase::Rotating { bearing: QUARTER_PI_MICRO });
}

#[test]
fn rotation_entry_clockwise_for_negative_error() {
    // Goal straight below: bearing is -pi/2, the initial error is negative,
    // so the angular command is negative.
    let mut c = NavigationController::new(GoalPoint { x: 0, y: -1_000_000 });
    let a = c.step(Some(Pose { x: 0, y: 0, qz: 0 }));
    assert_eq!(
        a,
        NavAction::Send { command: VelocityCommand { linear_x: 0, angular_z: -200_000 } }
    );
}

#[test]
fn rotation_stops_on_first_tick_when_already_aligned() {
    // Goal straight ahead: the bearing is zero, the yaw is zero, the error
    // is already below the tolerance, so the very first rotation tick stops.
    let mut c = NavigationController::new(GoalPoint { x: 1_000_000, y: 0 });
    let pose = Pose { x: 0, y: 0, qz: 0 };
    let entry = c.step(Some(pose));
    assert_eq!(
        entry,
        NavAction::Send { command: VelocityCommand { linear_x: 0, angular_z: 0 } }
    );
    assert_eq!(c.phase, NavPhase::Rotating { bearing: 0 });
    let first_tick = c.step(Some(pose));
    assert_eq!(first_tick, NavAction::Send { command: stop() });
    assert_eq!(c.phase, NavPhase::Translating);
}

#[test]
fn rotation_stops_exactly_at_first_aligned_tick() {
    // Bearing a quarter pi; the feed delivers two far-off yaws, one missing
    // reading, then a yaw within tolerance. The stop goes out on that tick
    // and only on that tick.
    let mut c = NavigationController::new(GoalPoint { x: 1_000_000, y: 1_000_000 });
    c.step(Some(Pose { x: 0, y: 0, qz: 0 }));
    assert_eq!(c.phase, NavPhase::Rotating { bearing: QUARTER_PI_MICRO });

    assert_eq!(c.step(Some(Pose { x: 0, y: 0, qz: 0 })), NavAction::Wait);
    assert_eq!(c.step(Some(Pose { x: 0, y: 0, qz: 100_000 })), NavAction::Wait);
    assert_eq!(c.step(None), NavAction::Wait);
    assert_eq!(c.phase, NavPhase::Rotating { bearing: QUARTER_PI_MICRO });

    // qz = sin(pi/8) scaled: a yaw within tolerance of a quarter pi.
    let aligned = c.step(Some(Pose { x: 0, y: 0, qz: 382_683 }));
    assert_eq!(aligned, NavAction::Send { command: stop() });
    assert_eq!(c.phase, NavPhase::Translating);
}

#[test]
fn translation_reads_a_fresh_pose() {
    // The drive is computed from the pose read at translation entry, not
    // from the pose seen during rotation: half a unit at 0.2 units per
    // second takes two and a half seconds.
    let mut c = NavigationController::new(GoalPoint { x: 1_000_000, y: 0 });
    let start = Pose { x: 0, y: 0, qz: 0 };
    c.step(Some(start));
    c.step(Some(start));
    assert_eq!(c.phase, NavPhase::Translating);
    let drifted = Pose { x: 500_000, y: 0, qz: 0 };
    let drive = c.step(Some(drifted));
    assert_eq!(
        drive,
        NavAction::Drive {
            command: VelocityCommand { linear_x: 200_000, angular_z: 0 },
            duration_nanos: 2_500_000_000,
        }
    );
    assert_eq!(c.phase, NavPhase::Stopping);
}

#[test]
fn goal_at_current_position_stops_immediately() {
    // Distance zero: the drive lasts zero nanoseconds and the stop command
    // follows at once, unconditionally.
    let mut c = NavigationController::new(GoalPoint { x: 0, y: 0 });
    let pose = Pose { x: 0, y: 0, qz: 0 };

    let entry = c.step(Some(pose));
    assert_eq!(
        entry,
        NavAction::Send { command: VelocityCommand { linear_x: 0, angular_z: 0 } }
    );
    assert_eq!(c.step(Some(pose)), NavAction::Send { command: stop() });
    assert_eq!(c.phase, NavPhase::Translating);

    let drive = c.step(Some(pose));
    assert_eq!(
        drive,
        NavAction::Drive {
            command: VelocityCommand { linear_x: 200_000, angular_z: 0 },
            duration_nanos: 0,
        }
    );

    assert_eq!(c.step(Some(pose)), NavAction::Send { command: stop() });
    assert_eq!(c.phase, NavPhase::Done);
    assert_eq!(c.step(Some(pose)), NavAction::Finished);
}

#[test]
fn stop_after_drive_ignores_the_reading() {
    let mut c = NavigationController::new(GoalPoint { x: 1_000_000, y: 0 });
    let pose = Pose { x: 0, y: 0, qz: 0 };
    c.step(Some(pose));
    c.step(Some(pose));
    c.step(Some(pose));
    assert_eq!(c.phase, NavPhase::Stopping);
    // No reading at all: the stop still goes out.
    assert_eq!(c.step(None), NavAction::Send { command: stop() });
    assert_eq!(c.phase, NavPhase::Done);
}

#[test]
fn tracker_keeps_the_last_write() {
    let mut t = PoseTracker::new();
    assert_eq!(t.read(), None);
    assert_eq!(t.angle(), None);
    t.update(Pose { x: 1, y: 2, qz: 3 });
    t.update(Pose { x: 4, y: 5, qz: 0 });
    assert_eq!(t.read(), Some(Pose { x: 4, y: 5, qz: 0 }));
    assert_eq!(t.angle(), Some(0));
}
