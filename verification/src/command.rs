//! Velocity commands: the instruction values sent to the robot's drive.

use vstd::prelude::*;

verus! {

/// A velocity instruction: linear speed along the robot's forward axis and
/// angular speed about its vertical axis, both in micro-units per second.
/// The all-zero value is the explicit stop command.
#[derive(Clone, Copy, Debug, PartialEq, Eq, Structural)]
pub struct VelocityCommand {
    pub linear_x: i64,
    pub angular_z: i64,
}

/// The stop command: both components zero.
pub open spec fn stop_command() -> VelocityCommand {
    VelocityCommand { linear_x: 0, angular_z: 0 }
}

impl VelocityCommand {
    /// Both components are zero.
    pub open spec fn is_stop(self) -> bool {
        self.linear_x == 0 && self.angular_z == 0
    }

    /// Build the stop command.
    pub fn stop() -> (c: VelocityCommand)
        ensures
            c == stop_command(),
            c.is_stop(),
    {
        VelocityCommand { linear_x: 0, angular_z: 0 }
    }
}

/// Law: stopping is idempotent. Any command whose linear and angular
/// components are already zero is the stop command itself, so issuing a
/// stop while stopped repeats the identical message and needs no separate
/// "already stopped" treatment.
pub proof fn lemma_stop_idempotent(c: VelocityCommand)
    requires
        c.is_stop(),
    ensures
        c == stop_command(),
{
}

} // verus!
