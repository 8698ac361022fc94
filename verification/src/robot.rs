//! Operating states of the robot and the rules that move between them.
use vstd::prelude::*;

verus! {

/// The operational state of the robot.
#[derive(Debug, Clone, Copy, PartialEq, Eq, Structural)]
pub enum RobotState {
    Idle,
    Navigating,
    AvoidingObstacle,
    LowBattery,
    Finished,
}

/// The name under which a state is written to telemetry.
pub open spec fn state_name(state: RobotState) -> Seq<char> {
    match state {
        RobotState::Idle => "Idle"@,
        RobotState::Navigating => "Navigating"@,
        RobotState::AvoidingObstacle => "AvoidingObstacle"@,
        RobotState::LowBattery => "LowBattery"@,
        RobotState::Finished => "Finished"@,
    }
}

/// The state after the robot has moved and spent battery: a depleted battery
/// forces `LowBattery`, except on a robot that has finished its route.
pub open spec fn state_after_motion(state: RobotState, battery_depleted: bool) -> RobotState {
    if battery_depleted && state != RobotState::Finished {
        RobotState::LowBattery
    } else {
        state
    }
}

/// The control loop stops once the route is finished or the battery is low.
pub open spec fn mission_over(state: RobotState) -> bool {
    state == RobotState::Finished || state == RobotState::LowBattery
}

impl RobotState {
    /// The state's name, as written to the telemetry log.
    pub fn as_str(self) -> (name: &'static str)
        ensures
            name@ == state_name(self),
            self == RobotState::Idle ==> name@ == "Idle"@,
            self == RobotState::Navigating ==> name@ == "Navigating"@,
            self == RobotState::AvoidingObstacle ==> name@ == "AvoidingObstacle"@,
            self == RobotState::LowBattery ==> name@ == "LowBattery"@,
            self == RobotState::Finished ==> name@ == "Finished"@,
    {
        match self {
            RobotState::Idle => "Idle",
            RobotState::Navigating => "Navigating",
            RobotState::AvoidingObstacle => "AvoidingObstacle",
            RobotState::LowBattery => "LowBattery",
            RobotState::Finished => "Finished",
        }
    }

    /// The state after the robot has moved and spent battery: a depleted
    /// battery forces `LowBattery`, except on a robot that has finished its
    /// route.
    pub fn after_motion(self, battery_depleted: bool) -> (next: RobotState)
        ensures
            next == state_after_motion(self, battery_depleted),
            self == RobotState::Finished ==> next == RobotState::Finished,
            battery_depleted && self != RobotState::Finished ==> next == RobotState::LowBattery,
            !battery_depleted ==> next == self,
    {
        if battery_depleted && self != RobotState::Finished {
            RobotState::LowBattery
        } else {
            self
        }
    }

    /// Whether the control loop stops in this state: once the route is
    /// finished or the battery is low.
    pub fn ends_mission(self) -> (stop: bool)
        ensures
            stop == mission_over(self),
            stop <==> (self == RobotState::Finished || self == RobotState::LowBattery),
    {
        self == RobotState::Finished || self == RobotState::LowBattery
    }
}

/// Telemetry tells states apart: different states are written under
/// different names.
pub proof fn lemma_state_names_distinct(a: RobotState, b: RobotState)
    requires
        a != b,
    ensures
        state_name(a) != state_name(b),
{
    reveal_strlit("Idle");
    reveal_strlit("Navigating");
    reveal_strlit("AvoidingObstacle");
    reveal_strlit("LowBattery");
    reveal_strlit("Finished");
    assert("Idle"@.len() == 4);
    assert("Navigating"@.len() == 10);
    assert("AvoidingObstacle"@.len() == 16);
    assert("LowBattery"@.len() == 10);
    assert("Finished"@.len() == 8);
    assert("Navigating"@[0] != "LowBattery"@[0]);
}

} // verus!
