//! The per-tick decisions of the control loop: which state the robot is in,
//! what it does this tick, and how many obstacles it has avoided.
use vstd::prelude::*;
use crate::robot::{RobotState, mission_over, state_after_motion};

verus! {

/// What the robot does during one control tick.
#[derive(Debug, Clone, Copy, PartialEq, Eq, Structural)]
pub enum Maneuver {
    /// No motion command this tick.
    Hold,
    /// Steer along the direction away from the nearest threatening obstacle.
    AvoidObstacle,
    /// Steer towards the active waypoint at full speed.
    FollowRoute,
}

/// What the control loop observed at the start of a tick.
#[derive(Debug, Clone, Copy)]
pub struct TickObservation {
    /// Every waypoint of the route has been reached.
    pub route_finished: bool,
    /// The battery level is at or below the low-battery threshold.
    pub battery_low: bool,
    /// An obstacle lies within the safety distance, so an avoidance
    /// direction is available.
    pub obstacle_near: bool,
    /// A direction towards the active waypoint is available.
    pub route_direction: bool,
}

/// The mission's bookkeeping between ticks.
#[derive(Debug, Clone, Copy)]
pub struct MissionStatus {
    /// The robot's operational state.
    pub state: RobotState,
    /// The previous avoiding tick has not yet been followed by a navigating one.
    pub was_avoiding: bool,
    /// How many times the robot has started avoiding an obstacle.
    pub obstacles_avoided: usize,
}

/// The tick starts an avoidance manoeuvre that was not already under way.
pub open spec fn starts_avoidance(status: MissionStatus, obs: TickObservation) -> bool {
    !obs.route_finished && !obs.battery_low && obs.obstacle_near && !status.was_avoiding
}

/// The manoeuvre chosen for a tick: finishing the route comes first, then a
/// low battery, then avoiding obstacles, then following the route.
pub open spec fn tick_maneuver(obs: TickObservation) -> Maneuver {
    if obs.route_finished || obs.battery_low {
        Maneuver::Hold
    } else if obs.obstacle_near {
        Maneuver::AvoidObstacle
    } else if obs.route_direction {
        Maneuver::FollowRoute
    } else {
        Maneuver::Hold
    }
}

/// The bookkeeping after a tick, before the robot's motion is applied.
pub open spec fn tick_status(status: MissionStatus, obs: TickObservation) -> MissionStatus {
    if obs.route_finished {
        MissionStatus { state: RobotState::Finished, ..status }
    } else if obs.battery_low {
        MissionStatus { state: RobotState::LowBattery, ..status }
    } else if obs.obstacle_near {
        MissionStatus {
            state: RobotState::AvoidingObstacle,
            was_avoiding: true,
            obstacles_avoided: if status.was_avoiding {
                status.obstacles_avoided
            } else {
                (status.obstacles_avoided + 1) as usize
            },
        }
    } else if obs.route_direction {
        MissionStatus { state: RobotState::Navigating, was_avoiding: false, ..status }
    } else {
        status
    }
}

impl MissionStatus {
    /// The status when the control loop starts: navigating, nothing avoided.
    pub fn start() -> (status: Self)
        ensures
            status.state == RobotState::Navigating,
            !status.was_avoiding,
            status.obstacles_avoided == 0,
    {
        MissionStatus { state: RobotState::Navigating, was_avoiding: false, obstacles_avoided: 0 }
    }

    /// Whether a tick with these observations starts an avoidance manoeuvre,
    /// the one case in which the avoided-obstacle count goes up.
    pub fn starts_avoidance(&self, obs: TickObservation) -> (starts: bool)
        ensures
            starts == starts_avoidance(*self, obs),
    {
        !obs.route_finished && !obs.battery_low && obs.obstacle_near && !self.was_avoiding
    }

    /// Decides one tick of the control loop from what was observed: the new
    /// bookkeeping and the manoeuvre to perform.
    pub fn plan_tick(&self, obs: TickObservation) -> (plan: (MissionStatus, Maneuver))
        requires
            starts_avoidance(*self, obs) ==> self.obstacles_avoided < usize::MAX,
        ensures
            plan.0 == tick_status(*self, obs),
            plan.1 == tick_maneuver(obs),
            obs.route_finished ==> plan.0.state == RobotState::Finished && plan.1 == Maneuver::Hold
                && plan.0.was_avoiding == self.was_avoiding && plan.0.obstacles_avoided == self.obstacles_avoided,
            !obs.route_finished && obs.battery_low ==> plan.0.state == RobotState::LowBattery && plan.1
                == Maneuver::Hold && plan.0.was_avoiding == self.was_avoiding && plan.0.obstacles_avoided
                == self.obstacles_avoided,
            !obs.route_finished && !obs.battery_low && obs.obstacle_near ==> plan.0.state
                == RobotState::AvoidingObstacle && plan.1 == Maneuver::AvoidObstacle && plan.0.was_avoiding
                && plan.0.obstacles_avoided == self.obstacles_avoided + if self.was_avoiding {
                0int
            } else {
                1int
            },
            !obs.route_finished && !obs.battery_low && !obs.obstacle_near && obs.route_direction ==> plan.0.state
                == RobotState::Navigating && plan.1 == Maneuver::FollowRoute && !plan.0.was_avoiding
                && plan.0.obstacles_avoided == self.obstacles_avoided,
            !obs.route_finished && !obs.battery_low && !obs.obstacle_near && !obs.route_direction ==> plan.0
                == *self && plan.1 == Maneuver::Hold,
    {
        if obs.route_finished {
            (MissionStatus { state: RobotState::Finished, ..*self }, Maneuver::Hold)
        } else if obs.battery_low {
            (MissionStatus { state: RobotState::LowBattery, ..*self }, Maneuver::Hold)
        } else if obs.obstacle_near {
            let count = if self.was_avoiding {
                self.obstacles_avoided
            } else {
                self.obstacles_avoided + 1
            };
            (
                MissionStatus {
                    state: RobotState::AvoidingObstacle,
                    was_avoiding: true,
                    obstacles_avoided: count,
                },
                Maneuver::AvoidObstacle,
            )
        } else if obs.route_direction {
            (
                MissionStatus { state: RobotState::Navigating, was_avoiding: false, ..*self },
                Maneuver::FollowRoute,
            )
        } else {
            (*self, Maneuver::Hold)
        }
    }
}

/// The decision table of a tick: a finished route stops the robot in
/// `Finished`; otherwise a low battery stops it in `LowBattery`; otherwise a
/// near obstacle is avoided, counting a new episode when the robot was not
/// already avoiding; otherwise the robot follows the route when it has a
/// direction, and nothing changes when it has none.
pub proof fn lemma_tick_decision_table(status: MissionStatus, obs: TickObservation)
    requires
        !obs.route_finished && !obs.battery_low && obs.obstacle_near && !status.was_avoiding
            ==> status.obstacles_avoided < usize::MAX,
    ensures
            obs.route_finished ==> tick_status(status, obs).state == RobotState::Finished && tick_maneuver(obs) == Maneuver::Hold
                && tick_status(status, obs).was_avoiding == status.was_avoiding && tick_status(status, obs).obstacles_avoided == status.obstacles_avoided,
            !obs.route_finished && obs.battery_low ==> tick_status(status, obs).state == RobotState::LowBattery && tick_maneuver(obs)
                == Maneuver::Hold && tick_status(status, obs).was_avoiding == status.was_avoiding && tick_status(status, obs).obstacles_avoided
                == status.obstacles_avoided,
            !obs.route_finished && !obs.battery_low && obs.obstacle_near ==> tick_status(status, obs).state
                == RobotState::AvoidingObstacle && tick_maneuver(obs) == Maneuver::AvoidObstacle && tick_status(status, obs).was_avoiding
                && tick_status(status, obs).obstacles_avoided == status.obstacles_avoided + if status.was_avoiding {
                0int
            } else {
                1int
            },
            !obs.route_finished && !obs.battery_low && !obs.obstacle_near && obs.route_direction ==> tick_status(status, obs).state
                == RobotState::Navigating && tick_maneuver(obs) == Maneuver::FollowRoute && !tick_status(status, obs).was_avoiding
                && tick_status(status, obs).obstacles_avoided == status.obstacles_avoided,
            !obs.route_finished && !obs.battery_low && !obs.obstacle_near && !obs.route_direction ==> tick_status(status, obs)
                == status && tick_maneuver(obs) == Maneuver::Hold,
{
}

/// The avoided-obstacle count goes up by one exactly on a tick that starts an
/// avoidance manoeuvre and is unchanged on every other tick; the robot moves
/// only in the avoiding and navigating states.
pub proof fn lemma_tick_counts_avoidance_starts(status: MissionStatus, obs: TickObservation)
    requires
        starts_avoidance(status, obs) ==> status.obstacles_avoided < usize::MAX,
    ensures
        tick_status(status, obs).obstacles_avoided == status.obstacles_avoided + if starts_avoidance(
            status,
            obs,
        ) {
            1int
        } else {
            0int
        },
        tick_maneuver(obs) == Maneuver::AvoidObstacle ==> tick_status(status, obs).state
            == RobotState::AvoidingObstacle,
        tick_maneuver(obs) == Maneuver::FollowRoute ==> tick_status(status, obs).state
            == RobotState::Navigating,
{
}

/// Length of one control period in microseconds, for a loop running at
/// `control_hz` ticks per second (rounded down).
pub fn control_period_micros(control_hz: u64) -> (micros: u64)
    requires
        control_hz > 0,
    ensures
        micros == 1_000_000int / control_hz as int,
{
    1_000_000 / control_hz
}

/// One whole tick of the control loop: the tick's decisions and, when the robot
/// moved, the battery rule applied after the motion; `battery_depleted` says
/// whether the battery was at or below the threshold after moving.
pub open spec fn tick_with_motion(
    status: MissionStatus,
    obs: TickObservation,
    battery_depleted: bool,
) -> MissionStatus {
    let planned = tick_status(status, obs);
    if tick_maneuver(obs) == Maneuver::Hold {
        planned
    } else {
        MissionStatus { state: state_after_motion(planned.state, battery_depleted), ..planned }
    }
}

/// The status after a run of ticks, each given by its observation and by
/// whether the battery was depleted after that tick's motion.
pub open spec fn status_after_run(
    status: MissionStatus,
    ticks: Seq<(TickObservation, bool)>,
) -> MissionStatus
    decreases ticks.len(),
{
    if ticks.len() == 0 {
        status
    } else {
        let last = ticks.last();
        tick_with_motion(status_after_run(status, ticks.drop_last()), last.0, last.1)
    }
}

/// The observations of a run of ticks.
pub open spec fn observations(ticks: Seq<(TickObservation, bool)>) -> Seq<TickObservation> {
    ticks.map_values(|t: (TickObservation, bool)| t.0)
}

/// Whether the robot's most recent motion during the observed ticks was an
/// avoidance manoeuvre (`was_avoiding` when it did not move at all).
pub open spec fn last_motion_avoids(was_avoiding: bool, obs: Seq<TickObservation>) -> bool
    decreases obs.len(),
{
    if obs.len() == 0 {
        was_avoiding
    } else {
        match tick_maneuver(obs.last()) {
            Maneuver::AvoidObstacle => true,
            Maneuver::FollowRoute => false,
            Maneuver::Hold => last_motion_avoids(was_avoiding, obs.drop_last()),
        }
    }
}

/// The number of avoidance episodes among the observed ticks: ticks that avoid
/// an obstacle while the robot's previous motion (or, before any motion,
/// `was_avoiding`) was not an avoidance manoeuvre.
pub open spec fn avoidance_episodes(was_avoiding: bool, obs: Seq<TickObservation>) -> nat
    decreases obs.len(),
{
    if obs.len() == 0 {
        0
    } else {
        avoidance_episodes(was_avoiding, obs.drop_last()) + if tick_maneuver(obs.last())
            == Maneuver::AvoidObstacle && !last_motion_avoids(was_avoiding, obs.drop_last()) {
            1nat
        } else {
            0nat
        }
    }
}

/// Over a whole run, the avoided-obstacle count grows by exactly the number of
/// avoidance episodes, and the avoiding flag records whether the latest motion
/// avoided an obstacle.
pub proof fn lemma_run_counts_avoidance_episodes(
    status: MissionStatus,
    ticks: Seq<(TickObservation, bool)>,
)
    requires
        status.obstacles_avoided + avoidance_episodes(status.was_avoiding, observations(ticks))
            <= usize::MAX,
    ensures
        status_after_run(status, ticks).obstacles_avoided == status.obstacles_avoided
            + avoidance_episodes(status.was_avoiding, observations(ticks)),
        status_after_run(status, ticks).was_avoiding == last_motion_avoids(
            status.was_avoiding,
            observations(ticks),
        ),
    decreases ticks.len(),
{
    if ticks.len() > 0 {
        let prefix = ticks.drop_last();
        assert(observations(prefix) =~= observations(ticks).drop_last());
        assert(observations(ticks).last() == ticks.last().0);
        lemma_run_counts_avoidance_episodes(status, prefix);
    }
}

/// A run that does not start idle never shows the robot idle, and every state
/// it reaches either ends the mission (`Finished`, `LowBattery`) or is one in
/// which the robot moves (`Navigating`, `AvoidingObstacle`).
pub proof fn lemma_run_never_idle(status: MissionStatus, ticks: Seq<(TickObservation, bool)>)
    requires
        status.state != RobotState::Idle,
    ensures
        status_after_run(status, ticks).state != RobotState::Idle,
        mission_over(status_after_run(status, ticks).state) || status_after_run(status, ticks).state
            == RobotState::Navigating || status_after_run(status, ticks).state
            == RobotState::AvoidingObstacle,
    decreases ticks.len(),
{
    if ticks.len() > 0 {
        lemma_run_never_idle(status, ticks.drop_last());
    }
}

/// Episodes add up over consecutive stretches of a run, the second stretch
/// starting from the avoiding flag left by the first; a single tick is an
/// episode exactly when it avoids an obstacle after a motion that did not, and
/// it leaves the flag set by an avoiding motion, cleared by a navigating one
/// and unchanged when the robot holds.
pub proof fn lemma_avoidance_episodes_additive(
    was_avoiding: bool,
    a: Seq<TickObservation>,
    b: Seq<TickObservation>,
)
    ensures
        avoidance_episodes(was_avoiding, a + b) == avoidance_episodes(was_avoiding, a)
            + avoidance_episodes(last_motion_avoids(was_avoiding, a), b),
        last_motion_avoids(was_avoiding, a + b) == last_motion_avoids(
            last_motion_avoids(was_avoiding, a),
            b,
        ),
        b.len() == 1 ==> avoidance_episodes(was_avoiding, b) == if tick_maneuver(b[0])
            == Maneuver::AvoidObstacle && !was_avoiding {
            1nat
        } else {
            0nat
        },
        b.len() == 1 ==> last_motion_avoids(was_avoiding, b) == match tick_maneuver(b[0]) {
            Maneuver::AvoidObstacle => true,
            Maneuver::FollowRoute => false,
            Maneuver::Hold => was_avoiding,
        },
    decreases b.len(),
{
    if b.len() == 1 {
        assert(b.drop_last() =~= Seq::<TickObservation>::empty());
        assert(b.last() == b[0]);
        assert(avoidance_episodes(was_avoiding, b.drop_last()) == 0);
        assert(last_motion_avoids(was_avoiding, b.drop_last()) == was_avoiding);
    }
    if b.len() == 0 {
        assert(a + b =~= a);
    } else {
        assert((a + b).drop_last() =~= a + b.drop_last());
        lemma_avoidance_episodes_additive(was_avoiding, a, b.drop_last());
    }
}

} // verus!
