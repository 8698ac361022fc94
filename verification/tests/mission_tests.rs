use ironpath::mission::{control_period_micros, Maneuver, MissionStatus, TickObservation};
use ironpath::robot::RobotState;

fn obs(route_finished: bool, battery_low: bool, obstacle_near: bool, route_direction: bool) -> TickObservation {
    TickObservation { route_finished, battery_low, obstacle_near, route_direction }
}

#[test]
fn mission_starts_navigating_with_nothing_avoided() {
    let status = MissionStatus::start();
    assert_eq!(status.state, RobotState::Navigating);
    assert!(!status.was_avoiding);
    assert_eq!(status.obstacles_avoided, 0);
}

#[test]
fn finished_route_takes_priority() {
    let status = MissionStatus { state: RobotState::AvoidingObstacle, was_avoiding: true, obstacles_avoided: 2 };
    let (next, maneuver) = status.plan_tick(obs(true, true, true, true));
    assert_eq!(next.state, RobotState::Finished);
    assert!(next.was_avoiding);
    assert_eq!(next.obstacles_avoided, 2);
    assert_eq!(maneuver, Maneuver::Hold);
}

#[test]
fn low_battery_comes_before_avoidance() {
    let status = MissionStatus::start();
    let (next, maneuver) = status.plan_tick(obs(false, true, true, true));
    assert_eq!(next.state, RobotState::LowBattery);
    assert_eq!(next.obstacles_avoided, 0);
    assert_eq!(maneuver, Maneuver::Hold);
}

#[test]
fn each_avoidance_episode_is_counted_once() {
    let mut status = MissionStatus::start();
    let ticks = [
        (obs(false, false, true, true), Maneuver::AvoidObstacle, 1),
        (obs(false, false, true, true), Maneuver::AvoidObstacle, 1),
        (obs(false, false, false, true), Maneuver::FollowRoute, 1),
        (obs(false, false, true, true), Maneuver::AvoidObstacle, 2),
        (obs(false, false, false, true), Maneuver::FollowRoute, 2),
        (obs(false, false, false, true), Maneuver::FollowRoute, 2),
        (obs(false, false, true, false), Maneuver::AvoidObstacle, 3),
    ];
    for (o, expected_maneuver, expected_count) in ticks {
        let (next, maneuver) = status.plan_tick(o);
        assert_eq!(maneuver, expected_maneuver);
        assert_eq!(next.obstacles_avoided, expected_count);
        status = next;
    }
    assert_eq!(status.state, RobotState::AvoidingObstacle);
}

#[test]
fn navigating_clears_the_avoiding_flag() {
    let status = MissionStatus { state: RobotState::AvoidingObstacle, was_avoiding: true, obstacles_avoided: 1 };
    let (next, maneuver) = status.plan_tick(obs(false, false, false, true));
    assert_eq!(next.state, RobotState::Navigating);
    assert!(!next.was_avoiding);
    assert_eq!(next.obstacles_avoided, 1);
    assert_eq!(maneuver, Maneuver::FollowRoute);
}

#[test]
fn nothing_to_do_keeps_the_status() {
    let status = MissionStatus { state: RobotState::AvoidingObstacle, was_avoiding: true, obstacles_avoided: 4 };
    let (next, maneuver) = status.plan_tick(obs(false, false, false, false));
    assert_eq!(next.state, RobotState::AvoidingObstacle);
    assert!(next.was_avoiding);
    assert_eq!(next.obstacles_avoided, 4);
    assert_eq!(maneuver, Maneuver::Hold);
}

#[test]
fn avoidance_start_is_reported_before_planning() {
    let fresh = MissionStatus::start();
    assert!(fresh.starts_avoidance(obs(false, false, true, true)));
    assert!(!fresh.starts_avoidance(obs(true, false, true, true)));
    assert!(!fresh.starts_avoidance(obs(false, true, true, true)));
    assert!(!fresh.starts_avoidance(obs(false, false, false, true)));
    let avoiding = MissionStatus { state: RobotState::AvoidingObstacle, was_avoiding: true, obstacles_avoided: 1 };
    assert!(!avoiding.starts_avoidance(obs(false, false, true, true)));
}

#[test]
fn control_period_divides_a_second() {
    assert_eq!(control_period_micros(100), 10_000);
    assert_eq!(control_period_micros(1), 1_000_000);
    assert_eq!(control_period_micros(3), 333_333);
    assert_eq!(control_period_micros(2_000_000), 0);
}

#[test]
fn whole_run_never_idle_and_counts_episodes() {
    let mut status = MissionStatus::start();
    let mut robot_state = status.state;
    // Each tick: observation and whether the battery was depleted after moving.
    let ticks = [
        (obs(false, false, false, true), false),
        (obs(false, false, true, true), false),
        (obs(false, false, true, true), false),
        (obs(false, false, false, true), false),
        (obs(false, false, true, true), false),
        (obs(false, false, false, true), true),
    ];
    let mut steps = 0;
    for (o, depleted) in ticks {
        status.state = robot_state;
        let (next, maneuver) = status.plan_tick(o);
        status = next;
        robot_state = status.state;
        if maneuver != Maneuver::Hold {
            robot_state = robot_state.after_motion(depleted);
        }
        steps += 1;
        assert_ne!(robot_state, RobotState::Idle);
        if robot_state.ends_mission() {
            break;
        }
    }
    assert_eq!(steps, 6);
    assert_eq!(robot_state, RobotState::LowBattery);
    assert_eq!(status.obstacles_avoided, 2);
}
