use ironpath::robot::RobotState;

#[test]
fn state_names_match_telemetry_column() {
    assert_eq!(RobotState::Idle.as_str(), "Idle");
    assert_eq!(RobotState::Navigating.as_str(), "Navigating");
    assert_eq!(RobotState::AvoidingObstacle.as_str(), "AvoidingObstacle");
    assert_eq!(RobotState::LowBattery.as_str(), "LowBattery");
    assert_eq!(RobotState::Finished.as_str(), "Finished");
}

#[test]
fn depleted_battery_forces_low_battery_state() {
    assert_eq!(RobotState::Navigating.after_motion(true), RobotState::LowBattery);
    assert_eq!(RobotState::AvoidingObstacle.after_motion(true), RobotState::LowBattery);
    assert_eq!(RobotState::Idle.after_motion(true), RobotState::LowBattery);
    assert_eq!(RobotState::LowBattery.after_motion(true), RobotState::LowBattery);
}

#[test]
fn finished_robot_keeps_finished_state_on_depleted_battery() {
    assert_eq!(RobotState::Finished.after_motion(true), RobotState::Finished);
}

#[test]
fn charged_battery_leaves_state_unchanged() {
    assert_eq!(RobotState::Navigating.after_motion(false), RobotState::Navigating);
    assert_eq!(RobotState::AvoidingObstacle.after_motion(false), RobotState::AvoidingObstacle);
    assert_eq!(RobotState::Finished.after_motion(false), RobotState::Finished);
}

#[test]
fn mission_ends_only_when_finished_or_low_battery() {
    assert!(RobotState::Finished.ends_mission());
    assert!(RobotState::LowBattery.ends_mission());
    assert!(!RobotState::Idle.ends_mission());
    assert!(!RobotState::Navigating.ends_mission());
    assert!(!RobotState::AvoidingObstacle.ends_mission());
}
