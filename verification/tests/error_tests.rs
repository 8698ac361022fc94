use ironpath::SimulationError;

#[test]
fn channel_closed_message_names_the_channel() {
    let err = SimulationError::ChannelClosed("sensor packet");
    assert_eq!(err.message(), "channel closed: sensor packet");
}

#[test]
fn invalid_config_message_carries_the_reason() {
    let err = SimulationError::InvalidConfig("control rate is zero");
    assert_eq!(err.message(), "invalid configuration: control rate is zero");
}

#[test]
fn io_message_carries_the_io_error() {
    let io_err = std::io::Error::new(std::io::ErrorKind::NotFound, "no such file");
    let err = SimulationError::Io(io_err);
    assert_eq!(err.message(), "I/O error: no such file");
}

#[test]
fn io_errors_convert_to_io_variant() {
    let io_err = std::io::Error::new(std::io::ErrorKind::Other, "disk full");
    let err: SimulationError = io_err.into();
    assert!(matches!(err, SimulationError::Io(_)));
    assert_eq!(err.message(), "I/O error: disk full");
}

#[test]
fn failed_sends_convert_to_closed_send_channel() {
    let (tx, rx) = std::sync::mpsc::channel::<u32>();
    drop(rx);
    let send_err = tx.send(7).unwrap_err();
    let err: SimulationError = send_err.into();
    assert!(matches!(err, SimulationError::ChannelClosed("send")));
}
