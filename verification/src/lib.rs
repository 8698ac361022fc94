//! Decision core of a small autonomous ground-robot simulator: robot operating
//! states, waypoint progress, the per-tick mission decisions, deterministic
//! sensor noise generation and control-loop latency statistics.
pub mod mission;
pub mod navigation;
pub mod robot;
pub mod sensors;
pub mod telemetry;

use vstd::prelude::*;
use std::io;
use std::sync::mpsc;

verus! {

#[verifier::external_type_specification]
#[verifier::external_body]
pub struct ExIoError(io::Error);

#[verifier::external_type_specification]
#[verifier::external_body]
#[verifier::reject_recursive_types(T)]
pub struct ExSendError<T>(mpsc::SendError<T>);

/// Recoverable failures of a simulation run.
#[derive(Debug)]
pub enum SimulationError {
    /// Reading or writing a file failed.
    Io(io::Error),
    /// A channel between the simulation's threads was closed; names the channel.
    ChannelClosed(&'static str),
    /// The simulation was configured with unusable values.
    InvalidConfig(&'static str),
}

impl SimulationError {
    /// The human-readable description of the error.
    pub fn message(&self) -> (text: String)
        ensures
            match self {
                SimulationError::Io(err) => exists|detail: String|
                    vstd::string::to_string_from_display_ensures::<io::Error>(err, detail) && text@
                        == "I/O error: "@ + detail@,
                SimulationError::ChannelClosed(name) => text@ == "channel closed: "@ + name@,
                SimulationError::InvalidConfig(msg) => text@ == "invalid configuration: "@ + msg@,
            },
    {
        match self {
            SimulationError::Io(err) => {
                let detail = err.to_string();
                let text = <String as vstd::string::StringExecFns>::from_str("I/O error: ");
                text.concat(detail.as_str())
            },
            SimulationError::ChannelClosed(name) => {
                let text = <String as vstd::string::StringExecFns>::from_str("channel closed: ");
                text.concat(name)
            },
            SimulationError::InvalidConfig(msg) => {
                let text = <String as vstd::string::StringExecFns>::from_str(
                    "invalid configuration: ",
                );
                text.concat(msg)
            },
        }
    }
}

impl From<io::Error> for SimulationError {
    fn from(value: io::Error) -> (err: Self) {
        SimulationError::Io(value)
    }
}

impl vstd::std_specs::convert::FromSpecImpl<io::Error> for SimulationError {
    open spec fn obeys_from_spec() -> bool {
        true
    }

    open spec fn from_spec(v: io::Error) -> Self {
        SimulationError::Io(v)
    }
}

impl<T> From<mpsc::SendError<T>> for SimulationError {
    fn from(value: mpsc::SendError<T>) -> (err: Self) {
        SimulationError::ChannelClosed("send")
    }
}

impl<T> vstd::std_specs::convert::FromSpecImpl<mpsc::SendError<T>> for SimulationError {
    open spec fn obeys_from_spec() -> bool {
        true
    }

    open spec fn from_spec(v: mpsc::SendError<T>) -> Self {
        SimulationError::ChannelClosed("send")
    }
}

} // verus!
