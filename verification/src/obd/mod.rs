//! The ELM327 side of the OBD-II link: response errors and the response
//! parser with the PID decoders.

pub mod parser;

use parser::Measure;
use vstd::prelude::*;

verus! {

/// Errors of a request to the ELM327 adapter.
#[derive(Debug)]
pub enum ObdError {
    /// `NO DATA`: the ECU did not answer the PID.
    NoData,
    /// `STOPPED`: the ELM327 interrupted the search.
    Stopped,
    /// `ERROR` or `?`: generic error answer of the ELM327.
    DeviceError,
    /// `BUS INIT`: the CAN/KWP bus failed to initialise.
    BusInit,
    /// A malformed frame; the text says what was received.
    Corrupted(String),
    /// No answer within the time limit.
    Timeout,
    /// The link to the adapter failed; the text describes the failure.
    Transport(String),
}

/// The abstract value of an [`ObdError`]: its kind and its text.
pub enum ObdFault {
    NoData,
    Stopped,
    DeviceError,
    BusInit,
    Corrupted(Seq<char>),
    Timeout,
    Transport(Seq<char>),
}

impl View for ObdError {
    type V = ObdFault;

    open spec fn view(&self) -> ObdFault {
        match self {
            ObdError::NoData => ObdFault::NoData,
            ObdError::Stopped => ObdFault::Stopped,
            ObdError::DeviceError => ObdFault::DeviceError,
            ObdError::BusInit => ObdFault::BusInit,
            ObdError::Corrupted(s) => ObdFault::Corrupted(s@),
            ObdError::Timeout => ObdFault::Timeout,
            ObdError::Transport(s) => ObdFault::Transport(s@),
        }
    }
}

pub type ObdResult<T> = Result<T, ObdError>;

/// A decoded value of a PID, with its unit and the wall-clock time of the
/// reading (milliseconds since the Unix epoch).
#[derive(Debug, Clone, Copy)]
pub struct Reading {
    pub pid: &'static str,
    pub value: Measure,
    pub unit: &'static str,
    pub ts_ms: u64,
}

} // verus!
