//! A TCP-connect port scanner core: target and port-spec parsing, lazy
//! enumeration of the host x port target space, a bounded-concurrency
//! scheduler, per-probe retry classification, and result reporting.
//!
//! The scanning decisions live here as verified functions; the surrounding
//! program performs the actual connect attempts, name resolution and console
//! output, handing plain values back to this library.

pub mod enumerate;
pub mod ip;
pub mod ports;
pub mod probe;
pub mod report;
pub mod resolve;
pub mod scanner;
pub mod scheduler;
pub mod text;

use vstd::prelude::*;

use crate::ip::Ip;

verus! {

/// One probe's subject: a single (address, port) pair.
#[derive(Clone, Copy, Debug, PartialEq, Eq, Hash, PartialOrd, Ord, Structural)]
pub struct ScanTask {
    pub ip: Ip,
    pub port: u16,
}

/// The verdict on one scan task.
#[derive(Clone, Copy, Debug, PartialEq, Eq, Hash, PartialOrd, Ord, Structural)]
pub enum PortState {
    Open,
    Closed,
}

/// The terminal result of one scan task.
#[derive(Clone, Copy, Debug, PartialEq, Eq, Hash, PartialOrd, Ord, Structural)]
pub struct ScanOutcome {
    pub task: ScanTask,
    pub state: PortState,
}

/// How one probe settled: with a verdict, or with the process-wide
/// resource-exhaustion condition that aborts the whole run.
#[derive(Clone, Copy, Debug, PartialEq, Eq, Structural)]
pub enum Settlement {
    Finished(PortState),
    Fatal,
}

/// The run-terminating condition: the process ran out of descriptors, a sign
/// that the batch size is too high for its limits.
#[derive(Clone, Copy, Debug, PartialEq, Eq, Structural)]
pub struct FatalScanError {
    /// The concurrency ceiling the run was configured with; lowering it is
    /// the remedy.
    pub batch: usize,
}

/// A configuration fault that stops a run before any scanning begins.
#[derive(Clone, Copy, Debug, PartialEq, Eq, Structural)]
pub enum ConfigError {
    /// The port specification does not denote a list of ports.
    MalformedPortSpec,
    /// The console print level is outside the range of known modes.
    InvalidPrintLevel,
    /// The concurrency ceiling is zero: no probe could ever be launched.
    ZeroBatch,
    /// The retry budget is zero: no attempt could ever be made.
    ZeroTries,
}

} // verus!
