use vstd::prelude::*;

verus! {

/// Diagnostic record of a monitored process that stopped running: the
/// raw exit code reported by the operating system (absent when the
/// process was ended by a signal) and the standard-error text captured
/// while it ran.
#[derive(Debug)]
pub struct ExitInfo {
    pub exit_code: Option<i32>,
    pub stderr_text: String,
}

impl Clone for ExitInfo {
    fn clone(&self) -> (r: Self)
        ensures
            r == *self,
    {
        ExitInfo { exit_code: self.exit_code, stderr_text: self.stderr_text.clone() }
    }
}

/// Why a run, or the whole benchmark, stopped early.
#[derive(Debug)]
pub enum RunError {
    /// The monitored binary could not be launched, or did not answer a
    /// version query the way a runnable binary must.
    Spawn,
    /// No pair of free local ports was found before launch.
    PortUnavailable,
    /// The monitored process exited on its own while it was still needed.
    ProcessDied(ExitInfo),
    /// The control endpoint never answered within the readiness window.
    ReadinessTimeout,
    /// A metric could not be read during the collection loop.
    MetricReadFailure,
    /// Aggregation was requested over fewer samples than it needs.
    InsufficientData,
    /// Staging the dataset or writing a report failed.
    Io,
}

impl Clone for RunError {
    fn clone(&self) -> (r: Self)
        ensures
            r == *self,
    {
        match self {
            RunError::Spawn => RunError::Spawn,
            RunError::PortUnavailable => RunError::PortUnavailable,
            RunError::ProcessDied(info) => RunError::ProcessDied(info.clone()),
            RunError::ReadinessTimeout => RunError::ReadinessTimeout,
            RunError::MetricReadFailure => RunError::MetricReadFailure,
            RunError::InsufficientData => RunError::InsufficientData,
            RunError::Io => RunError::Io,
        }
    }
}

} // verus!
