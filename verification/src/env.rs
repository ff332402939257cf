//! The check made before the daemon starts, for the vendor tool.
//!
//! The daemon must not start its work unless the tool it drives the keyboard
//! with can be run. The caller runs the tool once, asking it for its
//! information, and hands the way that run ended to
//! [`validate_dependencies`].

use crate::executor::ToolExit;
use vstd::prelude::*;

verus! {

/// Why the daemon must not start.
#[derive(Clone, Copy, Debug, PartialEq, Eq, Structural)]
pub enum StartupError {
    /// The vendor tool could not be started: it is not installed, or not
    /// allowed to run.
    ToolNotStarted,
    /// The vendor tool ran and left this exit status, which is not zero.
    ToolFailed(i32),
    /// The address of the controller server is no socket address.
    InvalidAddress,
    /// No connection to the controller server could be made.
    ServerUnreachable,
    /// The controller server did not answer the question for its number of
    /// controllers.
    QueryFailed,
}

impl StartupError {
    /// What the user should do about the error.
    pub open spec fn advice_text(self) -> Seq<char> {
        match self {
            StartupError::ToolNotStarted | StartupError::ToolFailed(_) =>
                "Ensure asusctl is installed and running."@,
            _ => "Ensure OpenRGB is running and the SDK Server is enabled."@,
        }
    }

    /// What the user should do about the error: which of the two outside
    /// programs to look after.
    pub fn advice(&self) -> (text: &'static str)
        ensures
            text@ == self.advice_text(),
    {
        match self {
            StartupError::ToolNotStarted | StartupError::ToolFailed(_) => {
                "Ensure asusctl is installed and running."
            },
            _ => "Ensure OpenRGB is running and the SDK Server is enabled.",
        }
    }
}

/// Whether the daemon may start, given how the trial run of the vendor tool
/// ended: only when the tool ran and left the status zero.
pub open spec fn tool_verdict(probe: ToolExit) -> Result<(), StartupError> {
    match probe {
        ToolExit::NotStarted => Err(StartupError::ToolNotStarted),
        ToolExit::Status(code) => if code == 0 {
            Ok(())
        } else {
            Err(StartupError::ToolFailed(code))
        },
    }
}

/// Judges the trial run of the vendor tool.
pub fn validate_asusctl_connection(probe: ToolExit) -> (res: Result<(), StartupError>)
    ensures
        res == tool_verdict(probe),
{
    match probe {
        ToolExit::NotStarted => Err(StartupError::ToolNotStarted),
        ToolExit::Status(code) => if code == 0 {
            Ok(())
        } else {
            Err(StartupError::ToolFailed(code))
        },
    }
}

/// Decides whether the daemon may start, given how the trial run of the
/// vendor tool ended.
pub fn validate_dependencies(probe: ToolExit) -> (res: Result<(), StartupError>)
    ensures
        res == tool_verdict(probe),
        res is Ok <==> probe.succeeded(),
{
    validate_asusctl_connection(probe)
}

} // verus!
