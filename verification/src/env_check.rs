//! The check made before the daemon starts, for the controller server.
//!
//! The caller tries to reach the server and asks it for its number of
//! controllers; how far it got is handed to [`validate_dependencies`].

use crate::env::StartupError;
use vstd::prelude::*;

verus! {

/// How far the trial connection to the controller server got.
#[derive(Clone, Copy, Debug, PartialEq, Eq, Structural)]
pub enum ServerProbe {
    /// Host and port did not make a socket address.
    InvalidAddress,
    /// The server did not accept the connection.
    Refused,
    /// The server was reached and did not say how many controllers it has.
    CountFailed,
    /// The server said how many controllers it has.
    Counted(u32),
}

/// Whether the daemon may start, given how far the trial connection got:
/// only when the server answered. How many controllers it has is of no
/// account.
pub open spec fn server_verdict(probe: ServerProbe) -> Result<(), StartupError> {
    match probe {
        ServerProbe::InvalidAddress => Err(StartupError::InvalidAddress),
        ServerProbe::Refused => Err(StartupError::ServerUnreachable),
        ServerProbe::CountFailed => Err(StartupError::QueryFailed),
        ServerProbe::Counted(_) => Ok(()),
    }
}

/// Judges the trial connection to the controller server.
pub fn validate_openrgb_connection(probe: ServerProbe) -> (res: Result<(), StartupError>)
    ensures
        res == server_verdict(probe),
{
    match probe {
        ServerProbe::InvalidAddress => Err(StartupError::InvalidAddress),
        ServerProbe::Refused => Err(StartupError::ServerUnreachable),
        ServerProbe::CountFailed => Err(StartupError::QueryFailed),
        ServerProbe::Counted(_) => Ok(()),
    }
}

/// Decides whether the daemon may start, given how far the trial connection
/// to the controller server got.
pub fn validate_dependencies(probe: ServerProbe) -> (res: Result<(), StartupError>)
    ensures
        res == server_verdict(probe),
        res is Ok <==> probe is Counted,
{
    validate_openrgb_connection(probe)
}

} // verus!
