//! The service unit under which the daemon runs in a user session.

use vstd::prelude::*;
use vstd::string::*;

verus! {

/// The unit up to the command line.
pub open spec fn unit_head() -> Seq<char> {
    "[Unit]\nDescription=Aura XDG Accent Color Sync\nAfter=graphical-session.target\nPartOf=graphical-session.target\n\n[Service]\nExecStart="@
}

/// The unit after the command line.
pub open spec fn unit_tail() -> Seq<char> {
    "\nRestart=always\nRestartSec=5\nEnvironment=XDG_DATA_DIRS=%h/.local/share:/usr/local/share:/usr/share\n\n[Install]\nWantedBy=graphical-session.target"@
}

/// The text of the service unit that starts the daemon with the given
/// command line: the command line, taken as it is, between the fixed parts
/// of the unit.
pub fn generate_service_content(exec_start: &str) -> (content: String)
    ensures
        content@ == unit_head() + exec_start@ + unit_tail(),
{
    let mut content = String::from_str(
        "[Unit]\nDescription=Aura XDG Accent Color Sync\nAfter=graphical-session.target\nPartOf=graphical-session.target\n\n[Service]\nExecStart=",
    );
    content.append(exec_start);
    content.append(
        "\nRestart=always\nRestartSec=5\nEnvironment=XDG_DATA_DIRS=%h/.local/share:/usr/local/share:/usr/share\n\n[Install]\nWantedBy=graphical-session.target",
    );
    content
}

} // verus!
