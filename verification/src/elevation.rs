//! Elevation handling.  The core never relaunches itself; the interface layer
//! owns that, so asking for it here is always refused.

use vstd::prelude::*;
use vstd::string::StringExecFns;

verus! {

/// Always refused: relaunching with raised privileges is the interface
/// layer's job.
pub fn relaunch_as_admin() -> (r: Result<(), String>)
    ensures
        r is Err,
        r->Err_0@ == "relaunch not implemented in core; UI should call pkexec/sudo"@,
{
    let mut m = String::new();
    m.append("relaunch not implemented in core; UI should call pkexec/sudo");
    Err(m)
}

} // verus!
