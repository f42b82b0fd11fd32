//! The command line that the login auto-start entry runs.

use vstd::prelude::*;

use vstd::string::StringExecFns;

verus! {

/// The auto-start command for the executable at `exe_path`: the path in double quotes
/// (it may hold spaces), then the daemon flag.
pub open spec fn command_for(exe_path: Seq<char>) -> Seq<char> {
    "\""@ + exe_path + "\" --daemon"@
}

/// Builds the command string stored in the auto-start entry.
pub fn build_command(exe_path: &str) -> (r: String)
    ensures
        r@ == command_for(exe_path@),
{
    let mut out = String::new();
    out.append("\"");
    out.append(exe_path);
    out.append("\" --daemon");
    proof {
        assert(out@ =~= command_for(exe_path@));
    }
    out
}

} // verus!
