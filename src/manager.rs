//! State shared by the daemon's activities.

use vstd::prelude::*;
use crate::commands::Cli;

verus! {

/// What the manager's functions share: the options it was started with.
pub struct MgrContext {
    pub args: Cli,
}

impl MgrContext {
    pub fn new(args: Cli) -> (r: MgrContext)
        ensures
            r.args == args,
    {
        MgrContext { args }
    }
}

} // verus!
