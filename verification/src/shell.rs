//! Bookkeeping for XDG shell surfaces.

use vstd::prelude::*;

verus! {

/// Manages XDG shell surfaces.
pub struct ShellManager {}

impl ShellManager {
    /// A manager with nothing to manage yet.
    pub fn new() -> (m: Self) {
        ShellManager {  }
    }

    /// Answers a toplevel's configure request (the toplevel and its
    /// requested state are smithay's XDG toplevel and toplevel state). The
    /// manager keeps no state for toplevels, so nothing changes.
    pub fn handle_toplevel_configure<Toplevel, State>(&mut self, toplevel: &Toplevel, state: &State)
        ensures
            *final(self) == *old(self),
    {
    }

    /// Answers a toplevel's close request (the toplevel is smithay's XDG
    /// toplevel). The manager keeps no state for toplevels, so nothing changes.
    pub fn handle_toplevel_close<Toplevel>(&mut self, toplevel: &Toplevel)
        ensures
            *final(self) == *old(self),
    {
    }
}

} // verus!
