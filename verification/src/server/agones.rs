//! What the server tells the Agones SDK between its health checks.
use vstd::prelude::*;

verus! {

/// The state of the server as Agones knows it: allocated once its first room
/// was created.
#[derive(Debug, Clone, Copy, PartialEq, Eq, Structural)]
pub struct AgonesCycle {
    pub allocated: bool,
}

impl AgonesCycle {
    /// A server that is ready and not allocated.
    pub fn new() -> (r: AgonesCycle)
        ensures
            !r.allocated,
    {
        AgonesCycle { allocated: false }
    }

    /// One turn of the cycle, with the number of rooms created so far: the
    /// server asks to be allocated on the first turn that sees a room.
    pub fn on_tick(&mut self, created_room_counter: usize) -> (allocate: bool)
        ensures
            allocate == (!old(self).allocated && created_room_counter > 0),
            final(self).allocated == (old(self).allocated || allocate),
    {
        if !self.allocated && created_room_counter > 0 {
            self.allocated = true;
            true
        } else {
            false
        }
    }
}

} // verus!
