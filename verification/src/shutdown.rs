//! Ending on a signal.
use vstd::prelude::*;

verus! {

/// The signal that asks to end, by number; zero while there is none.
#[derive(Debug, Clone, PartialEq, Eq, Structural)]
pub struct Shutdown {
    pub signal: usize,
}

impl Default for Shutdown {
    fn default() -> (shutdown: Shutdown)
        ensures
            shutdown.signal == 0,
    {
        Shutdown { signal: 0 }
    }
}

impl Shutdown {
    /// The signal that asked to end.
    pub open spec fn reported(self) -> Option<i32> {
        if 0 < self.signal <= i32::MAX {
            Some(self.signal as i32)
        } else {
            None
        }
    }

    pub fn requested(&self) -> (signal: Option<i32>)
        ensures
            signal == self.reported(),
    {
        if self.signal > 0 && self.signal <= 0x7fff_ffff {
            Some(self.signal as i32)
        } else {
            None
        }
    }
}

} // verus!
