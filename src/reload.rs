use vstd::prelude::*;

verus! {

/// A single-slot change notification. Raising it while it is already pending
/// changes nothing, so a burst of changes collapses into one wake-up; it
/// carries no data, only that something changed since the last read.
#[derive(Clone, Debug)]
pub struct ReloadSignal {
    pub(crate) pending: bool,
}

impl View for ReloadSignal {
    type V = bool;

    open(crate) spec fn view(&self) -> bool {
        self.pending
    }
}

impl ReloadSignal {
    pub fn new() -> (r: ReloadSignal)
        ensures
            r@ == false,
    {
        ReloadSignal { pending: false }
    }

    /// Marks a change as pending.
    pub fn raise(&mut self)
        ensures
            final(self)@ == true,
    {
        self.pending = true;
    }

    /// Whether a change was pending; the signal is clear afterwards.
    pub fn take(&mut self) -> (r: bool)
        ensures
            r == old(self)@,
            final(self)@ == false,
    {
        let r = self.pending;
        self.pending = false;
        r
    }

    pub fn is_pending(&self) -> (r: bool)
        ensures
            r == self@,
    {
        self.pending
    }
}

} // verus!
