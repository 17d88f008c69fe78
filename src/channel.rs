use vstd::prelude::*;
use crate::digits::DisplayValues;

verus! {

/// The producer's handle on the display: a single-slot mailbox holding at most
/// one pending pair of values. A write replaces any pair not yet taken.
#[non_exhaustive]
pub struct DisplayController {
    pending: Option<DisplayValues>,
}

impl View for DisplayController {
    type V = Option<(u16, u16)>;

    /// The pending pair, if any.
    closed spec fn view(&self) -> Option<(u16, u16)> {
        match self.pending {
            Some(v) => Some((v.left, v.right)),
            None => None,
        }
    }
}

impl DisplayController {
    /// An empty slot.
    pub fn new() -> (r: DisplayController)
        ensures
            r@ == None::<(u16, u16)>,
    {
        DisplayController { pending: None }
    }

    /// Stores `(left, right)` as the pending pair, dropping any pair not yet taken.
    pub fn set_values(&mut self, left: u16, right: u16)
        ensures
            final(self)@ == Some((left, right)),
    {
        self.pending = Some(DisplayValues { left, right });
    }

    /// Takes the pending pair, leaving the slot empty.
    pub fn try_take(&mut self) -> (r: Option<DisplayValues>)
        ensures
            final(self)@ == None::<(u16, u16)>,
            old(self)@ == match r {
                Some(v) => Some((v.left, v.right)),
                None => None::<(u16, u16)>,
            },
    {
        self.pending.take()
    }
}

} // verus!
