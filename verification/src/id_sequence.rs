//! Sequence ids for requests and pings.
use vstd::prelude::*;

verus! {

/// Generates `sequence_id`s for requests: 1, 2, 3, ..., wrapping past `u32::MAX`.
#[derive(Debug)]
pub struct IdSequence {
    next: u32,
}

impl View for IdSequence {
    type V = u32;

    /// The id the next call hands out.
    closed spec fn view(&self) -> u32 {
        self.next
    }
}

/// The id after `id`, wrapping past `u32::MAX`.
pub open spec fn successor(id: u32) -> u32 {
    if id == u32::MAX {
        0
    } else {
        (id + 1) as u32
    }
}

impl IdSequence {
    /// Hands out the next id.
    pub fn next(&mut self) -> (res: u32)
        ensures
            res == old(self)@,
            final(self)@ == successor(old(self)@),
    {
        let next = self.next;
        self.next = self.next.wrapping_add(1);
        next
    }
}

impl Default for IdSequence {
    /// A sequence that starts at 1.
    fn default() -> (res: Self)
        ensures
            res@ == 1,
    {
        Self { next: 1 }
    }
}

} // verus!
