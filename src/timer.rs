use vstd::prelude::*;

verus! {

/// The delay timer: one byte that counts down once per frame and stops at zero.
pub struct Timer {
    val: u8,
}

impl View for Timer {
    type V = u8;

    closed spec fn view(&self) -> u8 {
        self.val
    }
}

impl Timer {
    pub fn new() -> (t: Timer)
        ensures
            t@ == 0,
    {
        let val: u8 = 0;
        Timer { val }
    }

    pub fn get(&self) -> (r: u8)
        ensures
            r == self@,
    {
        self.val
    }

    pub fn set(&mut self, val: u8)
        ensures
            final(self)@ == val,
    {
        self.val = val;
    }

    /// Counts down by one, never below zero.
    pub fn decrement(&mut self)
        ensures
            final(self)@ == if old(self)@ > 0 { (old(self)@ - 1) as u8 } else { 0u8 },
    {
        if self.val > 0 {
            self.val -= 1;
        }
    }
}

} // verus!
