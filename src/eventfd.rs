//! A non-blocking event counter.

use vstd::prelude::*;

verus! {

/// The largest value an event counter can hold.
pub const EVENTFD_MAX: u64 = 0xffff_ffff_ffff_fffe;

#[derive(Clone, Copy, Debug, PartialEq, Eq, Structural)]
pub struct EventFd {
    pub count: u64,
}

impl EventFd {
    pub fn new() -> (r: EventFd)
        ensures
            r.count == 0,
    {
        EventFd { count: 0 }
    }

    /// Adds `v` to the counter; a write that would pass the maximum fails
    /// and changes nothing.
    pub fn write(&mut self, v: u64) -> (r: Result<(), ()>)
        ensures
            (r is Ok) == (old(self).count + v <= EVENTFD_MAX),
            (r is Ok) ==> final(self).count == old(self).count + v,
            (r is Err) ==> *final(self) == *old(self),
    {
        if self.count > EVENTFD_MAX || v > EVENTFD_MAX - self.count {
            return Err(());
        }
        self.count = self.count + v;
        Ok(())
    }

    /// Takes the counter's value, leaving zero; with nothing signalled the read fails.
    pub fn read(&mut self) -> (r: Result<u64, ()>)
        ensures
            (r is Ok) == (old(self).count > 0),
            (r is Ok) ==> r == Ok::<u64, ()>(old(self).count) && final(self).count == 0,
            (r is Err) ==> *final(self) == *old(self),
    {
        if self.count == 0 {
            return Err(());
        }
        let v = self.count;
        self.count = 0;
        Ok(v)
    }
}

} // verus!
