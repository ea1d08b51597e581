//! The object behind the JSON-RPC example: a counter that answers pings.
use vstd::prelude::*;

verus! {

/// A counter that can be read, incremented and pinged.
pub struct ObjNetwork {
    c: u32,
}

impl ObjNetwork {
    /// The current count.
    pub closed spec fn count(&self) -> nat {
        self.c as nat
    }

    /// A counter at zero.
    pub fn new() -> (r: ObjNetwork)
        ensures
            r.count() == 0,
    {
        ObjNetwork { c: 0 }
    }

    /// Always answers "pong".
    pub fn ping(&self) -> (r: String)
        ensures
            r@ == "pong"@,
    {
        "pong".to_owned()
    }

    /// The current count.
    pub fn get(&self) -> (r: u32)
        ensures
            r == self.count(),
    {
        self.c
    }

    /// Adds one to the count; the count must not be at its largest value.
    pub fn inc(&mut self)
        requires
            old(self).count() < u32::MAX,
        ensures
            final(self).count() == old(self).count() + 1,
    {
        self.c = self.c + 1;
    }
}

} // verus!
