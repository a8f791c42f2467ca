//! Request identifiers.

use vstd::prelude::*;

verus! {

/// Numbers requests in the order in which they arrive, starting at zero.
#[derive(Debug)]
pub struct CounterRequestId {
    counter: u64,
}

/// The number after `id`; after the largest number the count starts over.
pub open spec fn following_request_id(id: u64) -> u64 {
    if id == u64::MAX {
        0
    } else {
        (id + 1) as u64
    }
}

impl CounterRequestId {
    /// The identifier that the next request gets.
    pub closed spec fn next_request_id(&self) -> u64 {
        self.counter
    }

    pub fn new() -> (counter: Self)
        ensures
            counter.next_request_id() == 0,
    {
        CounterRequestId { counter: 0 }
    }

    /// Hands out the identifier of the next request.
    pub fn make_request_id(&mut self) -> (request_id: u64)
        ensures
            request_id == old(self).next_request_id(),
            final(self).next_request_id() == following_request_id(request_id),
    {
        let request_id = self.counter;
        self.counter = if request_id == u64::MAX {
            0
        } else {
            request_id + 1
        };
        request_id
    }
}

impl Default for CounterRequestId {
    fn default() -> (counter: Self)
        ensures
            counter.next_request_id() == 0,
    {
        Self::new()
    }
}

} // verus!
