use crate::types::BridgeError;
use vstd::prelude::*;

verus! {

/// Monotonic counter from which the transaction identifiers of minted coins
/// are derived. It is never decremented or reset.
#[derive(Clone, Copy, Debug, PartialEq, Eq, Structural)]
pub struct IdentifierAllocator {
    next: u64,
}

/// One call of `next_index`: `before` and `after` are the allocator around
/// the call, `r` its result.
pub open spec fn allocation_step(before: IdentifierAllocator, after: IdentifierAllocator, r: Result<u64, BridgeError>) -> bool {
    &&& before.next_value() == u64::MAX ==> r == Err::<u64, BridgeError>(BridgeError::IdentifiersExhausted) && after == before
    &&& before.next_value() < u64::MAX ==> r == Ok::<u64, BridgeError>(before.next_value())
        && after.next_value() == before.next_value() + 1
}

impl IdentifierAllocator {
    /// The index that the next successful allocation returns.
    pub closed spec fn next_value(&self) -> u64 {
        self.next
    }

    pub fn new() -> (r: Self)
        ensures
            r.next_value() == 0,
    {
        IdentifierAllocator { next: 0 }
    }

    /// An allocator whose next index is `next`, as persisted by the host.
    pub fn starting_at(next: u64) -> (r: Self)
        ensures
            r.next_value() == next,
    {
        IdentifierAllocator { next }
    }

    /// The index that the next successful allocation returns.
    pub fn current(&self) -> (r: u64)
        ensures
            r == self.next_value(),
    {
        self.next
    }

    /// Returns the current index and advances the counter; fails, changing
    /// nothing, once the counter has no value left.
    pub fn next_index(&mut self) -> (r: Result<u64, BridgeError>)
        ensures
            allocation_step(*old(self), *final(self), r),
    {
        if self.next == u64::MAX {
            return Err(BridgeError::IdentifiersExhausted);
        }
        let index = self.next;
        self.next = self.next + 1;
        Ok(index)
    }
}

} // verus!
