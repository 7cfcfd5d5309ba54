//! Ownership of the two distribution buffers.

use vstd::prelude::*;

verus! {

/// The authoritative distribution buffer and the one the next pass writes.
/// After a pass the roles swap; contents are never copied.
pub struct BufferPair<B> {
    pub current: B,
    pub next: B,
    /// Whether `current` is the buffer that was created second.
    pub flipped: bool,
}

/// The pair after one role swap.
pub open spec fn swapped<B>(p: BufferPair<B>) -> BufferPair<B> {
    BufferPair { current: p.next, next: p.current, flipped: !p.flipped }
}

impl<B> BufferPair<B> {
    /// A pair whose first buffer is authoritative.
    pub fn new(current: B, next: B) -> (r: Self)
        ensures
            r.current == current,
            r.next == next,
            !r.flipped,
    {
        BufferPair { current, next, flipped: false }
    }

    /// Hands the role of authoritative buffer to the one just written.
    pub fn swap(&mut self)
        ensures
            *final(self) == swapped(*old(self)),
    {
        core::mem::swap(&mut self.current, &mut self.next);
        self.flipped = !self.flipped;
    }
}

/// Swapping twice restores the original assignment of roles exactly.
pub proof fn lemma_swap_twice<B>(p: BufferPair<B>)
    ensures
        swapped(swapped(p)) == p,
{
}

} // verus!
