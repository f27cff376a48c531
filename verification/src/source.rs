use vstd::prelude::*;

verus! {

/// A source of random draws, injected into [`crate::Agent::reproduce`].
///
/// The contract models a deterministic draw stream: each specification
/// function says what the next draw of its kind returns and what state the
/// source is left in, and each executable method must agree with them. A
/// mutation is therefore an exact function of the parent and the source's
/// state — a scripted implementation replays a recorded run draw for draw
/// — while independent sources keep concurrent reproduction uncorrelated.
pub trait RandomSource: Sized {
    /// Whether the next gate draw against `chance` fires.
    spec fn next_gate(&self, chance: u32) -> bool;

    /// The state after one gate draw.
    spec fn after_gate(&self, chance: u32) -> Self;

    /// What the next index draw from `[0, n)` returns.
    spec fn next_pick(&self, n: usize) -> usize;

    /// The state after one index draw.
    spec fn after_pick(&self, n: usize) -> Self;

    /// What the next weight draw below `max` returns.
    spec fn next_weight(&self, max: u32) -> u32;

    /// The state after one weight draw.
    spec fn after_weight(&self, max: u32) -> Self;

    /// Decide one mutation gate: whether the next uniform draw from `[0, 1)`
    /// falls below `chance` (given as the bits of an IEEE 754
    /// single-precision value in `[0, 1]`).
    fn gate(&mut self, chance: u32) -> (r: bool)
        ensures
            r == old(self).next_gate(chance),
            *final(self) == old(self).after_gate(chance),
    ;

    /// Draw an index uniformly from `[0, n)`.
    fn pick(&mut self, n: usize) -> (r: usize)
        requires
            n > 0,
        ensures
            r < n,
            r == old(self).next_pick(n),
            *final(self) == old(self).after_pick(n),
    ;

    /// Draw a connection weight uniformly from `[-max, max)`, where `max`
    /// holds the bits of a positive IEEE 754 single-precision value; the
    /// result is returned the same way.
    fn weight_between(&mut self, max: u32) -> (r: u32)
        ensures
            r == old(self).next_weight(max),
            *final(self) == old(self).after_weight(max),
    ;
}

} // verus!
