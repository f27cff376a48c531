use vstd::prelude::*;

verus! {

/// The numeric capability an agent is evaluated with.
///
/// The library stores activations and weights as the raw bits of IEEE 754
/// single-precision values and never interprets them; the caller supplies
/// the per-layer activation functions and the two arithmetic primitives the
/// accumulation pass is built from. Each executable method must return
/// exactly what its specification function says, so evaluation is a
/// mathematical function of the agent, the input and the chosen operations.
pub trait ScalarOps {
    /// The value of the activation function of `layer` at `x`.
    spec fn activate_spec(&self, layer: usize, x: u32) -> u32;

    /// The sum of `a` and `b`.
    spec fn plus_spec(&self, a: u32, b: u32) -> u32;

    /// The product of `a` and `b`.
    spec fn times_spec(&self, a: u32, b: u32) -> u32;

    /// Apply the activation function of `layer` (0 = input, 1 = hidden).
    fn activate(&self, layer: usize, x: u32) -> (r: u32)
        requires
            layer == 0 || layer == 1,
        ensures
            r == self.activate_spec(layer, x),
    ;

    /// Add two values.
    fn plus(&self, a: u32, b: u32) -> (r: u32)
        ensures
            r == self.plus_spec(a, b),
    ;

    /// Multiply two values.
    fn times(&self, a: u32, b: u32) -> (r: u32)
        ensures
            r == self.times_spec(a, b),
    ;
}

} // verus!
