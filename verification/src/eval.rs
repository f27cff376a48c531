use vstd::prelude::*;

use crate::agent::Agent;
use crate::connection::Connection;
use crate::ops::ScalarOps;

verus! {

/// A row of `n` zeroed value slots (`0u32` is the bit pattern of positive
/// zero, the value every buffer is reset to before an accumulation pass).
pub open spec fn zero_row(n: nat) -> Seq<u32> {
    Seq::new(n, |i: int| 0u32)
}

/// The connections of `s` whose layers are exactly `(sl, el)`, in their
/// original relative order.
pub open spec fn keep(s: Seq<Connection>, sl: usize, el: usize) -> Seq<Connection>
    decreases s.len(),
{
    if s.len() == 0 {
        Seq::empty()
    } else {
        let rest = keep(s.drop_last(), sl, el);
        if s.last().start_layer == sl && s.last().end_layer == el {
            rest.push(s.last())
        } else {
            rest
        }
    }
}

/// The connection list after the stable sort by `(start_layer, end_layer)`
/// ascending: under the feed-forward invariant only the four layer pairs
/// `(0, 1) < (0, 2) < (1, 1) < (1, 2)` occur, so the result is the four
/// groups in that order, each keeping its original relative order.
pub open spec fn sorted_spec(s: Seq<Connection>) -> Seq<Connection> {
    keep(s, 0, 1) + keep(s, 0, 2) + keep(s, 1, 1) + keep(s, 1, 2)
}

/// The value a connection reads: the current content of its source slot in
/// the input row (layer 0) or the hidden row (layer 1).
pub open spec fn source_value(bufs: (Seq<u32>, Seq<u32>, Seq<u32>), c: Connection) -> u32 {
    if c.start_layer == 0 {
        bufs.0[c.start_idx as int]
    } else {
        bufs.1[c.start_idx as int]
    }
}

/// One accumulation step: add the activated source value times the weight
/// into the destination slot. The source is read from the buffers as they
/// stand at this step, so a connection between two hidden slots sees any
/// contribution accumulated earlier in the same pass — a deliberate quirk
/// of the single-sweep evaluator, preserved exactly.
pub open spec fn apply_connection<A: ScalarOps>(
    ops: A,
    bufs: (Seq<u32>, Seq<u32>, Seq<u32>),
    c: Connection,
) -> (Seq<u32>, Seq<u32>, Seq<u32>) {
    let v = ops.times_spec(ops.activate_spec(c.start_layer, source_value(bufs, c)), c.weight);
    if c.end_layer == 1 {
        (bufs.0, bufs.1.update(c.end_idx as int, ops.plus_spec(bufs.1[c.end_idx as int], v)), bufs.2)
    } else {
        (bufs.0, bufs.1, bufs.2.update(c.end_idx as int, ops.plus_spec(bufs.2[c.end_idx as int], v)))
    }
}

/// The three value buffers after accumulating every connection of `cs`, in
/// order, starting from `bufs`.
pub open spec fn run_connections<A: ScalarOps>(
    ops: A,
    bufs: (Seq<u32>, Seq<u32>, Seq<u32>),
    cs: Seq<Connection>,
) -> (Seq<u32>, Seq<u32>, Seq<u32>)
    decreases cs.len(),
{
    if cs.len() == 0 {
        bufs
    } else {
        apply_connection(ops, run_connections(ops, bufs, cs.drop_last()), cs.last())
    }
}

/// What one evaluation of `a` on `input` returns: the output row after a
/// full accumulation pass over the stably sorted connections, starting from
/// the input row and freshly zeroed hidden and output rows.
pub open spec fn calculate_spec<A: ScalarOps>(ops: A, a: Agent, input: Seq<u32>) -> Seq<u32> {
    run_connections(
        ops,
        (input, zero_row(a.nodes as nat), zero_row(a.outputs as nat)),
        sorted_spec(a.connection_list@),
    ).2
}

} // verus!
