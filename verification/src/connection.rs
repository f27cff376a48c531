use vstd::prelude::*;

verus! {

/// A directed, weighted edge between two layer slots.
///
/// Layers are numbered 0 (input), 1 (hidden) and 2 (output). A connection
/// starts at the input or hidden layer and ends at the hidden or output
/// layer, so the graph is strictly feed-forward. The weight is carried as
/// the raw bits of an IEEE 754 single-precision value; the library never
/// interprets it numerically.
#[derive(Clone, Copy, PartialEq, Eq, Structural, Debug)]
pub struct Connection {
    pub start_layer: usize,
    pub end_layer: usize,
    pub start_idx: usize,
    pub end_idx: usize,
    pub weight: u32,
}

/// Referential integrity of one connection against the current layer sizes:
/// the layers respect the feed-forward direction and both endpoints name
/// existing slots.
pub open spec fn connection_wf(c: Connection, inputs: usize, nodes: usize, outputs: usize) -> bool {
    &&& c.start_layer == 0 || c.start_layer == 1
    &&& c.end_layer == 1 || c.end_layer == 2
    &&& c.start_idx < (if c.start_layer == 0 { inputs } else { nodes })
    &&& c.end_idx < (if c.end_layer == 1 { nodes } else { outputs })
}

/// How one endpoint survives the deletion of hidden slot `idx`, where
/// `nodes` is the hidden count after the deletion. An endpoint elsewhere is
/// untouched; a hidden endpoint above `idx` is shifted down one slot
/// (compaction); a hidden endpoint exactly at `idx` is redrawn among the
/// remaining hidden slots, or moved to layer `fallback_layer` (with an
/// index below `fallback_size`) when no hidden slot remains.
pub open spec fn repaired_endpoint(
    new_layer: usize,
    new_idx: usize,
    old_layer: usize,
    old_idx: usize,
    idx: usize,
    nodes: usize,
    fallback_layer: usize,
    fallback_size: usize,
) -> bool {
    if old_layer == 1 && old_idx >= idx {
        if old_idx == idx {
            if nodes > 0 {
                new_layer == 1 && new_idx < nodes
            } else {
                new_layer == fallback_layer && new_idx < fallback_size
            }
        } else {
            new_layer == 1 && new_idx == old_idx - 1
        }
    } else {
        new_layer == old_layer && new_idx == old_idx
    }
}

/// How a whole connection survives the deletion of hidden slot `idx` (with
/// `nodes` hidden slots left): the weight is kept, the start endpoint falls
/// back to the input layer, the end endpoint to the output layer.
pub open spec fn repaired_connection(
    n: Connection,
    c: Connection,
    idx: usize,
    nodes: usize,
    inputs: usize,
    outputs: usize,
) -> bool {
    &&& n.weight == c.weight
    &&& repaired_endpoint(n.start_layer, n.start_idx, c.start_layer, c.start_idx, idx, nodes, 0, inputs)
    &&& repaired_endpoint(n.end_layer, n.end_idx, c.end_layer, c.end_idx, idx, nodes, 2, outputs)
}

} // verus!
