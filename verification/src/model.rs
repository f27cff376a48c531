use vstd::prelude::*;

use crate::connection::Connection;
use crate::source::RandomSource;

verus! {

/// The mathematical value of an [`crate::Agent`]: the same shape with the
/// value buffers and the connection list as sequences. The mutation
/// operator is specified as a function over this model, threading the draw
/// source's state through every draw.
#[verifier::ext_equal]
pub struct AgentModel {
    pub inputs: usize,
    pub nodes: usize,
    pub connections: usize,
    pub outputs: usize,
    pub input_values: Seq<u32>,
    pub hidden_values: Seq<u32>,
    pub output_values: Seq<u32>,
    pub connection_list: Seq<Connection>,
}

/// The repair of one connection when hidden slot `idx` is deleted and
/// `nodes` hidden slots remain: first the start endpoint, then the end
/// endpoint, each drawing a replacement index only when it referenced
/// exactly the deleted slot.
pub open spec fn repair_one_model<R: RandomSource>(
    c: Connection,
    idx: usize,
    nodes: usize,
    inputs: usize,
    outputs: usize,
    r: R,
) -> (Connection, R) {
    let (c1, r1) = if c.start_layer == 1 && c.start_idx >= idx {
        if c.start_idx == idx {
            if nodes > 0 {
                (
                    Connection {
                        start_layer: c.start_layer,
                        end_layer: c.end_layer,
                        start_idx: r.next_pick(nodes),
                        end_idx: c.end_idx,
                        weight: c.weight,
                    },
                    r.after_pick(nodes),
                )
            } else {
                (
                    Connection {
                        start_layer: 0,
                        end_layer: c.end_layer,
                        start_idx: r.next_pick(inputs),
                        end_idx: c.end_idx,
                        weight: c.weight,
                    },
                    r.after_pick(inputs),
                )
            }
        } else {
            (
                Connection {
                    start_layer: c.start_layer,
                    end_layer: c.end_layer,
                    start_idx: (c.start_idx - 1) as usize,
                    end_idx: c.end_idx,
                    weight: c.weight,
                },
                r,
            )
        }
    } else {
        (c, r)
    };
    if c1.end_layer == 1 && c1.end_idx >= idx {
        if c1.end_idx == idx {
            if nodes > 0 {
                (
                    Connection {
                        start_layer: c1.start_layer,
                        end_layer: c1.end_layer,
                        start_idx: c1.start_idx,
                        end_idx: r1.next_pick(nodes),
                        weight: c1.weight,
                    },
                    r1.after_pick(nodes),
                )
            } else {
                (
                    Connection {
                        start_layer: c1.start_layer,
                        end_layer: 2,
                        start_idx: c1.start_idx,
                        end_idx: r1.next_pick(outputs),
                        weight: c1.weight,
                    },
                    r1.after_pick(outputs),
                )
            }
        } else {
            (
                Connection {
                    start_layer: c1.start_layer,
                    end_layer: c1.end_layer,
                    start_idx: c1.start_idx,
                    end_idx: (c1.end_idx - 1) as usize,
                    weight: c1.weight,
                },
                r1,
            )
        }
    } else {
        (c1, r1)
    }
}

/// The repair of a whole connection list, front to back, threading the
/// draw source through each connection in turn.
pub open spec fn repair_list_model<R: RandomSource>(
    list: Seq<Connection>,
    idx: usize,
    nodes: usize,
    inputs: usize,
    outputs: usize,
    r: R,
) -> (Seq<Connection>, R)
    decreases list.len(),
{
    if list.len() == 0 {
        (list, r)
    } else {
        let (front, r1) = repair_list_model(list.drop_last(), idx, nodes, inputs, outputs, r);
        let (c, r2) = repair_one_model(list.last(), idx, nodes, inputs, outputs, r1);
        (front.push(c), r2)
    }
}

/// Deleting hidden slot `idx`: one fewer node, the last hidden value slot
/// dropped, every connection repaired in order.
pub open spec fn delete_node_model<R: RandomSource>(m: AgentModel, idx: usize, r: R) -> (
    AgentModel,
    R,
) {
    let nodes = (m.nodes - 1) as usize;
    let (list, r1) = repair_list_model(m.connection_list, idx, nodes, m.inputs, m.outputs, r);
    (
        AgentModel {
            inputs: m.inputs,
            nodes,
            connections: m.connections,
            outputs: m.outputs,
            input_values: m.input_values,
            hidden_values: m.hidden_values.drop_last(),
            output_values: m.output_values,
            connection_list: list,
        },
        r1,
    )
}

/// Adding a hidden node: one more node, a zeroed hidden value slot.
pub open spec fn add_node_model(m: AgentModel) -> AgentModel {
    AgentModel {
        inputs: m.inputs,
        nodes: (m.nodes + 1) as usize,
        connections: m.connections,
        outputs: m.outputs,
        input_values: m.input_values,
        hidden_values: m.hidden_values.push(0u32),
        output_values: m.output_values,
        connection_list: m.connection_list,
    }
}

/// Deleting the connection at `idx`.
pub open spec fn delete_connection_model(m: AgentModel, idx: usize) -> AgentModel {
    AgentModel {
        inputs: m.inputs,
        nodes: m.nodes,
        connections: (m.connections - 1) as usize,
        outputs: m.outputs,
        input_values: m.input_values,
        hidden_values: m.hidden_values,
        output_values: m.output_values,
        connection_list: m.connection_list.remove(idx as int),
    }
}

/// The freshly drawn connection appended by the add-connection edit, and
/// the source state after its draws: start layer from `{0, 1}` and end
/// layer from `{1, 2}` when a hidden node exists, else forced input to
/// output; each index drawn within its layer's bounds; then the weight.
pub open spec fn drawn_connection_model<R: RandomSource>(m: AgentModel, max_weight: u32, r: R) -> (
    Connection,
    R,
) {
    if m.nodes > 0 {
        let sl = r.next_pick(2);
        let r1 = r.after_pick(2);
        let (si, r2) = if sl == 0 {
            (r1.next_pick(m.inputs), r1.after_pick(m.inputs))
        } else {
            (r1.next_pick(m.nodes), r1.after_pick(m.nodes))
        };
        let el = (1 + r2.next_pick(2)) as usize;
        let r3 = r2.after_pick(2);
        let (ei, r4) = if el == 1 {
            (r3.next_pick(m.nodes), r3.after_pick(m.nodes))
        } else {
            (r3.next_pick(m.outputs), r3.after_pick(m.outputs))
        };
        (
            Connection {
                start_layer: sl,
                end_layer: el,
                start_idx: si,
                end_idx: ei,
                weight: r4.next_weight(max_weight),
            },
            r4.after_weight(max_weight),
        )
    } else {
        let si = r.next_pick(m.inputs);
        let r1 = r.after_pick(m.inputs);
        let ei = r1.next_pick(m.outputs);
        let r2 = r1.after_pick(m.outputs);
        (
            Connection {
                start_layer: 0,
                end_layer: 2,
                start_idx: si,
                end_idx: ei,
                weight: r2.next_weight(max_weight),
            },
            r2.after_weight(max_weight),
        )
    }
}

/// Adding a freshly drawn connection.
pub open spec fn add_connection_model<R: RandomSource>(m: AgentModel, max_weight: u32, r: R) -> (
    AgentModel,
    R,
) {
    let (c, r1) = drawn_connection_model(m, max_weight, r);
    (
        AgentModel {
            inputs: m.inputs,
            nodes: m.nodes,
            connections: (m.connections + 1) as usize,
            outputs: m.outputs,
            input_values: m.input_values,
            hidden_values: m.hidden_values,
            output_values: m.output_values,
            connection_list: m.connection_list.push(c),
        },
        r1,
    )
}

/// The rewired form of connection `c`: layers redrawn (forced to input →
/// output when no hidden node exists), then both endpoint indices redrawn
/// within the new layers' bounds; the weight is kept.
pub open spec fn rewired_connection_model<R: RandomSource>(
    c: Connection,
    m: AgentModel,
    r: R,
) -> (Connection, R) {
    let (sl, el, r2) = if m.nodes > 0 {
        let sl = r.next_pick(2);
        let r1 = r.after_pick(2);
        (sl, (1 + r1.next_pick(2)) as usize, r1.after_pick(2))
    } else {
        (0usize, 2usize, r)
    };
    let (si, r3) = if sl == 0 {
        (r2.next_pick(m.inputs), r2.after_pick(m.inputs))
    } else {
        (r2.next_pick(m.nodes), r2.after_pick(m.nodes))
    };
    let (ei, r4) = if el == 1 {
        (r3.next_pick(m.nodes), r3.after_pick(m.nodes))
    } else {
        (r3.next_pick(m.outputs), r3.after_pick(m.outputs))
    };
    (
        Connection { start_layer: sl, end_layer: el, start_idx: si, end_idx: ei, weight: c.weight },
        r4,
    )
}

/// Rewiring the connection at `idx`.
pub open spec fn rewire_model<R: RandomSource>(m: AgentModel, idx: usize, r: R) -> (AgentModel, R) {
    let (c, r1) = rewired_connection_model(m.connection_list[idx as int], m, r);
    (
        AgentModel {
            inputs: m.inputs,
            nodes: m.nodes,
            connections: m.connections,
            outputs: m.outputs,
            input_values: m.input_values,
            hidden_values: m.hidden_values,
            output_values: m.output_values,
            connection_list: m.connection_list.update(idx as int, c),
        },
        r1,
    )
}

/// Replacing the weight of the connection at `idx` with `w`.
pub open spec fn reweight_model(m: AgentModel, idx: usize, w: u32) -> AgentModel {
    let c = m.connection_list[idx as int];
    AgentModel {
        inputs: m.inputs,
        nodes: m.nodes,
        connections: m.connections,
        outputs: m.outputs,
        input_values: m.input_values,
        hidden_values: m.hidden_values,
        output_values: m.output_values,
        connection_list: m.connection_list.update(
            idx as int,
            Connection {
                start_layer: c.start_layer,
                end_layer: c.end_layer,
                start_idx: c.start_idx,
                end_idx: c.end_idx,
                weight: w,
            },
        ),
    }
}

/// The whole mutation: six gates drawn unconditionally in a fixed order,
/// each edit applied only when its gate fires and its precondition holds.
/// Reproduction is this function of the parent's model and the source's
/// state — determinism for a fixed draw sequence is exactly this.
pub open spec fn reproduce_model<R: RandomSource>(
    m: AgentModel,
    new_node_chance: u32,
    new_connection_chance: u32,
    delete_node_chance: u32,
    delete_connection_chance: u32,
    change_weight_chance: u32,
    change_connection_chance: u32,
    max_weight: u32,
    r: R,
) -> (AgentModel, R) {
    let g1 = r.next_gate(delete_node_chance);
    let r1 = r.after_gate(delete_node_chance);
    let (m1, r2) = if g1 && m.nodes > 0 {
        let idx = r1.next_pick(m.nodes);
        delete_node_model(m, idx, r1.after_pick(m.nodes))
    } else {
        (m, r1)
    };
    let g2 = r2.next_gate(new_node_chance);
    let r3 = r2.after_gate(new_node_chance);
    let (m2, r4) = if g2 {
        (add_node_model(m1), r3)
    } else {
        (m1, r3)
    };
    let g3 = r4.next_gate(delete_connection_chance);
    let r5 = r4.after_gate(delete_connection_chance);
    let (m3, r6) = if g3 && m2.connections > 0 {
        let idx = r5.next_pick(m2.connections);
        (delete_connection_model(m2, idx), r5.after_pick(m2.connections))
    } else {
        (m2, r5)
    };
    let g4 = r6.next_gate(new_connection_chance);
    let r7 = r6.after_gate(new_connection_chance);
    let (m4, r8) = if g4 {
        add_connection_model(m3, max_weight, r7)
    } else {
        (m3, r7)
    };
    let g5 = r8.next_gate(change_connection_chance);
    let r9 = r8.after_gate(change_connection_chance);
    let (m5, r10) = if g5 && m4.connections > 0 {
        let idx = r9.next_pick(m4.connections);
        rewire_model(m4, idx, r9.after_pick(m4.connections))
    } else {
        (m4, r9)
    };
    let g6 = r10.next_gate(change_weight_chance);
    let r11 = r10.after_gate(change_weight_chance);
    if g6 && m5.connections > 0 {
        let idx = r11.next_pick(m5.connections);
        let r12 = r11.after_pick(m5.connections);
        let w = r12.next_weight(max_weight);
        (reweight_model(m5, idx, w), r12.after_weight(max_weight))
    } else {
        (m5, r11)
    }
}

} // verus!
