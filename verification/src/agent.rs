use vstd::prelude::*;

use crate::connection::Connection;
use crate::connection::connection_wf;
use crate::connection::repaired_connection;
use crate::eval::calculate_spec;
use crate::eval::keep;
use crate::eval::run_connections;
use crate::eval::sorted_spec;
use crate::eval::zero_row;
use crate::model::add_connection_model;
use crate::model::add_node_model;
use crate::model::AgentModel;
use crate::model::delete_connection_model;
use crate::model::delete_node_model;
use crate::model::drawn_connection_model;
use crate::model::repair_list_model;
use crate::model::repair_one_model;
use crate::model::reproduce_model;
use crate::model::reweight_model;
use crate::model::rewire_model;
use crate::model::rewired_connection_model;
use crate::ops::ScalarOps;
use crate::source::RandomSource;

verus! {

/// The two ways an operation can fail: an input vector whose length differs
/// from the agent's input count, or a construction request with a negative
/// layer size. Mutation never fails; an edit that cannot legally apply is
/// skipped.
#[derive(Clone, Copy, PartialEq, Eq, Structural, Debug)]
pub enum AgentError {
    ShapeMismatch,
    ConstructionError,
}

/// One candidate network: three value layers (input, hidden, output) and a
/// list of weighted feed-forward connections between their slots.
///
/// `inputs` and `outputs` are fixed for the agent's lifetime; `nodes` (the
/// hidden-node count) and the connection list change only through
/// [`Agent::reproduce`]. `connections` always mirrors the length of
/// `connection_list`. The value buffers are scratch space overwritten by
/// every [`Agent::calculate`] call; all values are carried as the raw bits
/// of IEEE 754 single-precision numbers.
///
/// The fields are public so that contracts and callers can speak about
/// them directly, but writing them by hand can break [`Agent::well_formed`],
/// which every operation requires; use the public operations instead.
#[derive(Clone, PartialEq, Eq, Debug)]
pub struct Agent {
    pub inputs: usize,
    pub nodes: usize,
    pub connections: usize,
    pub outputs: usize,
    pub input_values: Vec<u32>,
    pub hidden_values: Vec<u32>,
    pub output_values: Vec<u32>,
    pub connection_list: Vec<Connection>,
}

impl Agent {
    /// Structural soundness: every buffer has the length its count claims,
    /// the connection count mirrors the list, and every connection points
    /// at existing slots in the feed-forward direction.
    pub open spec fn well_formed(&self) -> bool {
        &&& self.input_values@.len() == self.inputs
        &&& self.hidden_values@.len() == self.nodes
        &&& self.output_values@.len() == self.outputs
        &&& self.connections == self.connection_list@.len()
        &&& forall|i: int|
            0 <= i < self.connection_list@.len() ==> connection_wf(
                #[trigger] self.connection_list@[i],
                self.inputs,
                self.nodes,
                self.outputs,
            )
    }

    /// The mathematical value of this agent.
    pub open spec fn model(&self) -> AgentModel {
        AgentModel {
            inputs: self.inputs,
            nodes: self.nodes,
            connections: self.connections,
            outputs: self.outputs,
            input_values: self.input_values@,
            hidden_values: self.hidden_values@,
            output_values: self.output_values@,
            connection_list: self.connection_list@,
        }
    }

    /// A freshly created agent: the given layer sizes, no hidden nodes, no
    /// connections, and zeroed value buffers.
    pub open spec fn is_fresh(&self, inputs: usize, outputs: usize) -> bool {
        &&& self.inputs == inputs
        &&& self.outputs == outputs
        &&& self.nodes == 0
        &&& self.connections == 0
        &&& self.input_values@ == zero_row(inputs as nat)
        &&& self.hidden_values@ == zero_row(0)
        &&& self.output_values@ == zero_row(outputs as nat)
        &&& self.connection_list@ == Seq::<Connection>::empty()
    }

    /// Create `amount` independent, fully disconnected agents with the given
    /// layer sizes. Fails with `ConstructionError` exactly when a layer size
    /// is negative; a non-positive `amount` yields no agents.
    pub fn create_agents(amount: i32, inputs: i32, outputs: i32) -> (r: Result<
        Vec<Agent>,
        AgentError,
    >)
        ensures
            r is Err <==> inputs < 0 || outputs < 0,
            r is Err ==> r == Err::<Vec<Agent>, AgentError>(AgentError::ConstructionError),
            r matches Ok(agents) ==> {
                &&& agents@.len() == if amount >= 0 {
                    amount as int
                } else {
                    0
                }
                &&& forall|i: int|
                    0 <= i < agents@.len() ==> (#[trigger] agents@[i]).is_fresh(
                        inputs as usize,
                        outputs as usize,
                    )
                &&& forall|i: int| 0 <= i < agents@.len() ==> (#[trigger] agents@[i]).well_formed()
            },
    {
        if inputs < 0 || outputs < 0 {
            return Err(AgentError::ConstructionError);
        }
        let in_count = inputs as usize;
        let out_count = outputs as usize;
        let mut result: Vec<Agent> = Vec::new();
        let mut k: i32 = 0;
        while k < amount
        invariant
                0 <= k,
                amount >= 0 ==> k <= amount,
                amount < 0 ==> k == 0,
                in_count == inputs as usize,
                out_count == outputs as usize,
                0 <= inputs,
                0 <= outputs,
                result@.len() == k as int,
                forall|i: int|
                    0 <= i < result@.len() ==> (#[trigger] result@[i]).is_fresh(
                        in_count,
                        out_count,
                    ),
                forall|i: int| 0 <= i < result@.len() ==> (#[trigger] result@[i]).well_formed(),
            decreases amount - k,
        {
            let agent = Agent {
                inputs: in_count,
                nodes: 0,
                connections: 0,
                outputs: out_count,
                input_values: zero_values(in_count),
                hidden_values: Vec::new(),
                output_values: zero_values(out_count),
                connection_list: Vec::new(),
            };
            proof {
                assert(agent.hidden_values@ =~= zero_row(0));
                assert(agent.connection_list@ =~= Seq::<Connection>::empty());
                assert(agent.is_fresh(in_count, out_count));
            }
            result.push(agent);
            k = k + 1;
        }
        Ok(result)
    }

    /// Decide at run time whether this agent satisfies [`Agent::well_formed`].
    /// Every operation of the library preserves well-formedness, so this is
    /// the check an unverified caller can make before handing an agent in.
    pub fn check_valid(&self) -> (r: bool)
        ensures
            r == self.well_formed(),
    {
        if self.input_values.len() != self.inputs {
            return false;
        }
        if self.hidden_values.len() != self.nodes {
            return false;
        }
        if self.output_values.len() != self.outputs {
            return false;
        }
        if self.connection_list.len() != self.connections {
            return false;
        }
        let mut i: usize = 0;
        while i < self.connection_list.len()
            invariant
                i <= self.connection_list@.len(),
                forall|j: int|
                    0 <= j < i ==> connection_wf(
                        #[trigger] self.connection_list@[j],
                        self.inputs,
                        self.nodes,
                        self.outputs,
                    ),
            decreases self.connection_list@.len() - i,
        {
            let c = self.connection_list[i];
            if !(c.start_layer == 0 || c.start_layer == 1) {
                return false;
            }
            if !(c.end_layer == 1 || c.end_layer == 2) {
                return false;
            }
            let start_bound = if c.start_layer == 0 {
                self.inputs
            } else {
                self.nodes
            };
            let end_bound = if c.end_layer == 1 {
                self.nodes
            } else {
                self.outputs
            };
            if !(c.start_idx < start_bound && c.end_idx < end_bound) {
                return false;
            }
            i = i + 1;
        }
        true
    }

    /// Stably sort the connection list by `(start_layer, end_layer)`
    /// ascending; everything else is left untouched. This fixes the
    /// accumulation order [`Agent::calculate`] uses.
    pub fn sort_connections(&mut self)
        requires
            old(self).well_formed(),
        ensures
            final(self).connection_list@ == sorted_spec(old(self).connection_list@),
            final(self).connection_list@.len() == old(self).connection_list@.len(),
            final(self).inputs == old(self).inputs,
            final(self).nodes == old(self).nodes,
            final(self).outputs == old(self).outputs,
            final(self).connections == old(self).connections,
            final(self).input_values@ == old(self).input_values@,
            final(self).hidden_values@ == old(self).hidden_values@,
            final(self).output_values@ == old(self).output_values@,
            final(self).well_formed(),
    {
        let ghost orig = self.connection_list@;
        let mut g01: Vec<Connection> = Vec::new();
        let mut g02: Vec<Connection> = Vec::new();
        let mut g11: Vec<Connection> = Vec::new();
        let mut g12: Vec<Connection> = Vec::new();
        let mut i: usize = 0;
        while i < self.connection_list.len()
            invariant
                self.connection_list@ == orig,
                self.well_formed(),
                i <= orig.len(),
                g01@ == keep(orig.take(i as int), 0, 1),
                g02@ == keep(orig.take(i as int), 0, 2),
                g11@ == keep(orig.take(i as int), 1, 1),
                g12@ == keep(orig.take(i as int), 1, 2),
                g01@.len() + g02@.len() + g11@.len() + g12@.len() == i,
            decreases orig.len() - i,
        {
            let c = self.connection_list[i];
            if c.start_layer == 0 && c.end_layer == 1 {
                g01.push(c);
            } else if c.start_layer == 0 && c.end_layer == 2 {
                g02.push(c);
            } else if c.start_layer == 1 && c.end_layer == 1 {
                g11.push(c);
            } else {
                g12.push(c);
            }
            proof {
                assert(orig.take(i + 1).drop_last() =~= orig.take(i as int));
                assert(orig.take(i + 1).last() == orig[i as int]);
            }
            i = i + 1;
        }
        proof {
            assert(orig.take(orig.len() as int) =~= orig);
        }
        let mut result = g01;
        result.append(&mut g02);
        result.append(&mut g11);
        result.append(&mut g12);
        proof {
            assert(result@ == sorted_spec(orig));
            assert forall|j: int| 0 <= j < result@.len() implies connection_wf(
                #[trigger] result@[j],
                self.inputs,
                self.nodes,
                self.outputs,
            ) by {
                lemma_keep_preserves_wf(orig, 0, 1, self.inputs, self.nodes, self.outputs);
                lemma_keep_preserves_wf(orig, 0, 2, self.inputs, self.nodes, self.outputs);
                lemma_keep_preserves_wf(orig, 1, 1, self.inputs, self.nodes, self.outputs);
                lemma_keep_preserves_wf(orig, 1, 2, self.inputs, self.nodes, self.outputs);
            }
        }
        self.connection_list = result;
    }

    /// Evaluate the network on `input` (given as rows of value bits, using
    /// the arithmetic and activations of `ops`) and return a copy of the
    /// resulting output row.
    ///
    /// Fails with `ShapeMismatch` exactly when the input length differs
    /// from the agent's input count, and then leaves the agent untouched.
    /// On success the returned row has exactly `outputs` entries and equals
    /// [`calculate_spec`]: the input is copied into the input buffer, the
    /// hidden and output buffers are zeroed (the hidden one resized to the
    /// current node count), the connections are stably sorted, and a single
    /// accumulation sweep runs over them in that order.
    pub fn calculate<A: ScalarOps>(&mut self, input: &Vec<u32>, ops: &A) -> (r: Result<
        Vec<u32>,
        AgentError,
    >)
        requires
            old(self).well_formed(),
        ensures
            final(self).well_formed(),
            final(self).inputs == old(self).inputs,
            final(self).nodes == old(self).nodes,
            final(self).outputs == old(self).outputs,
            final(self).connections == old(self).connections,
            r is Err <==> input@.len() != old(self).inputs,
            r is Err ==> r == Err::<Vec<u32>, AgentError>(AgentError::ShapeMismatch)
                && *final(self) == *old(self),
            r matches Ok(out) ==> ({
                let fin = run_connections(
                    *ops,
                    (input@, zero_row(old(self).nodes as nat), zero_row(old(self).outputs as nat)),
                    sorted_spec(old(self).connection_list@),
                );
                &&& out@ == calculate_spec(*ops, *old(self), input@)
                &&& out@.len() == old(self).outputs
                &&& final(self).connection_list@ == sorted_spec(old(self).connection_list@)
                &&& final(self).input_values@ == input@
                &&& final(self).hidden_values@ == fin.1
                &&& final(self).output_values@ == fin.2
                &&& out@ == fin.2
            }),
    {
        if input.len() != self.inputs {
            return Err(AgentError::ShapeMismatch);
        }
        let input_buf = copy_values(input);
        let mut hidden = zero_values(self.nodes);
        let mut output_buf = zero_values(self.outputs);
        self.sort_connections();
        let ghost bufs0 = (input_buf@, zero_row(self.nodes as nat), zero_row(self.outputs as nat));
        let ghost sorted = self.connection_list@;
        let mut i: usize = 0;
        while i < self.connection_list.len()
            invariant
                self.well_formed(),
                self.connection_list@ == sorted,
                input_buf@.len() == self.inputs,
                hidden@.len() == self.nodes,
                output_buf@.len() == self.outputs,
                i <= sorted.len(),
                ({
                    let fin = run_connections(*ops, bufs0, sorted.take(i as int));
                    &&& input_buf@ == fin.0
                    &&& hidden@ == fin.1
                    &&& output_buf@ == fin.2
                }),
            decreases sorted.len() - i,
        {
            let ghost pre = (input_buf@, hidden@, output_buf@);
            let c = self.connection_list[i];
            let src = if c.start_layer == 0 {
                input_buf[c.start_idx]
            } else {
                hidden[c.start_idx]
            };
            let v = ops.times(ops.activate(c.start_layer, src), c.weight);
            if c.end_layer == 1 {
                let cur = hidden[c.end_idx];
                hidden[c.end_idx] = ops.plus(cur, v);
            } else {
                let cur = output_buf[c.end_idx];
                output_buf[c.end_idx] = ops.plus(cur, v);
            }
            proof {
                assert(sorted.take(i + 1).drop_last() =~= sorted.take(i as int));
                assert(sorted.take(i + 1).last() == sorted[i as int]);
                assert((input_buf@, hidden@, output_buf@) == crate::eval::apply_connection(
                    *ops,
                    pre,
                    c,
                ));
            }
            i = i + 1;
        }
        proof {
            assert(sorted.take(sorted.len() as int) =~= sorted);
        }
        self.input_values = input_buf;
        self.hidden_values = hidden;
        let result = copy_values(&output_buf);
        self.output_values = output_buf;
        Ok(result)
    }

    /// Produce a child agent: a copy of the parent with up to six gated
    /// edits applied in a fixed order — delete a hidden node, add a hidden
    /// node, delete a connection, add a connection, rewire a connection,
    /// reweight a connection. Every gate is drawn unconditionally, so a
    /// fixed draw sequence replays the same mutation; an edit whose
    /// precondition fails (nothing to delete or change) is skipped. The
    /// child is always well-formed: deleting a hidden node compacts the
    /// hidden index space and rewires every connection that referenced the
    /// removed slot, falling back to the input or output layer when no
    /// hidden slot remains.
    ///
    /// The child and the source's final state are exactly
    /// [`reproduce_model`] of the parent's model and the source's starting
    /// state, so for a fixed draw sequence the outcome is reproducible.
    #[verifier::rlimit(60)]
    pub fn reproduce<R: RandomSource>(
        &self,
        new_node_chance: u32,
        new_connection_chance: u32,
        delete_node_chance: u32,
        delete_connection_chance: u32,
        change_weight_chance: u32,
        change_connection_chance: u32,
        max_weight: u32,
        source: &mut R,
    ) -> (child: Agent)
        requires
            self.well_formed(),
            self.inputs >= 1,
            self.outputs >= 1,
        ensures
            child.well_formed(),
            child.connections == child.connection_list@.len(),
            child.nodes == child.hidden_values@.len(),
            child.inputs == self.inputs,
            child.outputs == self.outputs,
            self.nodes - 1 <= child.nodes <= self.nodes + 1,
            self.connections - 1 <= child.connections <= self.connections + 1,
            child.model() == reproduce_model(
                self.model(),
                new_node_chance,
                new_connection_chance,
                delete_node_chance,
                delete_connection_chance,
                change_weight_chance,
                change_connection_chance,
                max_weight,
                *old(source),
            ).0,
            *final(source) == reproduce_model(
                self.model(),
                new_node_chance,
                new_connection_chance,
                delete_node_chance,
                delete_connection_chance,
                change_weight_chance,
                change_connection_chance,
                max_weight,
                *old(source),
            ).1,
    {
        let ghost r0 = *source;
        let ghost m0 = self.model();
        let mut child = Agent {
            inputs: self.inputs,
            nodes: self.nodes,
            connections: self.connections,
            outputs: self.outputs,
            input_values: copy_values(&self.input_values),
            hidden_values: copy_values(&self.hidden_values),
            output_values: copy_values(&self.output_values),
            connection_list: copy_connections(&self.connection_list),
        };
        proof {
            assert(child.well_formed());
            assert(child.model() =~= m0);
        }

        let ghost g1 = r0.next_gate(delete_node_chance);
        let ghost rr1 = r0.after_gate(delete_node_chance);
        let ghost s1 = if g1 && m0.nodes > 0 {
            delete_node_model(m0, rr1.next_pick(m0.nodes), rr1.after_pick(m0.nodes))
        } else {
            (m0, rr1)
        };
        let fire_delete_node = source.gate(delete_node_chance);
        if fire_delete_node && child.nodes > 0 {
            let idx = source.pick(child.nodes);
            child.delete_hidden_node(idx, source);
        }
        proof {
            assert(child.model() == s1.0);
            assert(*source == s1.1);
        }

        let ghost g2 = s1.1.next_gate(new_node_chance);
        let ghost rr3 = s1.1.after_gate(new_node_chance);
        let ghost s2 = if g2 {
            (add_node_model(s1.0), rr3)
        } else {
            (s1.0, rr3)
        };
        let fire_new_node = source.gate(new_node_chance);
        if fire_new_node {
            child.add_hidden_node();
        }
        proof {
            assert(child.model() == s2.0);
            assert(*source == s2.1);
        }

        let ghost g3 = s2.1.next_gate(delete_connection_chance);
        let ghost rr5 = s2.1.after_gate(delete_connection_chance);
        let ghost s3 = if g3 && s2.0.connections > 0 {
            (delete_connection_model(s2.0, rr5.next_pick(s2.0.connections)), rr5.after_pick(
                s2.0.connections,
            ))
        } else {
            (s2.0, rr5)
        };
        let fire_delete_connection = source.gate(delete_connection_chance);
        if fire_delete_connection && child.connections > 0 {
            let idx = source.pick(child.connections);
            child.delete_connection_at(idx);
        }
        proof {
            assert(child.model() == s3.0);
            assert(*source == s3.1);
        }

        let ghost g4 = s3.1.next_gate(new_connection_chance);
        let ghost rr7 = s3.1.after_gate(new_connection_chance);
        let ghost s4 = if g4 {
            add_connection_model(s3.0, max_weight, rr7)
        } else {
            (s3.0, rr7)
        };
        let fire_new_connection = source.gate(new_connection_chance);
        if fire_new_connection {
            child.add_drawn_connection(max_weight, source);
        }
        proof {
            assert(child.model() == s4.0);
            assert(*source == s4.1);
        }

        let ghost g5 = s4.1.next_gate(change_connection_chance);
        let ghost rr9 = s4.1.after_gate(change_connection_chance);
        let ghost s5 = if g5 && s4.0.connections > 0 {
            rewire_model(s4.0, rr9.next_pick(s4.0.connections), rr9.after_pick(s4.0.connections))
        } else {
            (s4.0, rr9)
        };
        let fire_change_connection = source.gate(change_connection_chance);
        if fire_change_connection && child.connections > 0 {
            let idx = source.pick(child.connections);
            child.rewire_connection_at(idx, source);
        }
        proof {
            assert(child.model() == s5.0);
            assert(*source == s5.1);
        }

        let ghost g6 = s5.1.next_gate(change_weight_chance);
        let ghost rr11 = s5.1.after_gate(change_weight_chance);
        let ghost s6 = if g6 && s5.0.connections > 0 {
            let rr12 = rr11.after_pick(s5.0.connections);
            (
                reweight_model(s5.0, rr11.next_pick(s5.0.connections), rr12.next_weight(max_weight)),
                rr12.after_weight(max_weight),
            )
        } else {
            (s5.0, rr11)
        };
        let fire_change_weight = source.gate(change_weight_chance);
        if fire_change_weight && child.connections > 0 {
            let idx = source.pick(child.connections);
            let weight = source.weight_between(max_weight);
            child.reweight_connection_at(idx, weight);
        }
        proof {
            assert(child.model() == s6.0);
            assert(*source == s6.1);
            assert(s6 == reproduce_model(
                m0,
                new_node_chance,
                new_connection_chance,
                delete_node_chance,
                delete_connection_chance,
                change_weight_chance,
                change_connection_chance,
                max_weight,
                r0,
            ));
        }

        child
    }

    /// Remove hidden slot `idx`: decrement the hidden count, drop the last
    /// hidden value slot, and repair every connection against the compacted
    /// hidden index space (see [`repaired_connection`]).
    pub fn delete_hidden_node<R: RandomSource>(&mut self, idx: usize, source: &mut R)
        requires
            old(self).well_formed(),
            old(self).inputs >= 1,
            old(self).outputs >= 1,
            idx < old(self).nodes,
        ensures
            final(self).well_formed(),
            final(self).inputs == old(self).inputs,
            final(self).outputs == old(self).outputs,
            final(self).nodes == old(self).nodes - 1,
            final(self).connections == old(self).connections,
            final(self).input_values@ == old(self).input_values@,
            final(self).output_values@ == old(self).output_values@,
            final(self).hidden_values@ == old(self).hidden_values@.drop_last(),
            final(self).connection_list@.len() == old(self).connection_list@.len(),
            forall|j: int|
                0 <= j < old(self).connection_list@.len() ==> repaired_connection(
                    #[trigger] final(self).connection_list@[j],
                    old(self).connection_list@[j],
                    idx,
                    final(self).nodes,
                    old(self).inputs,
                    old(self).outputs,
                ),
            final(self).model() == delete_node_model(old(self).model(), idx, *old(source)).0,
            *final(source) == delete_node_model(old(self).model(), idx, *old(source)).1,
    {
        let ghost r0 = *source;
        self.nodes = self.nodes - 1;
        let ghost list0 = self.connection_list@;
        let mut k: usize = 0;
        while k < self.connection_list.len()
            invariant
                self.inputs == old(self).inputs,
                self.outputs == old(self).outputs,
                self.inputs >= 1,
                self.outputs >= 1,
                self.nodes == old(self).nodes - 1,
                idx <= self.nodes,
                self.input_values@ == old(self).input_values@,
                self.hidden_values@ == old(self).hidden_values@,
                self.output_values@ == old(self).output_values@,
                self.connections == old(self).connections,
                self.connection_list@.len() == list0.len(),
                k <= list0.len(),
                ({
                    let (front, rr) = repair_list_model(
                        list0.take(k as int),
                        idx,
                        self.nodes,
                        self.inputs,
                        self.outputs,
                        r0,
                    );
                    &&& self.connection_list@.take(k as int) == front
                    &&& *source == rr
                }),
                forall|j: int| k <= j < list0.len() ==> self.connection_list@[j] == list0[j],
                forall|j: int|
                    k <= j < list0.len() ==> connection_wf(
                        #[trigger] self.connection_list@[j],
                        self.inputs,
                        (self.nodes + 1) as usize,
                        self.outputs,
                    ),
                forall|j: int|
                    0 <= j < k ==> connection_wf(
                        #[trigger] self.connection_list@[j],
                        self.inputs,
                        self.nodes,
                        self.outputs,
                    ),
                forall|j: int|
                    0 <= j < k ==> repaired_connection(
                        #[trigger] self.connection_list@[j],
                        list0[j],
                        idx,
                        self.nodes,
                        self.inputs,
                        self.outputs,
                    ),
            decreases list0.len() - k,
        {
            let ghost prefix = self.connection_list@.take(k as int);
            let ghost rr_here = *source;
            let ghost step = repair_one_model(
                list0[k as int],
                idx,
                self.nodes,
                self.inputs,
                self.outputs,
                rr_here,
            );
            let mut c = self.connection_list[k];
            if c.start_layer == 1 && c.start_idx >= idx {
                if c.start_idx == idx {
                    if self.nodes > 0 {
                        c.start_idx = source.pick(self.nodes);
                    } else {
                        c.start_layer = 0;
                        c.start_idx = source.pick(self.inputs);
                    }
                } else {
                    c.start_idx = c.start_idx - 1;
                }
            }
            if c.end_layer == 1 && c.end_idx >= idx {
                if c.end_idx == idx {
                    if self.nodes > 0 {
                        c.end_idx = source.pick(self.nodes);
                    } else {
                        c.end_layer = 2;
                        c.end_idx = source.pick(self.outputs);
                    }
                } else {
                    c.end_idx = c.end_idx - 1;
                }
            }
            proof {
                assert(c == step.0);
                assert(*source == step.1);
            }
            self.connection_list[k] = c;
            proof {
                assert(list0.take(k + 1).drop_last() =~= list0.take(k as int));
                assert(list0.take(k + 1).last() == list0[k as int]);
                assert(self.connection_list@.take(k + 1) =~= prefix.push(c));
            }
            k = k + 1;
        }
        proof {
            assert(list0.take(list0.len() as int) =~= list0);
            assert(self.connection_list@.take(list0.len() as int) =~= self.connection_list@);
        }
        let dropped = self.hidden_values.pop();
        proof {
            assert(dropped is Some);
            assert(self.hidden_values@.len() == self.nodes);
            assert(self.hidden_values@ =~= old(self).hidden_values@.drop_last());
            assert(self.model() =~= delete_node_model(old(self).model(), idx, r0).0);
        }
    }

    /// Append one zero-valued hidden slot and increment the hidden count.
    /// No connections are created for the new node.
    pub fn add_hidden_node(&mut self)
        requires
            old(self).well_formed(),
        ensures
            final(self).well_formed(),
            final(self).inputs == old(self).inputs,
            final(self).outputs == old(self).outputs,
            final(self).nodes == old(self).nodes + 1,
            final(self).connections == old(self).connections,
            final(self).input_values@ == old(self).input_values@,
            final(self).output_values@ == old(self).output_values@,
            final(self).hidden_values@ == old(self).hidden_values@.push(0u32),
            final(self).connection_list@ == old(self).connection_list@,
            final(self).model() == add_node_model(old(self).model()),
    {
        self.hidden_values.push(0);
        self.nodes = self.hidden_values.len();
        proof {
            assert forall|j: int| 0 <= j < self.connection_list@.len() implies connection_wf(
                #[trigger] self.connection_list@[j],
                self.inputs,
                self.nodes,
                self.outputs,
            ) by {
                assert(connection_wf(
                    self.connection_list@[j],
                    self.inputs,
                    old(self).nodes,
                    self.outputs,
                ));
            }
        }
    }

    /// Remove the connection at `idx` and decrement the connection count.
    pub fn delete_connection_at(&mut self, idx: usize)
        requires
            old(self).well_formed(),
            idx < old(self).connections,
        ensures
            final(self).well_formed(),
            final(self).inputs == old(self).inputs,
            final(self).outputs == old(self).outputs,
            final(self).nodes == old(self).nodes,
            final(self).connections == old(self).connections - 1,
            final(self).input_values@ == old(self).input_values@,
            final(self).output_values@ == old(self).output_values@,
            final(self).hidden_values@ == old(self).hidden_values@,
            final(self).connection_list@ == old(self).connection_list@.remove(idx as int),
            final(self).model() == delete_connection_model(old(self).model(), idx),
    {
        let ghost before = self.connection_list@;
        self.connection_list.remove(idx);
        self.connections = self.connection_list.len();
        proof {
            assert forall|j: int| 0 <= j < self.connection_list@.len() implies connection_wf(
                #[trigger] self.connection_list@[j],
                self.inputs,
                self.nodes,
                self.outputs,
            ) by {
                if j < idx {
                    assert(self.connection_list@[j] == before[j]);
                } else {
                    assert(self.connection_list@[j] == before[j + 1]);
                }
            }
        }
    }

    /// Append a freshly drawn connection and increment the connection
    /// count. The start layer is drawn from `{0, 1}` and the end layer from
    /// `{1, 2}`, except that with no hidden node present the connection is
    /// forced to run from the input layer straight to the output layer;
    /// each index is drawn within the bounds of the chosen layer and the
    /// weight is drawn from `[-max_weight, max_weight)`.
    pub fn add_drawn_connection<R: RandomSource>(&mut self, max_weight: u32, source: &mut R)
        requires
            old(self).well_formed(),
            old(self).inputs >= 1,
            old(self).outputs >= 1,
        ensures
            final(self).well_formed(),
            final(self).inputs == old(self).inputs,
            final(self).outputs == old(self).outputs,
            final(self).nodes == old(self).nodes,
            final(self).connections == old(self).connections + 1,
            final(self).input_values@ == old(self).input_values@,
            final(self).output_values@ == old(self).output_values@,
            final(self).hidden_values@ == old(self).hidden_values@,
            final(self).connection_list@.len() == old(self).connection_list@.len() + 1,
            forall|j: int|
                0 <= j < old(self).connection_list@.len() ==> final(self).connection_list@[j]
                    == old(self).connection_list@[j],
            old(self).nodes == 0 ==> final(self).connection_list@.last().start_layer == 0
                && final(self).connection_list@.last().end_layer == 2,
            final(self).model() == add_connection_model(
                old(self).model(),
                max_weight,
                *old(source),
            ).0,
            *final(source) == add_connection_model(old(self).model(), max_weight, *old(source)).1,
    {
        let ghost r0 = *source;
        let ghost step = drawn_connection_model(self.model(), max_weight, r0);
        let c = if self.nodes > 0 {
            let start_layer = source.pick(2);
            let start_idx = if start_layer == 0 {
                source.pick(self.inputs)
            } else {
                source.pick(self.nodes)
            };
            let end_layer = 1 + source.pick(2);
            let end_idx = if end_layer == 1 {
                source.pick(self.nodes)
            } else {
                source.pick(self.outputs)
            };
            Connection { start_layer, end_layer, start_idx, end_idx, weight: source.weight_between(max_weight) }
        } else {
            Connection {
                start_layer: 0,
                end_layer: 2,
                start_idx: source.pick(self.inputs),
                end_idx: source.pick(self.outputs),
                weight: source.weight_between(max_weight),
            }
        };
        proof {
            assert(c == step.0);
            assert(*source == step.1);
            assert(connection_wf(c, self.inputs, self.nodes, self.outputs));
        }
        self.connection_list.push(c);
        self.connections = self.connection_list.len();
        proof {
            assert(self.model() =~= add_connection_model(old(self).model(), max_weight, r0).0);
        }
    }

    /// Redraw the layers of the connection at `idx` (forced to input →
    /// output when no hidden node exists), then redraw both endpoint
    /// indices within the bounds of the newly chosen layers. The weight is
    /// kept.
    pub fn rewire_connection_at<R: RandomSource>(&mut self, idx: usize, source: &mut R)
        requires
            old(self).well_formed(),
            old(self).inputs >= 1,
            old(self).outputs >= 1,
            idx < old(self).connections,
        ensures
            final(self).well_formed(),
            final(self).inputs == old(self).inputs,
            final(self).outputs == old(self).outputs,
            final(self).nodes == old(self).nodes,
            final(self).connections == old(self).connections,
            final(self).input_values@ == old(self).input_values@,
            final(self).output_values@ == old(self).output_values@,
            final(self).hidden_values@ == old(self).hidden_values@,
            final(self).connection_list@.len() == old(self).connection_list@.len(),
            forall|j: int|
                0 <= j < old(self).connection_list@.len() && j != idx
                    ==> final(self).connection_list@[j] == old(self).connection_list@[j],
            final(self).connection_list@[idx as int].weight == old(self).connection_list@[
                idx as int
            ].weight,
            old(self).nodes == 0 ==> final(self).connection_list@[idx as int].start_layer == 0
                && final(self).connection_list@[idx as int].end_layer == 2,
            final(self).model() == rewire_model(old(self).model(), idx, *old(source)).0,
            *final(source) == rewire_model(old(self).model(), idx, *old(source)).1,
    {
        let ghost r0 = *source;
        let ghost step = rewired_connection_model(
            self.connection_list@[idx as int],
            self.model(),
            r0,
        );
        let mut c = self.connection_list[idx];
        if self.nodes > 0 {
            c.start_layer = source.pick(2);
            c.end_layer = 1 + source.pick(2);
        } else {
            c.start_layer = 0;
            c.end_layer = 2;
        }
        if c.start_layer == 0 {
            c.start_idx = source.pick(self.inputs);
        } else {
            c.start_idx = source.pick(self.nodes);
        }
        if c.end_layer == 1 {
            c.end_idx = source.pick(self.nodes);
        } else {
            c.end_idx = source.pick(self.outputs);
        }
        proof {
            assert(c == step.0);
            assert(*source == step.1);
        }
        self.connection_list[idx] = c;
        proof {
            assert(self.model() =~= rewire_model(old(self).model(), idx, r0).0);
        }
    }

    /// Replace the weight of the connection at `idx`; everything else is
    /// kept.
    pub fn reweight_connection_at(&mut self, idx: usize, weight: u32)
        requires
            old(self).well_formed(),
            idx < old(self).connections,
        ensures
            final(self).well_formed(),
            final(self).inputs == old(self).inputs,
            final(self).outputs == old(self).outputs,
            final(self).nodes == old(self).nodes,
            final(self).connections == old(self).connections,
            final(self).input_values@ == old(self).input_values@,
            final(self).output_values@ == old(self).output_values@,
            final(self).hidden_values@ == old(self).hidden_values@,
            final(self).connection_list@.len() == old(self).connection_list@.len(),
            forall|j: int|
                0 <= j < old(self).connection_list@.len() && j != idx
                    ==> final(self).connection_list@[j] == old(self).connection_list@[j],
            final(self).connection_list@[idx as int].weight == weight,
            final(self).connection_list@[idx as int].start_layer == old(self).connection_list@[
                idx as int
            ].start_layer,
            final(self).connection_list@[idx as int].start_idx == old(self).connection_list@[
                idx as int
            ].start_idx,
            final(self).connection_list@[idx as int].end_layer == old(self).connection_list@[
                idx as int
            ].end_layer,
            final(self).connection_list@[idx as int].end_idx == old(self).connection_list@[
                idx as int
            ].end_idx,
            final(self).model() == reweight_model(old(self).model(), idx, weight),
    {
        let mut c = self.connection_list[idx];
        c.weight = weight;
        self.connection_list[idx] = c;
    }
}

/// A row of `n` zeroed value slots.
fn zero_values(n: usize) -> (r: Vec<u32>)
    ensures
        r@ == zero_row(n as nat),
{
    let mut r: Vec<u32> = Vec::new();
    let mut i: usize = 0;
    while i < n
        invariant
            i <= n,
            r@ == zero_row(i as nat),
        decreases n - i,
    {
        r.push(0);
        i = i + 1;
        proof {
            assert(r@ =~= zero_row(i as nat));
        }
    }
    r
}

/// An element-for-element copy of a row of value bits.
fn copy_values(v: &Vec<u32>) -> (r: Vec<u32>)
    ensures
        r@ == v@,
{
    let mut r: Vec<u32> = Vec::new();
    let mut i: usize = 0;
    while i < v.len()
        invariant
            i <= v@.len(),
            r@ == v@.take(i as int),
        decreases v@.len() - i,
    {
        r.push(v[i]);
        i = i + 1;
        proof {
            assert(r@ =~= v@.take(i as int));
        }
    }
    proof {
        assert(v@.take(v@.len() as int) =~= v@);
    }
    r
}

/// An element-for-element copy of a connection list.
fn copy_connections(v: &Vec<Connection>) -> (r: Vec<Connection>)
    ensures
        r@ == v@,
{
    let mut r: Vec<Connection> = Vec::new();
    let mut i: usize = 0;
    while i < v.len()
        invariant
            i <= v@.len(),
            r@ == v@.take(i as int),
        decreases v@.len() - i,
    {
        r.push(v[i]);
        i = i + 1;
        proof {
            assert(r@ =~= v@.take(i as int));
        }
    }
    proof {
        assert(v@.take(v@.len() as int) =~= v@);
    }
    r
}

/// Every connection `keep` retains comes from `s`, so it satisfies any
/// bound all of `s` satisfies.
proof fn lemma_keep_preserves_wf(
    s: Seq<Connection>,
    sl: usize,
    el: usize,
    inputs: usize,
    nodes: usize,
    outputs: usize,
)
    requires
        forall|i: int| 0 <= i < s.len() ==> connection_wf(#[trigger] s[i], inputs, nodes, outputs),
    ensures
        forall|j: int|
            0 <= j < keep(s, sl, el).len() ==> connection_wf(
                #[trigger] keep(s, sl, el)[j],
                inputs,
                nodes,
                outputs,
            ),
    decreases s.len(),
{
    if s.len() > 0 {
        assert(forall|i: int| 0 <= i < s.drop_last().len() ==> #[trigger] s.drop_last()[i] == s[i]);
        lemma_keep_preserves_wf(s.drop_last(), sl, el, inputs, nodes, outputs);
        let rest = keep(s.drop_last(), sl, el);
        assert(s.last() == s[s.len() - 1]);
        assert(connection_wf(s.last(), inputs, nodes, outputs));
        assert forall|j: int| 0 <= j < keep(s, sl, el).len() implies connection_wf(
            #[trigger] keep(s, sl, el)[j],
            inputs,
            nodes,
            outputs,
        ) by {
            if s.last().start_layer == sl && s.last().end_layer == el {
                assert(keep(s, sl, el) == rest.push(s.last()));
                if j < rest.len() {
                    assert(keep(s, sl, el)[j] == rest[j]);
                } else {
                    assert(keep(s, sl, el)[j] == s.last());
                }
            } else {
                assert(keep(s, sl, el) == rest);
            }
        }
    }
}

} // verus!
