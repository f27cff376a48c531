//! Integration tests: the agent lifecycle, the evaluator, the mutation
//! operator and the structural invariant, exercised with real
//! floating-point arithmetic and real random draws.

use std::cmp::Ordering;

use evonet::Agent;
use evonet::AgentError;
use evonet::Connection;
use evonet::RandomSource;
use evonet::ScalarOps;
use rand::rngs::ThreadRng;
use rand::thread_rng;
use rand::Rng;

/// Arithmetic over single-precision bits with the identity activation on
/// both source layers.
struct IdentityOps;

impl ScalarOps for IdentityOps {
    fn activate_spec(&self, _layer: usize, x: u32) -> u32 {
        x
    }

    fn plus_spec(&self, a: u32, b: u32) -> u32 {
        (f32::from_bits(a) + f32::from_bits(b)).to_bits()
    }

    fn times_spec(&self, a: u32, b: u32) -> u32 {
        (f32::from_bits(a) * f32::from_bits(b)).to_bits()
    }

    fn activate(&self, _layer: usize, x: u32) -> u32 {
        x
    }

    fn plus(&self, a: u32, b: u32) -> u32 {
        (f32::from_bits(a) + f32::from_bits(b)).to_bits()
    }

    fn times(&self, a: u32, b: u32) -> u32 {
        (f32::from_bits(a) * f32::from_bits(b)).to_bits()
    }
}

/// Arithmetic over single-precision bits with the hyperbolic tangent as
/// the activation of both source layers.
struct TanhOps;

impl ScalarOps for TanhOps {
    fn activate_spec(&self, layer: usize, x: u32) -> u32 {
        self.activate(layer, x)
    }

    fn plus_spec(&self, a: u32, b: u32) -> u32 {
        self.plus(a, b)
    }

    fn times_spec(&self, a: u32, b: u32) -> u32 {
        self.times(a, b)
    }

    fn activate(&self, _layer: usize, x: u32) -> u32 {
        let e = std::f32::consts::E;
        let v = f32::from_bits(x);
        ((e.powf(v) - e.powf(-v)) / (e.powf(v) + e.powf(-v))).to_bits()
    }

    fn plus(&self, a: u32, b: u32) -> u32 {
        (f32::from_bits(a) + f32::from_bits(b)).to_bits()
    }

    fn times(&self, a: u32, b: u32) -> u32 {
        (f32::from_bits(a) * f32::from_bits(b)).to_bits()
    }
}

/// A draw source backed by the thread-local generator, mirroring how the
/// driver of an evolution run would feed `reproduce`.
struct ThreadSource(ThreadRng);

impl RandomSource for ThreadSource {
    // The specification methods are erased stand-ins and are never called
    // at run time; a thread-local generator has no observable state to
    // mirror them truthfully.
    fn next_gate(&self, _chance: u32) -> bool {
        false
    }

    fn after_gate(&self, _chance: u32) -> Self {
        ThreadSource(thread_rng())
    }

    fn next_pick(&self, _n: usize) -> usize {
        0
    }

    fn after_pick(&self, _n: usize) -> Self {
        ThreadSource(thread_rng())
    }

    fn next_weight(&self, _max: u32) -> u32 {
        0
    }

    fn after_weight(&self, _max: u32) -> Self {
        ThreadSource(thread_rng())
    }

    fn gate(&mut self, chance: u32) -> bool {
        self.0.gen_range(0.0..1.0) < f32::from_bits(chance)
    }

    fn pick(&mut self, n: usize) -> usize {
        self.0.gen_range(0..n)
    }

    fn weight_between(&mut self, max: u32) -> u32 {
        let m = f32::from_bits(max);
        self.0.gen_range(-m..m).to_bits()
    }
}

/// A draw source that replays a fixed sequence: a gate fires when the next
/// entry is non-zero, an index draw is the next entry modulo the bound, a
/// weight draw is the next entry reinterpreted as value bits.
struct Script {
    draws: Vec<u64>,
    at: usize,
}

impl Script {
    fn new(draws: Vec<u64>) -> Self {
        Script { draws, at: 0 }
    }

    fn next(&mut self) -> u64 {
        let v: u64 = self.draws[self.at];
        self.at += 1;
        v
    }
}

impl RandomSource for Script {
    // The specification methods mirror the replayed sequence truthfully,
    // though nothing calls them at run time.
    fn next_gate(&self, _chance: u32) -> bool {
        self.draws[self.at] != 0
    }

    fn after_gate(&self, _chance: u32) -> Self {
        Script { draws: self.draws.clone(), at: self.at + 1 }
    }

    fn next_pick(&self, n: usize) -> usize {
        (self.draws[self.at] as usize) % n
    }

    fn after_pick(&self, _n: usize) -> Self {
        Script { draws: self.draws.clone(), at: self.at + 1 }
    }

    fn next_weight(&self, _max: u32) -> u32 {
        self.draws[self.at] as u32
    }

    fn after_weight(&self, _max: u32) -> Self {
        Script { draws: self.draws.clone(), at: self.at + 1 }
    }

    fn gate(&mut self, _chance: u32) -> bool {
        self.next() != 0
    }

    fn pick(&mut self, n: usize) -> usize {
        (self.next() as usize) % n
    }

    fn weight_between(&mut self, _max: u32) -> u32 {
        self.next() as u32
    }
}

fn bits(x: f32) -> u32 {
    x.to_bits()
}

fn connection(
    start_layer: usize,
    start_idx: usize,
    end_layer: usize,
    end_idx: usize,
    weight: f32,
) -> Connection {
    Connection { start_layer, end_layer, start_idx, end_idx, weight: weight.to_bits() }
}

/// An agent built directly from its parts, with zeroed buffers.
fn agent_with(inputs: usize, nodes: usize, outputs: usize, conns: Vec<Connection>) -> Agent {
    Agent {
        inputs,
        nodes,
        connections: conns.len(),
        outputs,
        input_values: vec![0; inputs],
        hidden_values: vec![0; nodes],
        output_values: vec![0; outputs],
        connection_list: conns,
    }
}

#[test]
fn example_use() {
    let mut agents = Agent::create_agents(5, 2, 1).unwrap();
    let ops = TanhOps;
    let mut source = ThreadSource(thread_rng());
    let mut rng = thread_rng();
    let epochs: i32 = 10_000;

    for epoch in 0..epochs {
        println!("Epoch: {}", epoch);

        let input = vec![bits(rng.gen_range(-1.0..1.0)), bits(1.0)];
        let mut result: Vec<f32> = vec![];

        for agent in agents.iter_mut() {
            let out = agent.calculate(&input, &ops).unwrap();
            result.push(f32::from_bits(out[0]) / (agent.nodes + 1) as f32);
        }

        let index_of_max: usize = result
            .iter()
            .enumerate()
            .max_by(|(_, a), (_, b)| a.partial_cmp(b).unwrap_or(Ordering::Equal))
            .map(|(index, _)| index)
            .unwrap();

        let best_agent = agents.remove(index_of_max);
        agents = vec![best_agent];
        println!("Best result: {}", result[index_of_max]);

        for _ in 0..4 {
            agents.push(agents[0].reproduce(
                bits(0.1),
                bits(0.15),
                bits(0.05),
                bits(0.05),
                bits(0.20),
                bits(0.15),
                bits(3.0),
                &mut source,
            ));
        }
    }
    assert!(agents[0].check_valid());
}

#[test]
fn creation_yields_fresh_agents() {
    let agents = Agent::create_agents(3, 4, 2).unwrap();
    assert_eq!(agents.len(), 3);
    for a in &agents {
        assert_eq!(a.inputs, 4);
        assert_eq!(a.outputs, 2);
        assert_eq!(a.nodes, 0);
        assert_eq!(a.connections, 0);
        assert_eq!(a.input_values, vec![0; 4]);
        assert_eq!(a.hidden_values, Vec::<u32>::new());
        assert_eq!(a.output_values, vec![0; 2]);
        assert!(a.connection_list.is_empty());
        assert!(a.check_valid());
    }
}

#[test]
fn creation_rejects_negative_sizes() {
    assert_eq!(Agent::create_agents(1, -1, 2).unwrap_err(), AgentError::ConstructionError);
    assert_eq!(Agent::create_agents(1, 2, -3).unwrap_err(), AgentError::ConstructionError);
    assert_eq!(Agent::create_agents(-5, 2, 2).unwrap().len(), 0);
}

#[test]
fn calculate_output_length_matches_output_count() {
    let ops = IdentityOps;
    let mut agent = agent_with(2, 1, 3, vec![connection(0, 0, 2, 1, 1.5)]);
    let out = agent.calculate(&vec![bits(1.0), bits(2.0)], &ops).unwrap();
    assert_eq!(out.len(), 3);
}

#[test]
fn disconnected_agent_evaluates_to_zeros() {
    let ops = TanhOps;
    let mut agent = Agent::create_agents(1, 3, 2).unwrap().remove(0);
    let out = agent.calculate(&vec![bits(1.0), bits(-2.5), bits(0.75)], &ops).unwrap();
    assert_eq!(out, vec![0, 0]);
    assert_eq!(f32::from_bits(out[0]), 0.0);
}

#[test]
fn calculate_rejects_wrong_input_length() {
    let ops = IdentityOps;
    let mut agent = agent_with(2, 0, 1, vec![]);
    assert_eq!(
        agent.calculate(&vec![bits(1.0)], &ops).unwrap_err(),
        AgentError::ShapeMismatch,
    );
    assert_eq!(
        agent.calculate(&vec![bits(1.0), bits(2.0), bits(3.0)], &ops).unwrap_err(),
        AgentError::ShapeMismatch,
    );
    assert!(agent.calculate(&vec![bits(1.0), bits(2.0)], &ops).is_ok());
}

#[test]
fn single_connection_scales_input() {
    // 0 hidden nodes, one input-to-output connection of weight 2.0,
    // identity activation: input [3.0] evaluates to [6.0].
    let ops = IdentityOps;
    let mut agent = agent_with(1, 0, 1, vec![connection(0, 0, 2, 0, 2.0)]);
    let out = agent.calculate(&vec![bits(3.0)], &ops).unwrap();
    assert_eq!(f32::from_bits(out[0]), 6.0);
}

#[test]
fn scripted_mutation_builds_working_network() {
    // Starting from a disconnected agent, one scripted reproduction adds
    // the single input-to-output connection of the scenario above.
    let parent = Agent::create_agents(1, 1, 1).unwrap().remove(0);
    let mut script = Script::new(vec![0, 0, 0, 1, 0, 0, bits(2.0) as u64, 0, 0]);
    let mut child = parent.reproduce(0, 0, 0, 0, 0, 0, bits(3.0), &mut script);
    assert_eq!(child.connections, 1);
    assert_eq!(child.connection_list[0], connection(0, 0, 2, 0, 2.0));
    let out = child.calculate(&vec![bits(3.0)], &IdentityOps).unwrap();
    assert_eq!(f32::from_bits(out[0]), 6.0);
}

#[test]
fn hidden_chain_accumulates_in_sorted_order() {
    // input -> hidden -> output with identity activation: 2.0 * 3.0 * 0.5.
    let ops = IdentityOps;
    let mut agent = agent_with(
        1,
        1,
        1,
        vec![connection(1, 0, 2, 0, 0.5), connection(0, 0, 1, 0, 3.0)],
    );
    let out = agent.calculate(&vec![bits(2.0)], &ops).unwrap();
    assert_eq!(f32::from_bits(out[0]), 3.0);
}

#[test]
fn hidden_to_hidden_edge_reads_current_pass_value() {
    // The single-sweep quirk: a hidden-to-hidden connection reads the
    // source hidden slot as already accumulated earlier in the same pass.
    let ops = IdentityOps;
    let mut agent = agent_with(
        1,
        2,
        1,
        vec![
            connection(0, 0, 1, 0, 1.0),
            connection(1, 0, 1, 1, 1.0),
            connection(1, 1, 2, 0, 1.0),
        ],
    );
    let out = agent.calculate(&vec![bits(5.0)], &ops).unwrap();
    assert_eq!(f32::from_bits(out[0]), 5.0);
}

#[test]
fn sort_is_stable_and_orders_by_layers() {
    let mut agent = agent_with(
        2,
        1,
        2,
        vec![
            connection(1, 0, 2, 0, 10.0),
            connection(0, 1, 2, 1, 20.0),
            connection(0, 0, 1, 0, 30.0),
            connection(0, 0, 2, 0, 40.0),
            connection(1, 0, 1, 0, 50.0),
        ],
    );
    agent.sort_connections();
    let weights: Vec<f32> =
        agent.connection_list.iter().map(|c| f32::from_bits(c.weight)).collect();
    assert_eq!(weights, vec![30.0, 20.0, 40.0, 50.0, 10.0]);
}

#[test]
fn calculate_twice_gives_identical_output() {
    // No leakage between calls: the same input on the unmutated agent
    // yields the same output, even with order-sensitive hidden edges and
    // an interleaved evaluation of a different input.
    let ops = TanhOps;
    let mut agent = agent_with(
        2,
        2,
        1,
        vec![
            connection(0, 0, 1, 0, 1.25),
            connection(1, 0, 1, 1, -0.75),
            connection(1, 1, 2, 0, 2.0),
            connection(0, 1, 2, 0, 0.5),
        ],
    );
    let input = vec![bits(0.3), bits(-1.7)];
    let other = vec![bits(-2.0), bits(0.9)];
    let first = agent.calculate(&input, &ops).unwrap();
    let between = agent.calculate(&other, &ops).unwrap();
    let second = agent.calculate(&input, &ops).unwrap();
    assert_eq!(first, second);
    assert_ne!(first, between);
}

#[test]
fn reproduction_replays_exactly() {
    // A fixed draw sequence reproduces the same child, draw for draw.
    let parent = agent_with(
        2,
        1,
        1,
        vec![connection(0, 1, 1, 0, 1.0), connection(1, 0, 2, 0, -1.0)],
    );
    let draws = vec![
        1, 0, 0, 0, // delete node 0; repair redraws both hidden endpoints
        1, // add a node back
        0, // keep both connections
        1, 0, 1, 0, 0, bits(0.25) as u64, // add an input-to-hidden connection
        0, // no rewire
        1, 2, bits(-4.5) as u64, // reweight the last connection
    ];
    let child_one = parent.reproduce(
        bits(0.5),
        bits(0.5),
        bits(0.5),
        bits(0.5),
        bits(0.5),
        bits(0.5),
        bits(5.0),
        &mut Script::new(draws.clone()),
    );
    let child_two = parent.reproduce(
        bits(0.5),
        bits(0.5),
        bits(0.5),
        bits(0.5),
        bits(0.5),
        bits(0.5),
        bits(5.0),
        &mut Script::new(draws),
    );
    assert_eq!(child_one, child_two);
    assert!(child_one.check_valid());
}

#[test]
fn delete_node_falls_back_to_output_layer() {
    // One hidden node, one connection ending at it. Deleting the node
    // leaves no hidden slot, so the end must move to a valid output slot.
    let parent = agent_with(1, 1, 1, vec![connection(0, 0, 1, 0, 1.0)]);
    let mut script = Script::new(vec![1, 0, 0, 0, 0, 0, 0, 0]);
    let child = parent.reproduce(0, 0, 0, 0, 0, 0, bits(1.0), &mut script);
    assert_eq!(child.nodes, 0);
    assert_eq!(child.connections, 1);
    let c = child.connection_list[0];
    assert_eq!(c.start_layer, 0);
    assert_eq!(c.end_layer, 2);
    assert!(c.end_idx < child.outputs);
    assert!(child.check_valid());
}

#[test]
fn delete_node_compacts_higher_indices() {
    // Two hidden nodes; deleting slot 0 shifts references to slot 1 down.
    let parent = agent_with(
        1,
        2,
        1,
        vec![connection(0, 0, 1, 1, 1.0), connection(1, 1, 2, 0, 2.0)],
    );
    let mut script = Script::new(vec![1, 0, 0, 0, 0, 0, 0]);
    let child = parent.reproduce(0, 0, 0, 0, 0, 0, bits(1.0), &mut script);
    assert_eq!(child.nodes, 1);
    assert_eq!(child.connection_list[0], connection(0, 0, 1, 0, 1.0));
    assert_eq!(child.connection_list[1], connection(1, 0, 2, 0, 2.0));
    assert!(child.check_valid());
}

#[test]
fn mutation_preserves_structure_over_generations() {
    // No dangling references and counts in sync across 10,000 successive
    // generations of repeated mutation from a disconnected agent.
    let mut agent = Agent::create_agents(1, 3, 2).unwrap().remove(0);
    let mut source = ThreadSource(thread_rng());
    for _ in 0..10_000 {
        agent = agent.reproduce(
            bits(0.25),
            bits(0.35),
            bits(0.2),
            bits(0.2),
            bits(0.3),
            bits(0.3),
            bits(2.0),
            &mut source,
        );
        assert!(agent.check_valid());
        assert_eq!(agent.connections, agent.connection_list.len());
        assert_eq!(agent.nodes, agent.hidden_values.len());
        for c in &agent.connection_list {
            let start_size: usize = if c.start_layer == 0 { agent.inputs } else { agent.nodes };
            let end_size: usize = if c.end_layer == 1 { agent.nodes } else { agent.outputs };
            assert!(c.start_idx < start_size);
            assert!(c.end_idx < end_size);
        }
    }
}

#[test]
fn check_valid_spots_broken_agents() {
    let mut agent = agent_with(1, 0, 1, vec![connection(0, 0, 2, 0, 1.0)]);
    assert!(agent.check_valid());
    agent.connection_list[0].end_idx = 7;
    assert!(!agent.check_valid());
    agent.connection_list[0].end_idx = 0;
    agent.connections = 5;
    assert!(!agent.check_valid());
}
