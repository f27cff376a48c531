//! Evolving feed-forward networks.
//!
//! An [`Agent`] is a small neural network whose topology — its hidden-node
//! count and its list of weighted connections — is changed by random
//! mutation rather than trained. The library owns the agent data model, the
//! deterministic single-pass evaluator, and the mutation operator that
//! produces a structurally valid child from a parent.
//!
//! Numeric values (activations and weights) are carried as the raw bits of
//! IEEE 754 single-precision values and are never interpreted here: the
//! caller supplies the arithmetic and the activation functions through
//! [`ScalarOps`], and the random draws through [`RandomSource`]. Everything
//! structural — layer sizes, endpoint bounds, accumulation order — is
//! stated in the contracts and verified.

mod agent;
mod connection;
mod eval;
mod laws;
mod model;
mod ops;
mod source;

pub use agent::Agent;
pub use agent::AgentError;
pub use connection::Connection;
pub use connection::connection_wf;
pub use connection::repaired_connection;
pub use connection::repaired_endpoint;
pub use eval::apply_connection;
pub use eval::calculate_spec;
pub use eval::keep;
pub use eval::run_connections;
pub use eval::sorted_spec;
pub use eval::source_value;
pub use eval::zero_row;
pub use laws::lemma_calculate_idempotent;
pub use laws::lemma_keep_all;
pub use laws::lemma_keep_concat;
pub use laws::lemma_keep_layers;
pub use laws::lemma_keep_none;
pub use laws::lemma_no_dangling_references;
pub use laws::lemma_sorted_idempotent;
pub use model::add_connection_model;
pub use model::add_node_model;
pub use model::AgentModel;
pub use model::delete_connection_model;
pub use model::delete_node_model;
pub use model::drawn_connection_model;
pub use model::repair_list_model;
pub use model::repair_one_model;
pub use model::reproduce_model;
pub use model::reweight_model;
pub use model::rewire_model;
pub use model::rewired_connection_model;
pub use ops::ScalarOps;
pub use source::RandomSource;
