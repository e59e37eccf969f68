//! Verified core of the block execution tooling.

pub mod basic_laws;
pub mod block_dispatch;
pub mod bounded_batch_wrapper;
pub mod bytecode;
pub mod chunk_counters;
pub mod chunk_laws;
pub mod chunk_output;
pub mod command_laws;
pub mod commit_laws;
pub mod counter_laws;
pub mod dispatch_laws;
pub mod execute_past_transactions;
pub mod graph_laws;
pub mod hash;
pub mod metric_laws;
pub mod output;
pub mod parse_laws;
pub mod parsed_output;
pub mod querier;
pub mod query_graph;
pub mod remote_addresses;
pub mod remote_executor_client;
pub mod sequence;
pub mod shard_outputs;
pub mod status;
pub mod stream_laws;
pub mod text;
pub mod transaction;
pub mod transaction_committer;
