//! Verified building blocks for Zebra development nodes.

#![allow(unused_imports)]

pub mod appended_block_laws;
pub mod block_workload;
pub mod block_workload_laws;
pub mod candidate_laws;
pub mod chain_parts;
pub mod channel;
pub mod clock;
pub mod coinbase_laws;
pub mod config;
pub mod connected_addr;
pub mod counters;
pub mod counters_laws;
pub mod determinism;
pub mod envelope;
pub mod generated_chain;
pub mod generated_network_laws;
pub mod generation_laws;
pub mod growth_laws;
pub mod key_laws;
pub mod keys;
pub mod local_genesis;
pub mod local_genesis_laws;
pub mod mix_laws;
pub mod name_table;
pub mod network;
pub mod network_laws;
pub mod peer_tx;
pub mod pool_selection;
pub mod run_laws;
pub mod schema;
pub mod selection;
pub mod selection_laws;
pub mod text;
pub mod text_laws;
pub mod timestamp;
pub mod trace_event;
pub mod trace_laws;
pub mod tracer;
pub mod tracer_laws;
pub mod workload;
pub mod writer;
pub mod writer_laws;
pub mod writer_step_laws;
