//! Decision logic of a service that forwards Solana transactions to the
//! upcoming slot leaders.
pub mod batch;
pub mod bundle;
pub mod clock;
pub mod collections;
pub mod config;
pub mod connection_manager;
pub mod encoding;
pub mod errors;
pub mod grpc_geyser;
pub mod leader_tracker;
pub mod priority;
pub mod retry;
pub mod rpc_server;
pub mod send_run;
pub mod tags;
pub mod transaction;
pub mod transaction_store;
pub mod txn_sender;
pub mod utils;
