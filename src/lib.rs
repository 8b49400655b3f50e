//! Placement center: the replicated metadata core of a message-queue cluster.
//!
//! The crate holds the logic of the service: the retry policy of outbound
//! calls and the naming of their connection pools, the configuration model
//! and the bootstrap plan of a cluster, the key encodings of the storage
//! engine, the key-value storage and the bridge that applies committed
//! writes to it, the replicated state machine with its snapshots, the
//! consensus log with its election, replication and commit rules, and the
//! request router that serves reads locally and forwards writes to the
//! leader.
pub mod assoc;
pub mod codec;
pub mod config;
pub mod error;
pub mod http_routes;
pub mod log_store;
pub mod network;
pub mod raft;
pub mod retry;
pub mod router;
pub mod server;
pub mod state_machine;
pub mod storage;
