//! Bootstrap logic of a replica in a Byzantine-fault-tolerant cluster:
//! the cluster configuration with its validation, and the length-prefixed
//! framing of the messages that replicas and clients exchange.

pub mod codec;
pub mod config;
pub mod crypto;
pub mod startup;
