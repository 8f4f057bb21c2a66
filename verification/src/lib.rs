//! Read-path library for a blockchain indexing node.
//!
//! Two core components: a state resolver that reconstructs an entity's state
//! as of an arbitrary historical point from a live table, a snapshot table and
//! a bounded-retention history table; and a tiered key/value lookup engine
//! that cascades a batched multi-get across a primary and a fallback backend.
//! Around them: the RPC method router, name-service domain parsing, the
//! native group-operation dispatch, and the ingestion service's defaults.

pub mod config;
pub mod group_ops;
pub mod key_value_store;
pub mod name_service;
pub mod object;
pub mod routing_layer;
