//! The decision core of a gossip mesh agent.
//!
//! Every rule the agent applies to plain values lives here: the journal's record format, the
//! gateway's authorization table, the governors' transitions, the wire formats of the overlays.
//! Sockets, files and timers stay outside and hand their results in as values.
pub mod text;
pub mod numeral;
pub mod journal;
pub mod json;
pub mod hex;
pub mod http;
pub mod node_id;
pub mod config;
pub mod control;
pub mod intent;
pub mod keys;
pub mod membership_governor;
pub mod opacity;
pub mod order;
pub mod wire;
pub mod replica_sync;
pub mod kv_quorum;
pub mod mailbox;
pub mod revocation;
pub mod rpc;
pub mod oidc;
pub mod b64;
pub mod llm;
pub mod mcp;
pub mod overlay_consistent;
pub mod provider_enforcement;
pub mod knowledge_keys;
pub mod membership_ops;
pub mod error;
pub mod agent;
pub mod lifecycle;
pub mod laws;
