//! The HTTP gateway's decisions: who is admitted, what a request asks for, what it is answered.
pub mod auth;
pub mod reply;
pub mod log;
pub mod body;
pub mod capability;
pub mod mesh;
pub mod kv;
pub mod consensus;
pub mod govern;
pub mod routes;
pub mod status;
pub mod audit;
pub mod llm;
